//! Verified core of a serial-capture pipeline: sequencing of captured
//! chunks, console formatting, and an incremental JSON record writer.

pub mod console;
pub mod hexcode;
pub mod record;
pub mod render;
pub mod sequencer;
pub mod text;
pub mod unit;
