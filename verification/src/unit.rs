//! One captured unit: a delimiter-bounded chunk read from a link, tagged
//! with its global sequence number, timestamp, source link and text flag.

use vstd::prelude::*;

verus! {

/// An immutable record of a single delimited chunk read from a link.
///
/// `sequence` is globally unique across both links and strictly
/// increasing in assignment order; `is_binary` records, once at
/// creation, whether the payload failed to decode as UTF-8 text;
/// `payload` owns the raw bytes, trailing delimiter included;
/// `captured_at` holds an RFC 3339 timestamp as bytes.
pub struct CapturedUnit {
    pub sequence: u64,
    pub captured_at: Vec<u8>,
    pub source_id: u32,
    pub is_binary: bool,
    pub payload: Vec<u8>,
}

} // verus!
