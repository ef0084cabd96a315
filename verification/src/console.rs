//! Console rendering of a captured unit: an optional direction marker
//! (colourized or plain), an optional timestamp, and the chunk's text —
//! or its hex form when the bytes are not valid text.

use vstd::prelude::*;
use crate::hexcode::{hex_bytes, hex_encode};
use crate::text::{push_all, trim_ascii_ws, trim_ws, utf8_is_valid};
use crate::unit::CapturedUnit;

verus! {

/// The escape sequence that sets the blue foreground.
pub open spec fn fg_blue_code() -> Seq<u8> {
    seq![0x1bu8, 0x5b, 0x33, 0x38, 0x3b, 0x35, 0x3b, 0x34, 0x6d]
}

/// The escape sequence that sets the red foreground.
pub open spec fn fg_red_code() -> Seq<u8> {
    seq![0x1bu8, 0x5b, 0x33, 0x38, 0x3b, 0x35, 0x3b, 0x31, 0x6d]
}

/// The escape sequence that resets all style parameters.
pub open spec fn reset_code() -> Seq<u8> {
    seq![0x1bu8, 0x5b, 0x6d]
}

/// Relies on termion::color::Blue::fg_str, which returns the constant
/// CSI sequence `ESC [ 3 8 ; 5 ; 4 m` (unlike the Display path, which
/// yields nothing when the NO_COLOR environment variable is set).
#[verifier::external_body]
fn fg_blue() -> (r: Vec<u8>)
    ensures
        r@ == fg_blue_code(),
{
    termion::color::Blue.fg_str().as_bytes().to_vec()
}

/// Relies on termion::color::Red::fg_str, which returns the constant
/// CSI sequence `ESC [ 3 8 ; 5 ; 1 m` (unlike the Display path, which
/// yields nothing when the NO_COLOR environment variable is set).
#[verifier::external_body]
fn fg_red() -> (r: Vec<u8>)
    ensures
        r@ == fg_red_code(),
{
    termion::color::Red.fg_str().as_bytes().to_vec()
}

/// Relies on termion::style::Reset, whose source prints the CSI
/// sequence `ESC [ m`.
#[verifier::external_body]
fn style_reset() -> (r: Vec<u8>)
    ensures
        r@ == reset_code(),
{
    format!("{}", termion::style::Reset).into_bytes()
}

/// The direction marker: `[<]` for link 1, `[>]` for link 2, with the
/// marker colourized blue resp. red when colour is on.
pub open spec fn direction_part(source_id: u32, with_colour: bool) -> Seq<u8> {
    let mark: u8 = if source_id == 1 {
        0x3c
    } else {
        0x3e
    };
    if with_colour {
        let code = if source_id == 1 {
            fg_blue_code()
        } else {
            fg_red_code()
        };
        seq![0x5bu8] + code + seq![mark] + reset_code() + seq![0x5du8]
    } else {
        seq![0x5bu8, mark, 0x5d]
    }
}

/// The timestamp part: the capture time in brackets, or nothing.
pub open spec fn timestamp_part(captured_at: Seq<u8>, show: bool) -> Seq<u8> {
    if show {
        seq![0x5bu8] + captured_at + seq![0x5du8]
    } else {
        Seq::empty()
    }
}

/// The whole console line: direction, timestamp, a space, and the
/// trimmed text (hex when binary), itself trimmed at both ends.
pub open spec fn console_line(
    u: CapturedUnit,
    show_ts: bool,
    show_dir: bool,
    with_colour: bool,
) -> Seq<u8> {
    let dir = if show_dir {
        direction_part(u.source_id, with_colour)
    } else {
        Seq::empty()
    };
    let shown = if u.is_binary {
        hex_bytes(u.payload@)
    } else {
        u.payload@
    };
    trim_ws(dir + timestamp_part(u.captured_at@, show_ts) + seq![0x20u8] + trim_ws(shown))
}

/// Renders the console line for one unit. Returns `None` exactly when
/// the unit claims text but its bytes are not valid UTF-8 — the one
/// per-unit decode failure, which the consumer logs and skips.
/// Trimming covers ASCII whitespace only: a chunk edged with
/// whitespace from beyond ASCII keeps those characters.
pub fn format_console_line(
    u: &CapturedUnit,
    show_ts: bool,
    show_dir: bool,
    with_colour: bool,
) -> (r: Option<Vec<u8>>)
    ensures
        r is Some <==> (u.is_binary || vstd::utf8::valid_utf8(u.payload@)),
        r matches Some(line) ==> line@ == console_line(*u, show_ts, show_dir, with_colour),
{
    let shown: Vec<u8>;
    if u.is_binary {
        shown = hex_encode(u.payload.as_slice());
    } else if utf8_is_valid(u.payload.as_slice()) {
        shown = vstd::slice::slice_to_vec(u.payload.as_slice());
    } else {
        return None;
    }
    let mut out: Vec<u8> = Vec::new();
    if show_dir {
        out.push(0x5b);
        if with_colour {
            if u.source_id == 1 {
                let code = fg_blue();
                push_all(&mut out, code.as_slice());
            } else {
                let code = fg_red();
                push_all(&mut out, code.as_slice());
            }
            if u.source_id == 1 {
                out.push(0x3c);
            } else {
                out.push(0x3e);
            }
            let reset = style_reset();
            push_all(&mut out, reset.as_slice());
        } else {
            if u.source_id == 1 {
                out.push(0x3c);
            } else {
                out.push(0x3e);
            }
        }
        out.push(0x5d);
        proof {
            assert(out@ =~= direction_part(u.source_id, with_colour));
        }
    }
    if show_ts {
        out.push(0x5b);
        push_all(&mut out, u.captured_at.as_slice());
        out.push(0x5d);
    }
    out.push(0x20);
    let trimmed = trim_ascii_ws(shown.as_slice());
    push_all(&mut out, trimmed.as_slice());
    let line = trim_ascii_ws(out.as_slice());
    proof {
        let dir = if show_dir {
            direction_part(u.source_id, with_colour)
        } else {
            Seq::<u8>::empty()
        };
        let body = if u.is_binary {
            hex_bytes(u.payload@)
        } else {
            u.payload@
        };
        assert(out@ =~= dir + timestamp_part(u.captured_at@, show_ts) + seq![0x20u8] + trim_ws(
            body,
        ));
    }
    Some(line)
}

} // verus!
