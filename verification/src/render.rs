//! Rendering of one captured unit as the structured record text that the
//! record writer appends: a JSON object with the fields `idx`,
//! `timestamp`, `source`, `is_raw` and `data` (hex of the raw bytes).

use vstd::prelude::*;
use crate::hexcode::{hex_bytes, hex_encode};
use crate::text::push_all;
use crate::unit::CapturedUnit;

verus! {

/// Decimal digits of `n`, most significant first.
pub open spec fn dec_rep(n: u64) -> Seq<u8>
    decreases n,
{
    if n < 10 {
        seq![(0x30 + n) as u8]
    } else {
        dec_rep(n / 10) + seq![(0x30 + n % 10) as u8]
    }
}

/// Decimal digits of `n`, as bytes.
pub fn dec_digits(n: u64) -> (r: Vec<u8>)
    ensures
        r@ == dec_rep(n),
    decreases n,
{
    if n < 10 {
        let mut v: Vec<u8> = Vec::new();
        v.push(0x30 + (n as u8));
        proof {
            assert(v@ =~= dec_rep(n));
        }
        v
    } else {
        let mut v = dec_digits(n / 10);
        v.push(0x30 + ((n % 10) as u8));
        proof {
            assert(v@ =~= dec_rep(n));
        }
        v
    }
}

/// Every byte of a decimal rendering is a digit.
pub proof fn lemma_dec_rep_digits(n: u64)
    ensures
        forall|k: int| 0 <= k < dec_rep(n).len() ==> 0x30 <= #[trigger] dec_rep(n)[k] <= 0x39,
    decreases n,
{
    if n >= 10 {
        lemma_dec_rep_digits(n / 10);
        assert forall|k: int| 0 <= k < dec_rep(n).len() implies 0x30 <= #[trigger] dec_rep(n)[k]
            <= 0x39 by {
            if k < dec_rep(n / 10).len() {
                assert(dec_rep(n)[k] == dec_rep(n / 10)[k]);
            }
        }
    }
}

/// `{\n  "idx": `
pub open spec fn lit_open_idx() -> Seq<u8> {
    seq![0x7bu8, 0x0a, 0x20, 0x20, 0x22, 0x69, 0x64, 0x78, 0x22, 0x3a, 0x20]
}

/// `,\n  "timestamp": "`
pub open spec fn lit_timestamp() -> Seq<u8> {
    seq![0x2cu8, 0x0a, 0x20, 0x20, 0x22, 0x74, 0x69, 0x6d, 0x65, 0x73, 0x74, 0x61, 0x6d, 0x70,
        0x22, 0x3a, 0x20, 0x22]
}

/// `",\n  "source": `
pub open spec fn lit_source() -> Seq<u8> {
    seq![0x22u8, 0x2c, 0x0a, 0x20, 0x20, 0x22, 0x73, 0x6f, 0x75, 0x72, 0x63, 0x65, 0x22, 0x3a,
        0x20]
}

/// `,\n  "is_raw": `
pub open spec fn lit_is_raw() -> Seq<u8> {
    seq![0x2cu8, 0x0a, 0x20, 0x20, 0x22, 0x69, 0x73, 0x5f, 0x72, 0x61, 0x77, 0x22, 0x3a, 0x20]
}

/// `,\n  "data": "`
pub open spec fn lit_data() -> Seq<u8> {
    seq![0x2cu8, 0x0a, 0x20, 0x20, 0x22, 0x64, 0x61, 0x74, 0x61, 0x22, 0x3a, 0x20, 0x22]
}

/// `"\n}`
pub open spec fn lit_close() -> Seq<u8> {
    seq![0x22u8, 0x0a, 0x7d]
}

/// `true` or `false`.
pub open spec fn bool_rep(b: bool) -> Seq<u8> {
    if b {
        seq![0x74u8, 0x72, 0x75, 0x65]
    } else {
        seq![0x66u8, 0x61, 0x6c, 0x73, 0x65]
    }
}

/// The record text for one unit, byte for byte.
pub open spec fn record_json(u: CapturedUnit) -> Seq<u8> {
    lit_open_idx() + dec_rep(u.sequence) + lit_timestamp() + u.captured_at@ + lit_source()
        + dec_rep(u.source_id as u64) + lit_is_raw() + bool_rep(u.is_binary) + lit_data()
        + hex_bytes(u.payload@) + lit_close()
}

fn push_lit_open_idx(out: &mut Vec<u8>)
    ensures
        final(out)@ == old(out)@ + lit_open_idx(),
{
    out.push(0x7b);
    out.push(0x0a);
    out.push(0x20);
    out.push(0x20);
    out.push(0x22);
    out.push(0x69);
    out.push(0x64);
    out.push(0x78);
    out.push(0x22);
    out.push(0x3a);
    out.push(0x20);
    proof {
        assert(out@ =~= old(out)@ + lit_open_idx());
    }
}

fn push_lit_timestamp(out: &mut Vec<u8>)
    ensures
        final(out)@ == old(out)@ + lit_timestamp(),
{
    out.push(0x2c);
    out.push(0x0a);
    out.push(0x20);
    out.push(0x20);
    out.push(0x22);
    out.push(0x74);
    out.push(0x69);
    out.push(0x6d);
    out.push(0x65);
    out.push(0x73);
    out.push(0x74);
    out.push(0x61);
    out.push(0x6d);
    out.push(0x70);
    out.push(0x22);
    out.push(0x3a);
    out.push(0x20);
    out.push(0x22);
    proof {
        assert(out@ =~= old(out)@ + lit_timestamp());
    }
}

fn push_lit_source(out: &mut Vec<u8>)
    ensures
        final(out)@ == old(out)@ + lit_source(),
{
    out.push(0x22);
    out.push(0x2c);
    out.push(0x0a);
    out.push(0x20);
    out.push(0x20);
    out.push(0x22);
    out.push(0x73);
    out.push(0x6f);
    out.push(0x75);
    out.push(0x72);
    out.push(0x63);
    out.push(0x65);
    out.push(0x22);
    out.push(0x3a);
    out.push(0x20);
    proof {
        assert(out@ =~= old(out)@ + lit_source());
    }
}

fn push_lit_is_raw(out: &mut Vec<u8>)
    ensures
        final(out)@ == old(out)@ + lit_is_raw(),
{
    out.push(0x2c);
    out.push(0x0a);
    out.push(0x20);
    out.push(0x20);
    out.push(0x22);
    out.push(0x69);
    out.push(0x73);
    out.push(0x5f);
    out.push(0x72);
    out.push(0x61);
    out.push(0x77);
    out.push(0x22);
    out.push(0x3a);
    out.push(0x20);
    proof {
        assert(out@ =~= old(out)@ + lit_is_raw());
    }
}

fn push_lit_data(out: &mut Vec<u8>)
    ensures
        final(out)@ == old(out)@ + lit_data(),
{
    out.push(0x2c);
    out.push(0x0a);
    out.push(0x20);
    out.push(0x20);
    out.push(0x22);
    out.push(0x64);
    out.push(0x61);
    out.push(0x74);
    out.push(0x61);
    out.push(0x22);
    out.push(0x3a);
    out.push(0x20);
    out.push(0x22);
    proof {
        assert(out@ =~= old(out)@ + lit_data());
    }
}

fn push_bool(out: &mut Vec<u8>, b: bool)
    ensures
        final(out)@ == old(out)@ + bool_rep(b),
{
    if b {
        out.push(0x74);
        out.push(0x72);
        out.push(0x75);
        out.push(0x65);
    } else {
        out.push(0x66);
        out.push(0x61);
        out.push(0x6c);
        out.push(0x73);
        out.push(0x65);
    }
    proof {
        assert(out@ =~= old(out)@ + bool_rep(b));
    }
}

/// Builds the record text for `u`: exactly `record_json(u)`.
pub fn render_record(u: &CapturedUnit) -> (r: Vec<u8>)
    ensures
        r@ == record_json(*u),
{
    let mut out: Vec<u8> = Vec::new();
    push_lit_open_idx(&mut out);
    let seq_digits = dec_digits(u.sequence);
    push_all(&mut out, seq_digits.as_slice());
    push_lit_timestamp(&mut out);
    push_all(&mut out, u.captured_at.as_slice());
    push_lit_source(&mut out);
    let src_digits = dec_digits(u.source_id as u64);
    push_all(&mut out, src_digits.as_slice());
    push_lit_is_raw(&mut out);
    push_bool(&mut out, u.is_binary);
    push_lit_data(&mut out);
    let hexed = hex_encode(u.payload.as_slice());
    push_all(&mut out, hexed.as_slice());
    out.push(0x22);
    out.push(0x0a);
    out.push(0x7d);
    proof {
        assert(out@ =~= record_json(*u));
    }
    out
}

} // verus!
