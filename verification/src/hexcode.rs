//! Hex encoding of captured payload bytes, with a decoding spec that
//! shows the encoding loses nothing.

use vstd::prelude::*;

verus! {

/// ASCII code of the lowercase hex digit for a value below 16.
pub open spec fn hex_digit(n: u8) -> u8
    recommends
        n < 16,
{
    if n < 10 {
        (0x30 + n) as u8
    } else {
        (0x61 + (n - 10)) as u8
    }
}

/// Lowercase hex encoding of a byte sequence: two digits per byte,
/// high nibble first.
pub open spec fn hex_bytes(s: Seq<u8>) -> Seq<u8>
    decreases s.len(),
{
    if s.len() == 0 {
        Seq::empty()
    } else {
        seq![hex_digit(s[0] / 16), hex_digit(s[0] % 16)] + hex_bytes(s.skip(1))
    }
}

/// Value of a lowercase hex digit, or -1 for any other byte.
pub open spec fn hex_val(d: u8) -> int {
    if 0x30 <= d <= 0x39 {
        d - 0x30
    } else if 0x61 <= d <= 0x66 {
        d - 0x61 + 10
    } else {
        -1
    }
}

/// Decoding of a lowercase hex string back to bytes, two digits at a
/// time; `None` on an odd length or a byte that is no hex digit.
pub open spec fn unhex_bytes(s: Seq<u8>) -> Option<Seq<u8>>
    decreases s.len(),
{
    if s.len() == 0 {
        Some(Seq::empty())
    } else if s.len() == 1 {
        None
    } else if hex_val(s[0]) < 0 || hex_val(s[1]) < 0 {
        None
    } else {
        match unhex_bytes(s.skip(2)) {
            Some(rest) => Some(seq![(hex_val(s[0]) * 16 + hex_val(s[1])) as u8] + rest),
            None => None,
        }
    }
}

proof fn lemma_hex_digit_val(n: u8)
    requires
        n < 16,
    ensures
        hex_val(hex_digit(n)) == n,
{
}

/// Every byte of a hex encoding is a digit or a lowercase letter
/// `a` to `f`.
pub proof fn lemma_hex_bytes_digits(s: Seq<u8>)
    ensures
        forall|k: int|
            0 <= k < hex_bytes(s).len() ==> (0x30 <= #[trigger] hex_bytes(s)[k] <= 0x39 || 0x61
                <= hex_bytes(s)[k] <= 0x66),
    decreases s.len(),
{
    if s.len() > 0 {
        lemma_hex_bytes_digits(s.skip(1));
        assert forall|k: int| 0 <= k < hex_bytes(s).len() implies (0x30 <= #[trigger] hex_bytes(
            s,
        )[k] <= 0x39 || 0x61 <= hex_bytes(s)[k] <= 0x66) by {
            if k >= 2 {
                assert(hex_bytes(s)[k] == hex_bytes(s.skip(1))[k - 2]);
            }
        }
    }
}

/// Law: the hex-encoded form of any byte sequence decodes back to
/// exactly the original bytes, and is twice as long.
pub proof fn lemma_hex_round_trip(s: Seq<u8>)
    ensures
        hex_bytes(s).len() == 2 * s.len(),
        unhex_bytes(hex_bytes(s)) == Some(s),
    decreases s.len(),
{
    if s.len() == 0 {
        assert(unhex_bytes(hex_bytes(s)) == Some(Seq::<u8>::empty()));
        assert(Seq::<u8>::empty() =~= s);
    } else {
        let b = s[0];
        let h = hex_bytes(s);
        lemma_hex_digit_val(b / 16);
        lemma_hex_digit_val(b % 16);
        assert(h[0] == hex_digit(b / 16));
        assert(h[1] == hex_digit(b % 16));
        assert(h.skip(2) =~= hex_bytes(s.skip(1)));
        lemma_hex_round_trip(s.skip(1));
        assert((hex_val(h[0]) * 16 + hex_val(h[1])) as u8 == b);
        assert(seq![b] + s.skip(1) =~= s);
    }
}

/// Relies on hex::encode: lowercase hex, two digits per byte, high
/// nibble first.
#[verifier::external_body]
pub fn hex_encode(bytes: &[u8]) -> (r: Vec<u8>)
    ensures
        r@ == hex_bytes(bytes@),
{
    hex::encode(bytes).into_bytes()
}

} // verus!
