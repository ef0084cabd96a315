//! Byte-level text helpers for the capture pipeline: UTF-8 validity of a
//! captured chunk, and trimming of ASCII whitespace for console display.

use vstd::prelude::*;

verus! {

/// Relies on std's str::from_utf8, which succeeds exactly on valid UTF-8
/// (vstd's valid_utf8 is that specification).
#[verifier::external_body]
pub fn utf8_is_valid(bytes: &[u8]) -> (r: bool)
    ensures
        r == vstd::utf8::valid_utf8(bytes@),
{
    std::str::from_utf8(bytes).is_ok()
}

/// ASCII whitespace, as char::is_whitespace sees bytes below 0x80.
pub open spec fn is_ascii_ws(b: u8) -> bool {
    b == 0x20 || b == 0x09 || b == 0x0a || b == 0x0b || b == 0x0c || b == 0x0d
}

pub open spec fn trim_front(s: Seq<u8>) -> Seq<u8>
    decreases s.len(),
{
    if s.len() > 0 && is_ascii_ws(s[0]) {
        trim_front(s.skip(1))
    } else {
        s
    }
}

pub open spec fn trim_back(s: Seq<u8>) -> Seq<u8>
    decreases s.len(),
{
    if s.len() > 0 && is_ascii_ws(s.last()) {
        trim_back(s.drop_last())
    } else {
        s
    }
}

/// The sequence with leading and trailing ASCII whitespace removed.
pub open spec fn trim_ws(s: Seq<u8>) -> Seq<u8> {
    trim_back(trim_front(s))
}

fn is_ws_byte(b: u8) -> (r: bool)
    ensures
        r == is_ascii_ws(b),
{
    b == 0x20 || b == 0x09 || b == 0x0a || b == 0x0b || b == 0x0c || b == 0x0d
}

proof fn lemma_trim_front_skip(s: Seq<u8>, i: int)
    requires
        0 <= i <= s.len(),
        forall|k: int| 0 <= k < i ==> is_ascii_ws(s[k]),
    ensures
        trim_front(s) == trim_front(s.skip(i)),
    decreases i,
{
    if i > 0 {
        assert(s.skip(1).skip(i - 1) =~= s.skip(i));
        lemma_trim_front_skip(s.skip(1), i - 1);
    } else {
        assert(s.skip(0) =~= s);
    }
}

proof fn lemma_trim_back_take(s: Seq<u8>, j: int)
    requires
        0 <= j <= s.len(),
        forall|k: int| j <= k < s.len() ==> is_ascii_ws(s[k]),
    ensures
        trim_back(s) == trim_back(s.take(j)),
    decreases s.len() - j,
{
    if j < s.len() {
        assert(s.drop_last() =~= s.take(s.len() - 1));
        lemma_trim_back_take(s.take(s.len() - 1), j);
        assert(s.take(s.len() - 1).take(j) =~= s.take(j));
    } else {
        assert(s.take(j) =~= s);
    }
}

/// Copy of `v` with leading and trailing ASCII whitespace removed.
pub fn trim_ascii_ws(v: &[u8]) -> (r: Vec<u8>)
    ensures
        r@ == trim_ws(v@),
{
    let mut i: usize = 0;
    while i < v.len() && is_ws_byte(v[i])
        invariant
            0 <= i <= v@.len(),
            forall|k: int| 0 <= k < i ==> is_ascii_ws(v@[k]),
        decreases v@.len() - i,
    {
        i = i + 1;
    }
    proof {
        lemma_trim_front_skip(v@, i as int);
        if i < v@.len() {
            assert(!is_ascii_ws(v@.skip(i as int)[0]));
        }
        assert(trim_front(v@) == v@.skip(i as int));
    }
    let mut j: usize = v.len();
    while j > i && is_ws_byte(v[j - 1])
        invariant
            i <= j <= v@.len(),
            forall|k: int| 0 <= k < i ==> is_ascii_ws(v@[k]),
            forall|k: int| j <= k < v@.len() ==> is_ascii_ws(v@[k]),
        decreases j,
    {
        j = j - 1;
    }
    let mid = vstd::slice::slice_subrange(v, i, j);
    let r = vstd::slice::slice_to_vec(mid);
    proof {
        let tf = v@.skip(i as int);
        lemma_trim_back_take(tf, j - i as int);
        if j > i {
            assert(!is_ascii_ws(tf.take(j - i as int).last()));
        }
        assert(trim_back(tf.take(j - i as int)) == tf.take(j - i as int));
        assert(tf.take(j - i as int) =~= v@.subrange(i as int, j as int));
        assert(r@ == trim_ws(v@));
    }
    r
}

/// Appends every byte of `s` to `out`.
pub fn push_all(out: &mut Vec<u8>, s: &[u8])
    ensures
        final(out)@ == old(out)@ + s@,
{
    let mut k: usize = 0;
    while k < s.len()
        invariant
            0 <= k <= s@.len(),
            out@ == old(out)@ + s@.take(k as int),
        decreases s@.len() - k,
    {
        out.push(s[k]);
        proof {
            assert(old(out)@ + s@.take(k as int) + seq![s@[k as int]] =~= old(out)@ + s@.take(
                k + 1,
            ));
        }
        k = k + 1;
    }
    proof {
        assert(s@.take(k as int) =~= s@);
    }
}

} // verus!
