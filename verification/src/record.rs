//! The record writer: keeps a single JSON-array-shaped file, laid down
//! as the empty array `[\n\n]` at creation and grown by O(1) appends,
//! each a single positional write that replaces the two closing bytes
//! and lays down the new record with a fresh closer.
//!
//! The writer itself holds no file: each operation returns the exact
//! positional write (`WritePlan`) to perform, and tracks the file it
//! thereby describes in ghost state, so every property of the file on
//! disk is proved of `file_rep` here — including that reading the file
//! back yields exactly the records appended, in order.

use vstd::prelude::*;
use crate::text::push_all;
use crate::unit::CapturedUnit;
use crate::render::{
    bool_rep,
    dec_rep,
    lemma_dec_rep_digits,
    lit_close,
    lit_data,
    lit_is_raw,
    lit_open_idx,
    lit_source,
    lit_timestamp,
    record_json,
    render_record,
};
use crate::hexcode::{hex_bytes, lemma_hex_bytes_digits};

verus! {

/// The rows of the array: records joined by `,\n`.
pub open spec fn rows_rep(rs: Seq<Seq<u8>>) -> Seq<u8>
    decreases rs.len(),
{
    if rs.len() == 0 {
        Seq::empty()
    } else if rs.len() == 1 {
        rs[0]
    } else {
        rs[0] + seq![0x2cu8, 0x0a] + rows_rep(rs.skip(1))
    }
}

/// The whole file: the empty array `[\n\n]` before the first append,
/// `[\n` rows `\n]` afterwards.
pub open spec fn file_rep(rs: Seq<Seq<u8>>) -> Seq<u8> {
    if rs.len() == 0 {
        seq![0x5bu8, 0x0a, 0x0a, 0x5d]
    } else {
        seq![0x5bu8, 0x0a] + rows_rep(rs) + seq![0x0au8, 0x5d]
    }
}

/// The file after writing `bytes` at `offset` of `content`, where the
/// write lands at or past every prior byte's position.
pub open spec fn splice(content: Seq<u8>, offset: int, bytes: Seq<u8>) -> Seq<u8>
    recommends
        0 <= offset <= content.len(),
        offset + bytes.len() >= content.len(),
{
    content.take(offset) + bytes
}

pub proof fn lemma_rows_push(rs: Seq<Seq<u8>>, r: Seq<u8>)
    ensures
        rows_rep(rs.push(r)) == if rs.len() == 0 {
            r
        } else {
            rows_rep(rs) + seq![0x2cu8, 0x0a] + r
        },
    decreases rs.len(),
{
    if rs.len() == 0 {
        assert(rs.push(r).len() == 1);
        assert(rs.push(r)[0] == r);
    } else if rs.len() == 1 {
        assert(rs.push(r).skip(1) =~= rs.skip(1).push(r));
        assert(rs.skip(1).len() == 0);
        lemma_rows_push(rs.skip(1), r);
        assert(rows_rep(rs.push(r)) == rs[0] + seq![0x2cu8, 0x0a] + r);
    } else {
        assert(rs.push(r).skip(1) =~= rs.skip(1).push(r));
        lemma_rows_push(rs.skip(1), r);
        assert(rows_rep(rs.push(r)) == rs[0] + seq![0x2cu8, 0x0a] + (rows_rep(rs.skip(1)) + seq![
            0x2cu8,
            0x0a,
        ] + r));
        assert(rs[0] + seq![0x2cu8, 0x0a] + (rows_rep(rs.skip(1)) + seq![0x2cu8, 0x0a] + r) =~= (
        rs[0] + seq![0x2cu8, 0x0a] + rows_rep(rs.skip(1))) + seq![0x2cu8, 0x0a] + r);
    }
}

/// Each row adds its bytes and, past the first, a two-byte separator.
pub proof fn lemma_rows_rep_len(rs: Seq<Seq<u8>>)
    requires
        rs.len() >= 1,
    ensures
        rows_rep(rs).len() >= 2 * rs.len() - 2,
    decreases rs.len(),
{
    if rs.len() > 1 {
        lemma_rows_rep_len(rs.skip(1));
    }
}

/// Law: appending a record never alters any byte of the file but the
/// two trailing closer bytes; everything before them is preserved.
pub proof fn lemma_append_keeps_prior_bytes(rs: Seq<Seq<u8>>, r: Seq<u8>)
    ensures
        file_rep(rs.push(r)).len() == if rs.len() == 0 {
            r.len() + 4
        } else {
            file_rep(rs).len() + r.len() + 2
        },
        file_rep(rs.push(r)).subrange(0, file_rep(rs).len() - 2) == file_rep(rs).subrange(
            0,
            file_rep(rs).len() - 2,
        ),
{
    lemma_rows_push(rs, r);
    if rs.len() == 0 {
        assert(file_rep(rs.push(r)) =~= seq![0x5bu8, 0x0a] + r + seq![0x0au8, 0x5d]);
        assert(file_rep(rs.push(r)).subrange(0, 2) =~= file_rep(rs).subrange(0, 2));
    } else {
        assert(file_rep(rs.push(r)) =~= file_rep(rs).subrange(0, file_rep(rs).len() - 2) + seq![
            0x2cu8,
            0x0a,
        ] + r + seq![0x0au8, 0x5d]);
        assert(file_rep(rs.push(r)).subrange(0, file_rep(rs).len() - 2) =~= file_rep(rs).subrange(
            0,
            file_rep(rs).len() - 2,
        ));
    }
}

/// Index of the first closing brace in `s`, or -1 if there is none.
pub open spec fn find_rb(s: Seq<u8>) -> int
    decreases s.len(),
{
    if s.len() == 0 {
        -1
    } else if s[0] == 0x7d {
        0
    } else if find_rb(s.skip(1)) < 0 {
        -1
    } else {
        find_rb(s.skip(1)) + 1
    }
}

proof fn lemma_find_rb_at(s: Seq<u8>, i: int)
    requires
        0 <= i < s.len(),
        s[i] == 0x7d,
        forall|k: int| 0 <= k < i ==> s[k] != 0x7d,
    ensures
        find_rb(s) == i,
    decreases i,
{
    if i == 0 {
    } else {
        assert(s[0] != 0x7d);
        assert forall|k: int| 0 <= k < i - 1 implies s.skip(1)[k] != 0x7d by {
            assert(s.skip(1)[k] == s[k + 1]);
        }
        assert(s.skip(1)[i - 1] == s[i]);
        lemma_find_rb_at(s.skip(1), i - 1);
    }
}

/// A record in closed form, as the renderer writes them: nonempty,
/// ended by its closing brace, and holding a closing brace nowhere
/// else.
pub open spec fn closed_record(r: Seq<u8>) -> bool {
    r.len() > 0 && r.last() == 0x7d && forall|k: int| 0 <= k < r.len() - 1 ==> r[k] != 0x7d
}

/// Reads the rows back out of the array body: each row runs to its
/// closing brace, and rows are separated by `,\n`.
pub open spec fn parse_rows(m: Seq<u8>) -> Option<Seq<Seq<u8>>>
    decreases m.len(),
{
    let i = find_rb(m);
    if i < 0 {
        None
    } else if i == m.len() - 1 {
        Some(seq![m])
    } else if i + 2 < m.len() && m[i + 1] == 0x2c && m[i + 2] == 0x0a {
        match parse_rows(m.skip(i + 3)) {
            Some(rest) => Some(seq![m.take(i + 1)] + rest),
            None => None,
        }
    } else {
        None
    }
}

/// Reads the records back out of a whole file: the empty array, or
/// `[\n` rows `\n]`.
pub open spec fn parse_file(f: Seq<u8>) -> Option<Seq<Seq<u8>>> {
    if f.len() == 4 && f[0] == 0x5b && f[1] == 0x0a && f[2] == 0x0a && f[3] == 0x5d {
        Some(Seq::empty())
    } else if f.len() >= 4 && f[0] == 0x5b && f[1] == 0x0a && f[f.len() - 2] == 0x0a && f[f.len()
        - 1] == 0x5d {
        parse_rows(f.subrange(2, f.len() - 2))
    } else {
        None
    }
}

proof fn lemma_parse_rows_round_trip(rs: Seq<Seq<u8>>)
    requires
        rs.len() >= 1,
        forall|i: int| 0 <= i < rs.len() ==> closed_record(#[trigger] rs[i]),
    ensures
        parse_rows(rows_rep(rs)) == Some(rs),
    decreases rs.len(),
{
    let m = rows_rep(rs);
    if rs.len() == 1 {
        assert(m == rs[0]);
        assert(closed_record(rs[0]));
        lemma_find_rb_at(m, m.len() - 1);
        assert(seq![m] =~= rs);
    } else {
        let a = rs[0];
        let rest = rs.skip(1);
        let al = a.len() as int;
        assert(closed_record(a));
        assert(m == a + seq![0x2cu8, 0x0a] + rows_rep(rest));
        assert(m[al - 1] == a[al - 1]);
        assert forall|k: int| 0 <= k < al - 1 implies m[k] != 0x7d by {
            assert(m[k] == a[k]);
        }
        lemma_find_rb_at(m, al - 1);
        assert(m[al] == 0x2c);
        assert(m[al + 1] == 0x0a);
        assert(m.take(al) =~= a);
        assert(m.skip(al + 2) =~= rows_rep(rest));
        assert forall|i: int| 0 <= i < rest.len() implies closed_record(#[trigger] rest[i]) by {
            assert(rest[i] == rs[i + 1]);
        }
        lemma_parse_rows_round_trip(rest);
        assert(seq![m.take(al)] + rest =~= rs);
    }
}

/// Law: for every run of appends whose records are in closed form,
/// reading the produced file back yields exactly those records, in
/// append order; zero appends leave the empty array.
pub proof fn lemma_parse_round_trip(rs: Seq<Seq<u8>>)
    requires
        forall|i: int| 0 <= i < rs.len() ==> closed_record(#[trigger] rs[i]),
    ensures
        parse_file(file_rep(rs)) == Some(rs),
{
    if rs.len() == 0 {
        assert(Seq::<Seq<u8>>::empty() =~= rs);
    } else {
        let f = file_rep(rs);
        assert(closed_record(rs[0]));
        assert(rows_rep(rs).len() >= 1);
        assert(f.len() == rows_rep(rs).len() + 4);
        assert(f[0] == 0x5b);
        assert(f[1] == 0x0a);
        assert(f[f.len() - 2] == 0x0a);
        assert(f[f.len() - 1] == 0x5d);
        assert(f.subrange(2, f.len() - 2) =~= rows_rep(rs));
        lemma_parse_rows_round_trip(rs);
    }
}

/// The record text of a unit is in closed form: its rendered fields —
/// digits, hex digits, the fixed keys and a timestamp free of closing
/// braces — put the record's only closing brace at its end.
pub proof fn lemma_record_json_closed(u: CapturedUnit)
    requires
        forall|k: int| 0 <= k < u.captured_at@.len() ==> #[trigger] u.captured_at@[k] != 0x7d,
    ensures
        closed_record(record_json(u)),
{
    let r = record_json(u);
    let p = lit_open_idx() + dec_rep(u.sequence) + lit_timestamp() + u.captured_at@ + lit_source()
        + dec_rep(u.source_id as u64) + lit_is_raw() + bool_rep(u.is_binary) + lit_data()
        + hex_bytes(u.payload@);
    assert(r =~= p + lit_close());
    lemma_dec_rep_digits(u.sequence);
    lemma_dec_rep_digits(u.source_id as u64);
    lemma_hex_bytes_digits(u.payload@);
    assert(r.last() == 0x7d);
    assert forall|k: int| 0 <= k < r.len() - 1 implies r[k] != 0x7d by {
        if k < p.len() {
            assert(r[k] == p[k]);
        } else {
            assert(r[k] == lit_close()[k - p.len()]);
        }
    }
}

/// Law: a capture file holding the rendered records of any units whose
/// timestamps are free of closing braces reads back as exactly those
/// records, in capture order.
pub proof fn lemma_capture_file_round_trip(units: Seq<CapturedUnit>)
    requires
        forall|i: int, k: int|
            0 <= i < units.len() && 0 <= k < units[i].captured_at@.len()
                ==> #[trigger] units[i].captured_at@[k] != 0x7d,
    ensures
        parse_file(file_rep(units.map_values(|u: CapturedUnit| record_json(u)))) == Some(
            units.map_values(|u: CapturedUnit| record_json(u)),
        ),
{
    let rs = units.map_values(|u: CapturedUnit| record_json(u));
    assert forall|i: int| 0 <= i < rs.len() implies closed_record(#[trigger] rs[i]) by {
        assert(rs[i] == record_json(units[i]));
        assert forall|k: int| 0 <= k < units[i].captured_at@.len() implies #[trigger] units[i]
            .captured_at@[k] != 0x7d by {}
        lemma_record_json_closed(units[i]);
    }
    lemma_parse_round_trip(rs);
}

/// One positional write: `bytes` laid down at byte `offset` of the file.
pub struct WritePlan {
    pub offset: u64,
    pub bytes: Vec<u8>,
}

/// The incremental writer. `history` is the sequence of records
/// appended so far; `position` is the length of the file that the
/// returned write plans, performed in order, produce; `count` is the
/// number of records.
pub struct IncrementalJsonWriter {
    pub position: u64,
    pub count: u64,
    pub history: Ghost<Seq<Seq<u8>>>,
}

impl IncrementalJsonWriter {
    /// The tracked position is the end of the represented file, and
    /// the count its number of records.
    pub open spec fn wf(self) -> bool {
        &&& self.position == file_rep(self.history@).len()
        &&& self.count == self.history@.len()
    }

    /// A fresh writer, together with the write that lays the file down
    /// as the empty array `[\n\n]`.
    pub fn new() -> (r: (Self, WritePlan))
        ensures
            r.0.wf(),
            r.0.history@ == Seq::<Seq<u8>>::empty(),
            r.0.position == 4,
            r.1.offset == 0,
            r.1.bytes@ == file_rep(Seq::<Seq<u8>>::empty()),
    {
        let w = IncrementalJsonWriter { position: 4, count: 0, history: Ghost(Seq::empty()) };
        let mut bytes: Vec<u8> = Vec::new();
        bytes.push(0x5b);
        bytes.push(0x0a);
        bytes.push(0x0a);
        bytes.push(0x5d);
        proof {
            assert(bytes@ =~= file_rep(Seq::<Seq<u8>>::empty()));
        }
        (w, WritePlan { offset: 0, bytes })
    }

    /// Appends one record. Returns the single positional write that
    /// turns the current file into the new one: `<record>\n]` for the
    /// first record, `,\n<record>\n]` afterwards, laid over the two
    /// closer bytes. `None` only when the file offset would outgrow
    /// u64.
    pub fn write(&mut self, record: &[u8]) -> (plan: Option<WritePlan>)
        requires
            old(self).wf(),
        ensures
            final(self).wf(),
            plan is Some <==> old(self).position + record@.len() + 2 <= u64::MAX,
            plan is None ==> *final(self) == *old(self),
            plan matches Some(p) ==> {
                &&& final(self).history@ == old(self).history@.push(record@)
                &&& final(self).position == file_rep(final(self).history@).len()
                &&& p.offset == old(self).position - 2
                &&& p.bytes@ == if old(self).history@.len() == 0 {
                    record@ + seq![0x0au8, 0x5d]
                } else {
                    seq![0x2cu8, 0x0a] + record@ + seq![0x0au8, 0x5d]
                }
                &&& splice(file_rep(old(self).history@), p.offset as int, p.bytes@) == file_rep(
                    final(self).history@,
                )
                &&& file_rep(final(self).history@).subrange(0, old(self).position - 2) == file_rep(
                    old(self).history@,
                ).subrange(0, old(self).position - 2)
            },
    {
        let rec_len = record.len() as u64;
        if rec_len > u64::MAX - 2 || self.position > u64::MAX - 2 - rec_len {
            return None;
        }
        let first = self.count == 0;
        proof {
            if self.history@.len() >= 1 {
                lemma_rows_rep_len(self.history@);
            }
            assert(self.position >= 4);
            assert(self.count < u64::MAX);
        }
        let mut bytes: Vec<u8> = Vec::new();
        if !first {
            bytes.push(0x2c);
            bytes.push(0x0a);
        }
        push_all(&mut bytes, record);
        bytes.push(0x0a);
        bytes.push(0x5d);
        let offset = self.position - 2;
        let ghost old_history = self.history@;
        let ghost old_position = self.position as int;
        self.position = offset + (bytes.len() as u64);
        self.count = self.count + 1;
        proof {
            self.history@ = old_history.push(record@);
        }
        proof {
            lemma_rows_push(old_history, record@);
            lemma_append_keeps_prior_bytes(old_history, record@);
            if old_history.len() == 0 {
                assert(bytes@ =~= record@ + seq![0x0au8, 0x5d]);
                assert(file_rep(old_history.push(record@)) =~= file_rep(old_history).take(2)
                    + bytes@);
            } else {
                assert(bytes@ =~= seq![0x2cu8, 0x0a] + record@ + seq![0x0au8, 0x5d]);
                assert(file_rep(old_history.push(record@)) =~= file_rep(old_history).take(
                    old_position - 2,
                ) + bytes@);
            }
        }
        Some(WritePlan { offset, bytes })
    }

    /// Renders one captured unit to its record text and appends it:
    /// serialize first, then hand the bytes to the append step.
    pub fn write_json(&mut self, element: &CapturedUnit) -> (plan: Option<WritePlan>)
        requires
            old(self).wf(),
        ensures
            final(self).wf(),
            plan is Some <==> old(self).position + record_json(*element).len() + 2 <= u64::MAX,
            plan is None ==> *final(self) == *old(self),
            plan matches Some(p) ==> {
                &&& final(self).history@ == old(self).history@.push(record_json(*element))
                &&& splice(file_rep(old(self).history@), p.offset as int, p.bytes@) == file_rep(
                    final(self).history@,
                )
                &&& p.offset == old(self).position - 2
                &&& file_rep(final(self).history@).subrange(0, old(self).position - 2) == file_rep(
                    old(self).history@,
                ).subrange(0, old(self).position - 2)
            },
    {
        let rec = render_record(element);
        self.write(rec.as_slice())
    }
}

} // verus!
