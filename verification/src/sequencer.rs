//! The sequencer: the single shared counter that assigns monotonically
//! increasing sequence numbers to captured units across both links, and
//! a pipeline model that shows the merged channel order equals the
//! assignment order.

use vstd::prelude::*;
use crate::text::utf8_is_valid;
use crate::unit::CapturedUnit;

verus! {

/// A byte that an RFC 3339 timestamp can hold: a decimal digit, `+`,
/// `-`, `.`, `:` or `T`.
pub open spec fn rfc3339_byte(b: u8) -> bool {
    0x30 <= b <= 0x39 || b == 0x2b || b == 0x2d || b == 0x2e || b == 0x3a || b == 0x54
}

/// Relies on chrono::DateTime::from_timestamp and
/// chrono::DateTime::to_rfc3339 for the wall-clock capture timestamp.
/// Nothing is assumed of the clock's value; chrono's write_rfc3339
/// emits only digits, `+`, `-`, `.`, `:` and `T`. A clock before the
/// epoch or beyond chrono's range yields the epoch timestamp rather
/// than a panic.
#[verifier::external_body]
pub fn now_rfc3339() -> (r: Vec<u8>)
    ensures
        forall|k: int| 0 <= k < r@.len() ==> rfc3339_byte(#[trigger] r@[k]),
{
    let stamp = match std::time::SystemTime::now().duration_since(std::time::UNIX_EPOCH) {
        Ok(d) => chrono::DateTime::from_timestamp(d.as_secs() as i64, d.subsec_nanos()),
        Err(_) => None,
    };
    stamp.unwrap_or(chrono::DateTime::UNIX_EPOCH).to_rfc3339().into_bytes()
}

/// The shared counter. Both links call `assign` under one mutual
/// exclusion region, so assignment order is a total order.
pub struct Sequencer {
    pub next_seq: u64,
}

impl Sequencer {
    pub fn new() -> (s: Self)
        ensures
            s.next_seq == 0,
    {
        Sequencer { next_seq: 0 }
    }

    /// Constructs the unit for one captured chunk: the current counter
    /// value becomes its sequence number, the clock is read for its
    /// timestamp, and the counter advances by exactly one. The text
    /// flag is decided here, once, from the raw bytes.
    pub fn assign(&mut self, payload: Vec<u8>, source_id: u32) -> (u: CapturedUnit)
        requires
            old(self).next_seq < u64::MAX,
        ensures
            final(self).next_seq == old(self).next_seq + 1,
            u.sequence == old(self).next_seq,
            u.source_id == source_id,
            u.payload@ == payload@,
            u.is_binary == !vstd::utf8::valid_utf8(payload@),
            forall|k: int| 0 <= k < u.captured_at@.len() ==> rfc3339_byte(#[trigger] u.captured_at@[k]),
    {
        let is_bin = !utf8_is_valid(payload.as_slice());
        let u = CapturedUnit {
            sequence: self.next_seq,
            captured_at: now_rfc3339(),
            source_id,
            is_binary: is_bin,
            payload,
        };
        self.next_seq = self.next_seq + 1;
        u
    }
}

/// The sequencer together with the merged event channel, as the single
/// consumer sees it: units enter the channel in exactly the order the
/// sequencer's critical section was entered.
pub struct Pipeline {
    pub sequencer: Sequencer,
    pub channel: Vec<CapturedUnit>,
}

impl Pipeline {
    /// The channel holds one unit per counter step, in assignment order.
    pub open spec fn wf(self) -> bool {
        &&& self.sequencer.next_seq == self.channel@.len()
        &&& forall|i: int|
            0 <= i < self.channel@.len() ==> (#[trigger] self.channel@[i]).sequence == i
    }

    pub fn new() -> (p: Self)
        ensures
            p.wf(),
            p.channel@.len() == 0,
    {
        Pipeline { sequencer: Sequencer::new(), channel: Vec::new() }
    }

    /// One critical section: assign the next sequence number to the
    /// chunk and publish the finished unit to the channel before the
    /// counter can serve anyone else.
    pub fn capture(&mut self, payload: Vec<u8>, source_id: u32)
        requires
            old(self).wf(),
            old(self).channel@.len() < u64::MAX,
        ensures
            final(self).wf(),
            final(self).channel@.len() == old(self).channel@.len() + 1,
            final(self).channel@ == old(self).channel@.push(final(self).channel@.last()),
            final(self).channel@.last().sequence == old(self).channel@.len(),
            final(self).channel@.last().source_id == source_id,
            final(self).channel@.last().payload@ == payload@,
            final(self).channel@.last().is_binary == !vstd::utf8::valid_utf8(payload@),
            forall|k: int|
                0 <= k < final(self).channel@.last().captured_at@.len() ==> rfc3339_byte(
                    #[trigger] final(self).channel@.last().captured_at@[k],
                ),
    {
        let u = self.sequencer.assign(payload, source_id);
        self.channel.push(u);
        proof {
            assert(self.channel@ =~= old(self).channel@.push(self.channel@.last()));
        }
    }
}

/// Law: across any interleaving of the two links, the sequence numbers
/// seen on the merged channel are exactly the enqueue positions —
/// strictly increasing, with no gaps and no repeats, and consistent
/// with the order in which the critical section was entered.
pub proof fn lemma_channel_sequences(p: Pipeline)
    requires
        p.wf(),
    ensures
        forall|i: int| 0 <= i < p.channel@.len() ==> (#[trigger] p.channel@[i]).sequence == i,
        forall|i: int, j: int|
            0 <= i < j < p.channel@.len() ==> p.channel@[i].sequence < p.channel@[j].sequence,
{
    assert forall|i: int, j: int| 0 <= i < j < p.channel@.len() implies p.channel@[i].sequence
        < p.channel@[j].sequence by {
        assert(p.channel@[i].sequence == i);
        assert(p.channel@[j].sequence == j);
    }
}

} // verus!
