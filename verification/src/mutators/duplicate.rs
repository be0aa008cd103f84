//! A mutator that duplicates a single, random packet.

use vstd::prelude::*;

use crate::input::HasPackets;
use crate::packet::{mutated, skipped, MutationError, MutationResult};
use crate::rng::MutatorState;

verus! {

/// One way a duplication can rewrite a packet sequence: a copy of the packet
/// at `from` is inserted at a different position `to`.
pub open spec fn duplicate_applies<T>(old: Seq<T>, new: Seq<T>, from: int, to: int) -> bool {
    &&& 0 <= from < old.len()
    &&& 0 <= to <= old.len()
    &&& from != to
    &&& new == old.insert(to, old[from])
}

/// `new` is `old` with a copy of some packet inserted elsewhere.
pub open spec fn is_duplicate<T>(old: Seq<T>, new: Seq<T>) -> bool {
    exists|from: int, to: int| #[trigger] duplicate_applies(old, new, from, to)
}

/// A mutator that duplicates a single, random packet.
///
/// It respects an upper bound on the number of packets, passed as an argument
/// to the constructor: a sequence at or above the bound is left unchanged.
pub struct PacketDuplicateMutator {
    max_packets: usize,
}

impl PacketDuplicateMutator {
    /// The upper bound on the number of packets.
    pub closed spec fn spec_max_packets(&self) -> usize {
        self.max_packets
    }

    /// Create a new PacketDuplicateMutator with an upper bound on the number
    /// of packets.
    pub fn new(max_packets: usize) -> (r: Self)
        ensures
            r.spec_max_packets() == max_packets,
    {
        PacketDuplicateMutator { max_packets }
    }

    /// Insert a copy of a random packet of `input` at a random position.  The
    /// mutation is skipped when the sequence already holds `max_packets`
    /// packets or more, when it is empty, and when the two drawn positions
    /// coincide; otherwise the number of packets grows by exactly one.
    pub fn mutate<I: HasPackets<P>, P: DeepView>(
        &mut self,
        state: &mut MutatorState,
        input: &mut I,
        _stage_idx: i32,
    ) -> (r: Result<MutationResult, MutationError>)
        ensures
            r is Ok,
            old(input).packets_view().len() >= old(self).spec_max_packets() ==> skipped(r),
            old(input).packets_view().len() == 0 ==> skipped(r),
            skipped(r) ==> final(input).packets_view() == old(input).packets_view(),
            mutated(r) ==> is_duplicate(old(input).packets_view(), final(input).packets_view()),
            mutated(r) ==> final(input).packets_view().len() == old(
                input,
            ).packets_view().len() + 1,
            final(state).spec_max_size() == old(state).spec_max_size(),
            final(self).spec_max_packets() == old(self).spec_max_packets(),
    {
        let len = input.packets_len();
        if len >= self.max_packets || len == 0 {
            return Ok(MutationResult::Skipped);
        }

        let from = state.below(len);
        let to = state.below(len + 1);

        if from == to {
            return Ok(MutationResult::Skipped);
        }

        let copy = input.clone_packet_at(from);
        input.insert_packet(to, copy);

        proof {
            assert(duplicate_applies(
                old(input).packets_view(),
                input.packets_view(),
                from as int,
                to as int,
            ));
        }
        Ok(MutationResult::Mutated)
    }
}

} // verus!
