//! A mutator that deletes a single, random packet.

use vstd::prelude::*;

use crate::input::HasPackets;
use crate::packet::{mutated, skipped, MutationError, MutationResult};
use crate::rng::MutatorState;

verus! {

/// `new` is `old` with the packet at some position removed.
pub open spec fn is_delete<T>(old: Seq<T>, new: Seq<T>) -> bool {
    exists|i: int| 0 <= i < old.len() && new == #[trigger] old.remove(i)
}

/// A mutator that deletes a single, random packet.
///
/// It respects a lower bound on the number of packets, passed as an argument
/// to the constructor: a sequence at or below the bound is left unchanged.
pub struct PacketDeleteMutator {
    min_packets: usize,
}

impl PacketDeleteMutator {
    /// The lower bound on the number of packets, always at least 1.
    pub closed spec fn spec_min_packets(&self) -> usize {
        self.min_packets
    }

    /// Create a new PacketDeleteMutator with a lower bound on the number of
    /// packets.  A bound of 0 is promoted to 1, so that the mutator never
    /// empties a sequence.
    pub fn new(min_packets: usize) -> (r: Self)
        ensures
            r.spec_min_packets() == if min_packets < 1 {
                1usize
            } else {
                min_packets
            },
    {
        PacketDeleteMutator {
            min_packets: if min_packets < 1 {
                1
            } else {
                min_packets
            },
        }
    }

    /// Remove a random packet of `input`.  The mutation is skipped exactly
    /// when the sequence does not hold more packets than the lower bound;
    /// otherwise the number of packets decreases by exactly one.
    pub fn mutate<I: HasPackets<P>, P: DeepView>(
        &mut self,
        state: &mut MutatorState,
        input: &mut I,
        _stage_idx: i32,
    ) -> (r: Result<MutationResult, MutationError>)
        ensures
            r is Ok,
            skipped(r) <==> old(input).packets_view().len() <= old(self).spec_min_packets(),
            skipped(r) ==> final(input).packets_view() == old(input).packets_view(),
            mutated(r) ==> is_delete(old(input).packets_view(), final(input).packets_view()),
            mutated(r) ==> final(input).packets_view().len() == old(
                input,
            ).packets_view().len() - 1,
            final(state).spec_max_size() == old(state).spec_max_size(),
            final(self).spec_min_packets() == old(self).spec_min_packets(),
    {
        let len = input.packets_len();
        if len <= self.min_packets {
            return Ok(MutationResult::Skipped);
        }

        let idx = state.below(len);
        let _removed = input.remove_packet(idx);

        proof {
            assert(input.packets_view() == old(input).packets_view().remove(idx as int));
        }
        Ok(MutationResult::Mutated)
    }
}

} // verus!
