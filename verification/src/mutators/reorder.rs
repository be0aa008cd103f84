//! A mutator that swaps two random packets.

use vstd::prelude::*;

use crate::input::HasPackets;
use crate::packet::{mutated, skipped, MutationError, MutationResult};
use crate::rng::MutatorState;

verus! {

/// One way a reorder can rewrite a packet sequence: the packets at two
/// distinct positions `i` and `j` trade places.
pub open spec fn reorder_applies<T>(old: Seq<T>, new: Seq<T>, i: int, j: int) -> bool {
    &&& 0 <= i < old.len()
    &&& 0 <= j < old.len()
    &&& i != j
    &&& new == old.update(i, old[j]).update(j, old[i])
}

/// `new` is `old` with some two distinct packets swapped.
pub open spec fn is_reorder<T>(old: Seq<T>, new: Seq<T>) -> bool {
    exists|i: int, j: int| #[trigger] reorder_applies(old, new, i, j)
}

/// A mutator that swaps two random packets.
///
/// With fewer than two packets, or when the two drawn positions coincide, the
/// mutation is skipped and the sequence is unchanged.
pub struct PacketReorderMutator {}

impl PacketReorderMutator {
    /// Create a new PacketReorderMutator.
    pub fn new() -> Self {
        PacketReorderMutator {}
    }

    /// Swap two random packets of `input`.  The number of packets is always
    /// preserved; on `Skipped` the sequence is unchanged.
    pub fn mutate<I: HasPackets<P>, P: DeepView>(
        &mut self,
        state: &mut MutatorState,
        input: &mut I,
        _stage_idx: i32,
    ) -> (r: Result<MutationResult, MutationError>)
        ensures
            r is Ok,
            old(input).packets_view().len() <= 1 ==> skipped(r),
            skipped(r) ==> final(input).packets_view() == old(input).packets_view(),
            mutated(r) ==> is_reorder(old(input).packets_view(), final(input).packets_view()),
            final(input).packets_view().len() == old(input).packets_view().len(),
            final(state).spec_max_size() == old(state).spec_max_size(),
    {
        let len = input.packets_len();
        if len <= 1 {
            return Ok(MutationResult::Skipped);
        }

        let from = state.below(len);
        let to = state.below(len);

        if from == to {
            return Ok(MutationResult::Skipped);
        }

        input.swap_packets(from, to);

        proof {
            assert(reorder_applies(
                old(input).packets_view(),
                input.packets_view(),
                from as int,
                to as int,
            ));
        }
        Ok(MutationResult::Mutated)
    }
}

} // verus!
