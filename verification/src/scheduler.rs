//! The mutation scheduler.
//!
//! The scheduler owns a list of structural mutators and dispatches exactly
//! one of them per invocation, drawing the choice at random.  A mutator that
//! returns [`MutationResult::Skipped`] — common for structural mutators on
//! short sequences — is transparently absorbed: the scheduler retries with a
//! fresh random choice, so that a campaign step almost always produces one
//! real mutation.  Termination must be proved, so the retries are bounded;
//! when every attempt within the budget skips, the scheduler itself reports
//! `Skipped` and the sequence is unchanged.

use vstd::prelude::*;

use crate::input::{only_one_packet_changed, HasPackets};
use crate::mutators::crossover::{
    HasCrossoverInsertMutation, HasCrossoverReplaceMutation, PacketCrossoverInsertMutator,
    PacketCrossoverReplaceMutator,
};
use crate::mutators::delete::{is_delete, PacketDeleteMutator};
use crate::mutators::duplicate::{is_duplicate, PacketDuplicateMutator};
use crate::mutators::havoc::{HasHavocMutation, HavocMutations, PacketHavocMutator};
use crate::mutators::reorder::{is_reorder, PacketReorderMutator};
use crate::mutators::splice::{is_splice_merge, HasSpliceMutation, PacketSpliceMutator};
use crate::packet::{mutated, skipped, MutationError, MutationResult};
use crate::rng::MutatorState;

verus! {

/// How many times the scheduler redraws after a skip before giving up.
pub const SCHEDULER_RETRIES: usize = 128;

/// `new` is `old` rewritten by exactly one structural mutation: a swap of
/// two packets, the removal of one packet, the insertion of a copy of one
/// packet, the merge of an adjacent pair, or the in-place rewrite of a
/// single packet's payload (crossover or havoc).
pub open spec fn is_structural_mutation<T>(old: Seq<T>, new: Seq<T>) -> bool {
    ||| is_reorder(old, new)
    ||| is_delete(old, new)
    ||| is_duplicate(old, new)
    ||| is_splice_merge(old, new)
    ||| only_one_packet_changed(old, new)
}

/// One structural mutator, as an entry in the scheduler's list.
pub enum StructuralMutator<MT: HavocMutations> {
    /// Swap two random packets.
    Reorder(PacketReorderMutator),
    /// Delete a random packet.
    Delete(PacketDeleteMutator),
    /// Insert a copy of a random packet at a random position.
    Duplicate(PacketDuplicateMutator),
    /// Splice two adjacent random packets together.
    Splice(PacketSpliceMutator),
    /// Insert bytes of one random packet into another.
    CrossoverInsert(PacketCrossoverInsertMutator),
    /// Overwrite bytes of one random packet with bytes of another.
    CrossoverReplace(PacketCrossoverReplaceMutator),
    /// Havoc-mutate the payload of one random packet.
    Havoc(PacketHavocMutator<MT>),
}

impl<MT: HavocMutations> StructuralMutator<MT> {
    /// Run this mutator once.  Whatever the variant, a `Skipped` outcome
    /// leaves the sequence unchanged.
    pub fn mutate<I, P>(&mut self, state: &mut MutatorState, input: &mut I, stage_idx: i32) -> (r:
        Result<MutationResult, MutationError>) where
        I: HasPackets<P>,
        P: HasSpliceMutation + HasCrossoverInsertMutation + HasCrossoverReplaceMutation
            + HasHavocMutation<MT>,

        ensures
            skipped(r) ==> final(input).packets_view() == old(input).packets_view(),
            mutated(r) ==> is_structural_mutation(
                old(input).packets_view(),
                final(input).packets_view(),
            ),
            final(state).spec_max_size() == old(state).spec_max_size(),
    {
        match self {
            StructuralMutator::Reorder(m) => m.mutate(state, input, stage_idx),
            StructuralMutator::Delete(m) => m.mutate(state, input, stage_idx),
            StructuralMutator::Duplicate(m) => m.mutate(state, input, stage_idx),
            StructuralMutator::Splice(m) => m.mutate(state, input, stage_idx),
            StructuralMutator::CrossoverInsert(m) => m.mutate(state, input, stage_idx),
            StructuralMutator::CrossoverReplace(m) => m.mutate(state, input, stage_idx),
            StructuralMutator::Havoc(m) => m.mutate(state, input, stage_idx),
        }
    }
}

/// A mutation scheduler for the packet-aware mutators.
///
/// It schedules them in such a way that only one mutator in the list gets
/// executed per run, because the mutators may implement their own scheduling,
/// like the [`PacketHavocMutator`], which stacks havoc mutations on its own.
pub struct PacketMutationScheduler<MT: HavocMutations> {
    mutations: Vec<StructuralMutator<MT>>,
}

impl<MT: HavocMutations> PacketMutationScheduler<MT> {
    /// The number of mutators in the scheduler's list.
    pub closed spec fn spec_num_mutations(&self) -> nat {
        self.mutations@.len()
    }

    /// Create a new PacketMutationScheduler with a list of mutators.
    pub fn new(mutations: Vec<StructuralMutator<MT>>) -> (r: Self)
        ensures
            r.spec_num_mutations() == mutations@.len(),
    {
        PacketMutationScheduler { mutations }
    }

    /// The scheduler's list of mutators.
    pub fn mutations(&self) -> (r: &Vec<StructuralMutator<MT>>)
        ensures
            r@.len() == self.spec_num_mutations(),
    {
        &self.mutations
    }

    /// Dispatch one randomly chosen mutator; while the chosen mutator
    /// returns `Skipped`, redraw, up to [`SCHEDULER_RETRIES`] attempts.
    /// `Skipped` is reported only when every attempt skipped, and then the
    /// sequence is unchanged.
    pub fn scheduled_mutate<I, P>(
        &mut self,
        state: &mut MutatorState,
        input: &mut I,
        stage_idx: i32,
    ) -> (r: Result<MutationResult, MutationError>) where
        I: HasPackets<P>,
        P: HasSpliceMutation + HasCrossoverInsertMutation + HasCrossoverReplaceMutation
            + HasHavocMutation<MT>,

        requires
            old(self).spec_num_mutations() > 0,
        ensures
            skipped(r) ==> final(input).packets_view() == old(input).packets_view(),
            mutated(r) ==> is_structural_mutation(
                old(input).packets_view(),
                final(input).packets_view(),
            ),
            final(state).spec_max_size() == old(state).spec_max_size(),
            final(self).spec_num_mutations() == old(self).spec_num_mutations(),
    {
        let mut tries: usize = 0;
        while tries < SCHEDULER_RETRIES
            invariant
                self.spec_num_mutations() == old(self).spec_num_mutations() > 0,
                input.packets_view() == old(input).packets_view(),
                state.spec_max_size() == old(state).spec_max_size(),
            decreases SCHEDULER_RETRIES - tries,
        {
            let mutation = state.below(self.mutations.len());
            let res = self.mutations[mutation].mutate(state, input, stage_idx);
            match res {
                Ok(MutationResult::Skipped) => {
                    tries = tries + 1;
                },
                _ => {
                    return res;
                },
            }
        }
        Ok(MutationResult::Skipped)
    }

    /// Mutate `input` once: an alias for
    /// [`scheduled_mutate`](Self::scheduled_mutate), under the name the
    /// mutation stage calls.
    pub fn mutate<I, P>(&mut self, state: &mut MutatorState, input: &mut I, stage_idx: i32) -> (r:
        Result<MutationResult, MutationError>) where
        I: HasPackets<P>,
        P: HasSpliceMutation + HasCrossoverInsertMutation + HasCrossoverReplaceMutation
            + HasHavocMutation<MT>,

        requires
            old(self).spec_num_mutations() > 0,
        ensures
            skipped(r) ==> final(input).packets_view() == old(input).packets_view(),
            mutated(r) ==> is_structural_mutation(
                old(input).packets_view(),
                final(input).packets_view(),
            ),
            final(state).spec_max_size() == old(state).spec_max_size(),
            final(self).spec_num_mutations() == old(self).spec_num_mutations(),
    {
        self.scheduled_mutate(state, input, stage_idx)
    }
}

} // verus!
