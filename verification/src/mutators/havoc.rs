//! Per-packet havoc mutation.
//!
//! The havoc mutator applies a stack of byte-level primitive mutations to the
//! payload of exactly one packet, leaving all sibling packets intact.  The
//! primitive byte-buffer mutators themselves are outside the core: they are
//! consumed as an opaque, numerically indexed list through
//! [`HavocMutations`], which the surrounding harness supplies.

use vstd::prelude::*;

use crate::input::{only_one_packet_changed, packet_replaced_at, HasPackets};
use crate::packet::{mutated, skipped, BytesPacket, MutationError, MutationResult};
use crate::rng::MutatorState;

verus! {

/// A list of byte-buffer mutators, indexed numerically.
///
/// An implementation that reports [`MutationResult::Skipped`] must leave the
/// buffer unchanged; apart from that, what a mutator does to the bytes is its
/// own business.
pub trait HavocMutations {
    /// The number of mutators in the list, as specification; applying a
    /// mutator never changes it.  An implementation that leaves the default
    /// in place has an unspecified count.
    open spec fn spec_num_mutations(&self) -> int {
        arbitrary()
    }

    /// The number of mutators in the list.
    fn num_mutations(&self) -> (r: usize)
        ensures
            r == self.spec_num_mutations(),
    ;

    /// Apply the mutator with index `mutation` to `bytes`.  An out-of-range
    /// index is skipped.
    fn mutate_bytes(
        &mut self,
        state: &mut MutatorState,
        bytes: &mut Vec<u8>,
        mutation: usize,
        stage_idx: i32,
    ) -> (r: Result<MutationResult, MutationError>)
        ensures
            skipped(r) ==> final(bytes)@ == old(bytes)@,
            final(state).spec_max_size() == old(state).spec_max_size(),
            final(self).spec_num_mutations() == old(self).spec_num_mutations(),
    ;
}

/// The empty mutator list: it holds no mutators and every application is a
/// no-op that reports [`MutationResult::Skipped`].
pub struct NopHavocMutations {}

impl NopHavocMutations {
    /// Create the empty mutator list.
    pub fn new() -> Self {
        NopHavocMutations {}
    }
}

impl HavocMutations for NopHavocMutations {
    /// The empty list holds no mutators.
    open spec fn spec_num_mutations(&self) -> int {
        0
    }

    fn num_mutations(&self) -> (r: usize) {
        0
    }

    fn mutate_bytes(
        &mut self,
        _state: &mut MutatorState,
        bytes: &mut Vec<u8>,
        _mutation: usize,
        _stage_idx: i32,
    ) -> (r: Result<MutationResult, MutationError>)
        ensures
            skipped(r),
    {
        Ok(MutationResult::Skipped)
    }
}

/// Signifies that a packet type supports havoc mutation of its byte payload.
///
/// A packet type that carries no byte payload returns
/// [`MutationResult::Skipped`] and leaves itself unchanged.
pub trait HasHavocMutation<MT: HavocMutations>: DeepView + Sized {
    /// Perform a single havoc mutation on this packet: apply the mutator with
    /// index `mutation` from `mutations` to the packet's payload.
    fn mutate_havoc(
        &mut self,
        state: &mut MutatorState,
        mutations: &mut MT,
        mutation: usize,
        stage_idx: i32,
    ) -> (r: Result<MutationResult, MutationError>)
        ensures
            skipped(r) ==> final(self).deep_view() == old(self).deep_view(),
            final(state).spec_max_size() == old(state).spec_max_size(),
            final(mutations).spec_num_mutations() == old(mutations).spec_num_mutations(),
    ;
}

impl<MT: HavocMutations> HasHavocMutation<MT> for BytesPacket {
    /// Dispatch the chosen byte-buffer mutator against the packet's payload.
    fn mutate_havoc(
        &mut self,
        state: &mut MutatorState,
        mutations: &mut MT,
        mutation: usize,
        stage_idx: i32,
    ) -> (r: Result<MutationResult, MutationError>) {
        mutations.mutate_bytes(state, &mut self.bytes, mutation, stage_idx)
    }
}

/// A mutator that applies a stack of havoc mutations to a single packet.
///
/// It draws a number of iterations from `[0, 16)` and, for each iteration,
/// applies a randomly chosen mutator from its list to the payload of one
/// randomly chosen packet.  The overall outcome is
/// [`MutationResult::Mutated`] iff any iteration mutated.
pub struct PacketHavocMutator<MT: HavocMutations> {
    mutations: MT,
}

impl<MT: HavocMutations> PacketHavocMutator<MT> {
    /// The number of byte-buffer mutators in this mutator's list.
    pub closed spec fn spec_num_mutations(&self) -> int {
        self.mutations.spec_num_mutations()
    }

    /// Create a new PacketHavocMutator from a list of byte-buffer mutators.
    pub fn new(mutations: MT) -> (r: Self)
        ensures
            r.spec_num_mutations() == mutations.spec_num_mutations(),
    {
        PacketHavocMutator { mutations }
    }

    /// Havoc-mutate the payload of one random packet of `input`.  The number
    /// of packets is always preserved; only the chosen packet is touched; on
    /// `Skipped` (an empty sequence, an empty mutator list, or every
    /// iteration skipped) the sequence is unchanged.
    pub fn mutate<I: HasPackets<P>, P: HasHavocMutation<MT>>(
        &mut self,
        state: &mut MutatorState,
        input: &mut I,
        stage_idx: i32,
    ) -> (r: Result<MutationResult, MutationError>)
        ensures
            old(input).packets_view().len() == 0 ==> skipped(r),
            old(self).spec_num_mutations() == 0 ==> skipped(r),
            skipped(r) ==> final(input).packets_view() == old(input).packets_view(),
            mutated(r) ==> only_one_packet_changed(
                old(input).packets_view(),
                final(input).packets_view(),
            ),
            final(input).packets_view().len() == old(input).packets_view().len(),
            final(state).spec_max_size() == old(state).spec_max_size(),
            final(self).spec_num_mutations() == old(self).spec_num_mutations(),
    {
        let len = input.packets_len();
        if len == 0 {
            return Ok(MutationResult::Skipped);
        }

        let iters = state.below(16);
        let packet = state.below(len);
        let num = self.mutations.num_mutations();

        let mut target = input.remove_packet(packet);
        let ghost orig_target = target.deep_view();
        let mut result = MutationResult::Skipped;
        let mut failure: Option<MutationError> = None;
        let mut i: usize = 0;

        while i < iters && num > 0 && failure.is_none()
            invariant
                i <= iters,
                num as int == old(self).spec_num_mutations(),
                num == 0 ==> failure is None && result == MutationResult::Skipped,
                failure is None && result == MutationResult::Skipped ==> target.deep_view()
                    == orig_target,
                state.spec_max_size() == old(state).spec_max_size(),
                self.spec_num_mutations() == old(self).spec_num_mutations(),
            decreases iters - i,
        {
            let mutation = state.below(num);
            match target.mutate_havoc(state, &mut self.mutations, mutation, stage_idx) {
                Ok(MutationResult::Mutated) => {
                    result = MutationResult::Mutated;
                },
                Ok(MutationResult::Skipped) => {},
                Err(e) => {
                    failure = Some(e);
                },
            }
            i = i + 1;
        }

        input.insert_packet(packet, target);

        proof {
            let o = old(input).packets_view();
            let nv = input.packets_view();
            assert(nv =~= o.update(packet as int, nv[packet as int]));
            assert(packet_replaced_at(o, nv, packet as int));
            if failure is None && result == MutationResult::Skipped {
                assert(nv =~= o);
            }
            if old(self).spec_num_mutations() == 0 {
                assert(nv =~= o);
            }
        }

        match failure {
            Some(e) => Err(e),
            None => Ok(result),
        }
    }
}

} // verus!
