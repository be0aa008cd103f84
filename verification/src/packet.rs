//! The packet model.
//!
//! A fuzzing input is an ordered sequence of packets.  The canonical packet
//! type is [`BytesPacket`], a packet that carries a plain byte payload; its
//! abstract value (its deep view) is the sequence of bytes it holds.

use vstd::prelude::*;

use crate::mutators::crossover::{HasCrossoverInsertMutation, HasCrossoverReplaceMutation};
use crate::mutators::havoc::{HasHavocMutation, HavocMutations};
use crate::mutators::splice::HasSpliceMutation;
use crate::rng::MutatorState;

verus! {

/// The outcome of a mutation attempt.
///
/// `Skipped` means the mutator's precondition was not met and the target is
/// unchanged; `Mutated` means a change was applied.
#[derive(Clone, Copy, PartialEq, Eq, Debug, Structural)]
pub enum MutationResult {
    /// A change was applied.
    Mutated,
    /// The precondition was not met; nothing was changed.
    Skipped,
}

/// An error raised by a mutation capability.
///
/// The capabilities implemented in this crate never fail; the variant exists
/// for packet types whose capabilities can.
#[derive(Clone, Copy, PartialEq, Eq, Debug, Structural)]
pub enum MutationError {
    /// A packet implementation could not complete the requested mutation.
    Failed,
}

/// Spec shorthand: the attempt reported [`MutationResult::Skipped`].
pub open spec fn skipped(r: Result<MutationResult, MutationError>) -> bool {
    r == Ok::<MutationResult, MutationError>(MutationResult::Skipped)
}

/// Spec shorthand: the attempt reported [`MutationResult::Mutated`].
pub open spec fn mutated(r: Result<MutationResult, MutationError>) -> bool {
    r == Ok::<MutationResult, MutationError>(MutationResult::Mutated)
}

/// Append `src[start..end]` to `dst`.
pub(crate) fn copy_range(dst: &mut Vec<u8>, src: &Vec<u8>, start: usize, end: usize)
    requires
        start <= end <= src@.len(),
    ensures
        final(dst)@ == old(dst)@ + src@.subrange(start as int, end as int),
{
    let mut i: usize = start;
    while i < end
        invariant
            start <= i <= end <= src@.len(),
            dst@ == old(dst)@ + src@.subrange(start as int, i as int),
        decreases end - i,
    {
        proof {
            assert(src@.subrange(start as int, i + 1) =~= src@.subrange(
                start as int,
                i as int,
            ).push(src@[i as int]));
        }
        dst.push(src[i]);
        i = i + 1;
    }
    proof {
        assert(dst@ =~= old(dst)@ + src@.subrange(start as int, end as int));
    }
}

/// A packet that can be duplicated, preserving its abstract value.
///
/// Mutators that copy a packet (duplication, crossover) use this capability;
/// an implementation must return a packet with the same deep view.
pub trait ClonablePacket: DeepView + Sized {
    /// Return a copy of this packet with the same abstract value.
    fn clone_packet(&self) -> (r: Self)
        ensures
            r.deep_view() == self.deep_view(),
    ;
}

/// A packet that carries a plain byte payload.
#[derive(Debug)]
pub struct BytesPacket {
    pub(crate) bytes: Vec<u8>,
}

impl ClonablePacket for BytesPacket {
    fn clone_packet(&self) -> (r: Self)
        ensures
            r.deep_view() == self.deep_view(),
    {
        self.clone()
    }
}

impl DeepView for BytesPacket {
    type V = Seq<u8>;

    open(crate) spec fn deep_view(&self) -> Seq<u8> {
        self.bytes@
    }
}

impl Clone for BytesPacket {
    fn clone(&self) -> (r: Self)
        ensures
            r.deep_view() == self.deep_view(),
    {
        let bytes = self.bytes.clone();
        proof {
            assert(bytes@ =~= self.bytes@);
        }
        BytesPacket { bytes }
    }
}

impl BytesPacket {
    /// Create a packet holding the given bytes.
    pub fn new(bytes: Vec<u8>) -> (r: Self)
        ensures
            r.deep_view() == bytes@,
    {
        BytesPacket { bytes }
    }

    /// The packet's byte payload.
    pub fn bytes(&self) -> (r: &Vec<u8>)
        ensures
            r@ == self.deep_view(),
    {
        &self.bytes
    }

    /// The number of payload bytes.
    pub fn len(&self) -> (r: usize)
        ensures
            r == self.deep_view().len(),
    {
        self.bytes.len()
    }
}


/// The abstract value of a [`TaggedPacket`]: its kind, and the payload bytes
/// of the kinds that carry any.
pub ghost enum TaggedPacketView {
    /// A command with a byte payload.
    Command(Seq<u8>),
    /// A data block with a byte payload.
    Data(Seq<u8>),
    /// A bare control token without a payload.
    Control,
}

/// The two values are the same kind of packet.
pub open spec fn same_kind(a: TaggedPacketView, b: TaggedPacketView) -> bool {
    match (a, b) {
        (TaggedPacketView::Command(_), TaggedPacketView::Command(_)) => true,
        (TaggedPacketView::Data(_), TaggedPacketView::Data(_)) => true,
        (TaggedPacketView::Control, TaggedPacketView::Control) => true,
        _ => false,
    }
}

/// The payload bytes of a tagged packet; a control token has none.
pub open spec fn tagged_payload(v: TaggedPacketView) -> Seq<u8> {
    match v {
        TaggedPacketView::Command(b) => b,
        TaggedPacketView::Data(b) => b,
        TaggedPacketView::Control => Seq::empty(),
    }
}

/// The two packets are the same byte-carrying kind, so byte-level mutation
/// between them delegates to their payloads.
pub open spec fn delegates_bytes(a: TaggedPacketView, b: TaggedPacketView) -> bool {
    same_kind(a, b) && !(a is Control)
}

/// A packet with an explicit kind tag.
///
/// Byte-level mutation capabilities delegate to the payload only when this
/// packet and the other packet are the same kind and that kind carries
/// bytes; every other combination is skipped.  A packet's kind therefore
/// never changes under mutation: a command never becomes a data block.
#[derive(Debug)]
pub enum TaggedPacket {
    /// A command with a byte payload.
    Command(BytesPacket),
    /// A data block with a byte payload.
    Data(BytesPacket),
    /// A bare control token without a payload; invisible to byte-shape
    /// mutators.
    Control,
}

impl DeepView for TaggedPacket {
    type V = TaggedPacketView;

    open spec fn deep_view(&self) -> TaggedPacketView {
        match self {
            TaggedPacket::Command(p) => TaggedPacketView::Command(p.deep_view()),
            TaggedPacket::Data(p) => TaggedPacketView::Data(p.deep_view()),
            TaggedPacket::Control => TaggedPacketView::Control,
        }
    }
}

impl ClonablePacket for TaggedPacket {
    fn clone_packet(&self) -> (r: Self)
        ensures
            r.deep_view() == self.deep_view(),
    {
        match self {
            TaggedPacket::Command(p) => TaggedPacket::Command(p.clone()),
            TaggedPacket::Data(p) => TaggedPacket::Data(p.clone()),
            TaggedPacket::Control => TaggedPacket::Control,
        }
    }
}

impl HasCrossoverInsertMutation for TaggedPacket {
    /// A successful insert on tagged packets keeps the kind, happens only
    /// between equal byte-carrying kinds, and crossover-inserts the
    /// payloads.
    open spec fn inserted(
        pre: TaggedPacketView,
        other: TaggedPacketView,
        post: TaggedPacketView,
        max_size: int,
    ) -> bool {
        &&& same_kind(pre, post)
        &&& delegates_bytes(pre, other)
        &&& crate::mutators::crossover::is_crossover_insert(
            tagged_payload(pre),
            tagged_payload(other),
            tagged_payload(post),
            max_size,
        )
    }

    /// Delegate to the payload when both packets are the same byte-carrying
    /// kind; otherwise skip.  The packet's kind is preserved.
    fn mutate_crossover_insert(
        &mut self,
        state: &mut MutatorState,
        other: &Self,
        stage_idx: i32,
    ) -> (r: Result<MutationResult, MutationError>)
        ensures
            same_kind(final(self).deep_view(), old(self).deep_view()),
            r is Ok,
            skipped(r) <==> (!delegates_bytes(old(self).deep_view(), other.deep_view())
                || tagged_payload(old(self).deep_view()).len() == 0 || tagged_payload(
                other.deep_view(),
            ).len() == 0 || tagged_payload(old(self).deep_view()).len() >= old(
                state,
            ).spec_max_size()),
            mutated(r) ==> crate::mutators::crossover::is_crossover_insert(
                tagged_payload(old(self).deep_view()),
                tagged_payload(other.deep_view()),
                tagged_payload(final(self).deep_view()),
                old(state).spec_max_size() as int,
            ),
    {
        match (self, other) {
            (TaggedPacket::Command(data), TaggedPacket::Command(other_data)) => data
                .mutate_crossover_insert(state, other_data, stage_idx),
            (TaggedPacket::Data(data), TaggedPacket::Data(other_data)) => data
                .mutate_crossover_insert(state, other_data, stage_idx),
            _ => Ok(MutationResult::Skipped),
        }
    }
}

impl HasCrossoverReplaceMutation for TaggedPacket {
    /// A successful replace on tagged packets keeps the kind, happens only
    /// between equal byte-carrying kinds, and crossover-replaces the
    /// payloads; the payload length is preserved.
    open spec fn replaced(
        pre: TaggedPacketView,
        other: TaggedPacketView,
        post: TaggedPacketView,
    ) -> bool {
        &&& same_kind(pre, post)
        &&& delegates_bytes(pre, other)
        &&& crate::mutators::crossover::is_crossover_replace(
            tagged_payload(pre),
            tagged_payload(other),
            tagged_payload(post),
        )
        &&& tagged_payload(post).len() == tagged_payload(pre).len()
    }

    /// Delegate to the payload when both packets are the same byte-carrying
    /// kind; otherwise skip.  The packet's kind is preserved.
    fn mutate_crossover_replace(
        &mut self,
        state: &mut MutatorState,
        other: &Self,
        stage_idx: i32,
    ) -> (r: Result<MutationResult, MutationError>)
        ensures
            same_kind(final(self).deep_view(), old(self).deep_view()),
            r is Ok,
            skipped(r) <==> (!delegates_bytes(old(self).deep_view(), other.deep_view())
                || tagged_payload(old(self).deep_view()).len() == 0 || tagged_payload(
                other.deep_view(),
            ).len() == 0),
            mutated(r) ==> crate::mutators::crossover::is_crossover_replace(
                tagged_payload(old(self).deep_view()),
                tagged_payload(other.deep_view()),
                tagged_payload(final(self).deep_view()),
            ),
    {
        match (self, other) {
            (TaggedPacket::Command(data), TaggedPacket::Command(other_data)) => data
                .mutate_crossover_replace(state, other_data, stage_idx),
            (TaggedPacket::Data(data), TaggedPacket::Data(other_data)) => data
                .mutate_crossover_replace(state, other_data, stage_idx),
            _ => Ok(MutationResult::Skipped),
        }
    }
}

impl HasSpliceMutation for TaggedPacket {
    /// A successful splice of tagged packets keeps the kind, happens only
    /// between equal byte-carrying kinds, and splices the payloads.
    open spec fn spliced(
        pre: TaggedPacketView,
        other: TaggedPacketView,
        post: TaggedPacketView,
        max_size: int,
    ) -> bool {
        &&& same_kind(pre, post)
        &&& delegates_bytes(pre, other)
        &&& crate::mutators::splice::is_splice(
            tagged_payload(pre),
            tagged_payload(other),
            tagged_payload(post),
            max_size,
        )
    }

    /// Delegate to the payload when both packets are the same byte-carrying
    /// kind; otherwise skip.  The packet's kind is preserved, and the splice
    /// is owed whenever both payloads are nonempty and even the largest
    /// result fits the size bound.
    fn mutate_splice(
        &mut self,
        state: &mut MutatorState,
        other: &Self,
        stage_idx: i32,
    ) -> (r: Result<MutationResult, MutationError>)
        ensures
            same_kind(final(self).deep_view(), old(self).deep_view()),
            r is Ok,
            !delegates_bytes(old(self).deep_view(), other.deep_view()) ==> skipped(r),
            (delegates_bytes(old(self).deep_view(), other.deep_view()) && tagged_payload(
                old(self).deep_view(),
            ).len() > 0 && tagged_payload(other.deep_view()).len() > 0 && tagged_payload(
                old(self).deep_view(),
            ).len() - 1 + tagged_payload(other.deep_view()).len() <= old(state).spec_max_size())
                ==> mutated(r),
    {
        match (self, other) {
            (TaggedPacket::Command(data), TaggedPacket::Command(other_data)) => data.mutate_splice(
                state,
                other_data,
                stage_idx,
            ),
            (TaggedPacket::Data(data), TaggedPacket::Data(other_data)) => data.mutate_splice(
                state,
                other_data,
                stage_idx,
            ),
            _ => Ok(MutationResult::Skipped),
        }
    }
}

impl<MT: HavocMutations> HasHavocMutation<MT> for TaggedPacket {
    /// Havoc the payload of a byte-carrying packet; a control token has no
    /// payload and is skipped.  The packet's kind is preserved.
    fn mutate_havoc(
        &mut self,
        state: &mut MutatorState,
        mutations: &mut MT,
        mutation: usize,
        stage_idx: i32,
    ) -> (r: Result<MutationResult, MutationError>)
        ensures
            same_kind(final(self).deep_view(), old(self).deep_view()),
            old(self).deep_view() is Control ==> skipped(r),
    {
        match self {
            TaggedPacket::Command(data) => data.mutate_havoc(state, mutations, mutation, stage_idx),
            TaggedPacket::Data(data) => data.mutate_havoc(state, mutations, mutation, stage_idx),
            TaggedPacket::Control => Ok(MutationResult::Skipped),
        }
    }
}
} // verus!
