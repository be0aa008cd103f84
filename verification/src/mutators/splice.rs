//! Splicing mutations.
//!
//! At the packet level, a splice replaces a packet's suffix with another
//! packet's suffix.  At the sequence level, the splice mutator removes a
//! random packet's right neighbour and splices it onto that packet, so that
//! two adjacent packets merge into one.

use vstd::prelude::*;

use crate::input::HasPackets;
use crate::packet::{copy_range, mutated, skipped, BytesPacket, MutationError, MutationResult};
use crate::rng::MutatorState;

verus! {

/// One way a splice can rewrite a byte buffer: the suffix of `old` starting
/// at `to` is replaced by the suffix of `other` starting at `from`, without
/// the result exceeding `max_size` bytes.
pub open spec fn splice_applies(
    old: Seq<u8>,
    other: Seq<u8>,
    new: Seq<u8>,
    max_size: int,
    to: int,
    from: int,
) -> bool {
    &&& 0 <= to < old.len()
    &&& 0 <= from < other.len()
    &&& to + (other.len() - from) <= max_size
    &&& new == old.subrange(0, to) + other.subrange(from, other.len() as int)
}

/// `new` is the result of some splice of `other` onto `old`.
pub open spec fn is_splice(old: Seq<u8>, other: Seq<u8>, new: Seq<u8>, max_size: int) -> bool {
    exists|to: int, from: int| #[trigger] splice_applies(old, other, new, max_size, to, from)
}

/// Signifies that a packet type supports splicing mutations, where the
/// packet's suffix is replaced by another packet's suffix.
///
/// A packet type that carries no byte payload returns
/// [`MutationResult::Skipped`] and leaves itself unchanged.
pub trait HasSpliceMutation: DeepView + Sized {
    /// What a successful splice may do to this packet type's abstract
    /// value, given the other packet's value and the size bound.  An
    /// implementation that leaves the default in place promises nothing
    /// specific of it.
    open spec fn spliced(pre: Self::V, other: Self::V, post: Self::V, max_size: int) -> bool {
        arbitrary()
    }

    /// Perform one splicing mutation where `self` and `other` get spliced
    /// together at a random midpoint.
    fn mutate_splice(
        &mut self,
        state: &mut MutatorState,
        other: &Self,
        stage_idx: i32,
    ) -> (r: Result<MutationResult, MutationError>)
        ensures
            skipped(r) ==> final(self).deep_view() == old(self).deep_view(),
            mutated(r) ==> Self::spliced(
                old(self).deep_view(),
                other.deep_view(),
                final(self).deep_view(),
                old(state).spec_max_size() as int,
            ),
            final(state).spec_max_size() == old(state).spec_max_size(),
    ;
}

impl HasSpliceMutation for BytesPacket {
    /// A successful splice of byte packets replaces a suffix of the packet
    /// with a suffix of the other packet.
    open spec fn spliced(pre: Seq<u8>, other: Seq<u8>, post: Seq<u8>, max_size: int) -> bool {
        is_splice(pre, other, post, max_size)
    }

    /// The canonical bytes implementation: pick `to` and `from` at random;
    /// afterwards `self[0..to]` is unchanged and `self[to..]` equals
    /// `other[from..]`.  If either packet is empty, or the result would
    /// exceed the size bound, the mutation is skipped.
    fn mutate_splice(
        &mut self,
        state: &mut MutatorState,
        other: &Self,
        _stage_idx: i32,
    ) -> (r: Result<MutationResult, MutationError>)
        ensures
            r is Ok,
            old(self).deep_view().len() == 0 || other.deep_view().len() == 0 ==> skipped(r),
            old(self).deep_view().len() > 0 && other.deep_view().len() > 0 && old(
                self,
            ).deep_view().len() - 1 + other.deep_view().len() <= old(state).spec_max_size()
                ==> mutated(r),
            skipped(r) ==> final(self).deep_view() == old(self).deep_view(),
            mutated(r) ==> is_splice(
                old(self).deep_view(),
                other.deep_view(),
                final(self).deep_view(),
                old(state).spec_max_size() as int,
            ),
    {
        let n = self.bytes.len();
        let m = other.bytes.len();
        let max_size = state.max_size();

        if n == 0 || m == 0 {
            return Ok(MutationResult::Skipped);
        }

        let to = state.below(n);
        let from = state.below(m);
        let tail = m - from;

        if tail > max_size || to > max_size - tail {
            return Ok(MutationResult::Skipped);
        }

        let mut out: Vec<u8> = Vec::new();
        copy_range(&mut out, &self.bytes, 0, to);
        copy_range(&mut out, &other.bytes, from, m);
        self.bytes = out;

        proof {
            let o = old(self).deep_view();
            let ov = other.deep_view();
            assert(self.deep_view() =~= o.subrange(0, to as int) + ov.subrange(
                from as int,
                ov.len() as int,
            ));
            assert(splice_applies(
                o,
                ov,
                self.deep_view(),
                old(state).spec_max_size() as int,
                to as int,
                from as int,
            ));
        }
        Ok(MutationResult::Mutated)
    }
}

/// One way the splice mutator can rewrite a packet sequence: the packet after
/// position `i` is removed and the packet at `i` is replaced by the splice of
/// the two; every other packet is kept in order.
pub open spec fn splice_merge_applies<T>(old: Seq<T>, new: Seq<T>, i: int) -> bool {
    &&& 0 <= i < old.len() - 1
    &&& new.len() == old.len() - 1
    &&& new == old.remove(i + 1).update(i, new[i])
}

/// `new` is `old` with some adjacent pair merged into a single packet.
pub open spec fn is_splice_merge<T>(old: Seq<T>, new: Seq<T>) -> bool {
    exists|i: int| #[trigger] splice_merge_applies(old, new, i)
}

/// A mutator that splices two adjacent random packets together.
///
/// It respects a lower bound on the number of packets, passed as an argument
/// to the constructor.  When the chosen packet skips the splice, the removed
/// neighbour is re-inserted, so a skip leaves the sequence unchanged.
pub struct PacketSpliceMutator {
    min_packets: usize,
}

impl PacketSpliceMutator {
    /// The lower bound on the number of packets, always at least 1.
    pub closed spec fn spec_min_packets(&self) -> usize {
        self.min_packets
    }

    /// The constructor promotes the lower bound to at least 1.
    #[verifier::type_invariant]
    spec fn min_at_least_one(self) -> bool {
        self.min_packets >= 1
    }

    /// Create a new PacketSpliceMutator with a lower bound for the number of
    /// packets.  A bound of 0 is promoted to 1.
    pub fn new(min_packets: usize) -> (r: Self)
        ensures
            r.spec_min_packets() == if min_packets < 1 {
                1usize
            } else {
                min_packets
            },
    {
        PacketSpliceMutator {
            min_packets: if min_packets < 1 {
                1
            } else {
                min_packets
            },
        }
    }

    /// Splice a random packet's right neighbour onto it.  The mutation is
    /// skipped when the sequence does not hold more packets than the lower
    /// bound, or when the chosen packet skips the splice; a skip leaves the
    /// sequence unchanged.  On success the number of packets decreases by
    /// exactly one.
    pub fn mutate<I: HasPackets<P>, P: HasSpliceMutation>(
        &mut self,
        state: &mut MutatorState,
        input: &mut I,
        stage_idx: i32,
    ) -> (r: Result<MutationResult, MutationError>)
        ensures
            old(input).packets_view().len() <= old(self).spec_min_packets() ==> skipped(r),
            skipped(r) ==> final(input).packets_view() == old(input).packets_view(),
            mutated(r) ==> is_splice_merge(old(input).packets_view(), final(input).packets_view()),
            mutated(r) ==> exists|i: int|
                #[trigger] splice_merge_applies(
                    old(input).packets_view(),
                    final(input).packets_view(),
                    i,
                ) && P::spliced(
                    old(input).packets_view()[i],
                    old(input).packets_view()[i + 1],
                    final(input).packets_view()[i],
                    old(state).spec_max_size() as int,
                ),
            mutated(r) || r is Err ==> final(input).packets_view().len() == old(
                input,
            ).packets_view().len() - 1,
            final(state).spec_max_size() == old(state).spec_max_size(),
            final(self).spec_min_packets() == old(self).spec_min_packets(),
    {
        proof {
            use_type_invariant(&*self);
        }
        let len = input.packets_len();
        if len <= self.min_packets {
            return Ok(MutationResult::Skipped);
        }

        let idx = state.below(len - 1);
        let other = input.remove_packet(idx + 1);
        let mut target = input.remove_packet(idx);

        let res = target.mutate_splice(state, &other, stage_idx);
        input.insert_packet(idx, target);

        match res {
            Ok(MutationResult::Skipped) => {
                input.insert_packet(idx + 1, other);
                proof {
                    assert(input.packets_view() =~= old(input).packets_view());
                }
                Ok(MutationResult::Skipped)
            },
            Ok(MutationResult::Mutated) => {
                proof {
                    let o = old(input).packets_view();
                    let nv = input.packets_view();
                    assert(nv =~= o.remove(idx + 1).update(idx as int, nv[idx as int]));
                    assert(splice_merge_applies(o, nv, idx as int));
                    assert(P::spliced(
                        o[idx as int],
                        o[idx + 1],
                        nv[idx as int],
                        old(state).spec_max_size() as int,
                    ));
                }
                Ok(MutationResult::Mutated)
            },
            Err(e) => Err(e),
        }
    }
}

} // verus!
