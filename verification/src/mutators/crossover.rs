//! Crossover mutations between two packets.
//!
//! `CrossoverInsert` copies a contiguous slice of another packet's bytes into
//! a packet at a random position, growing it; `CrossoverReplace` overwrites a
//! slice of a packet's bytes with a slice of another packet's bytes without
//! growing it.

use vstd::prelude::*;

use crate::input::{only_one_packet_changed, packet_replaced_at, HasPackets};
use crate::packet::{copy_range, mutated, skipped, BytesPacket, MutationError, MutationResult};
use crate::rng::MutatorState;

verus! {

/// One way a crossover insert can rewrite a byte buffer: `len` bytes of
/// `other` starting at `from` are inserted into `old` at position `to`,
/// growing it, without exceeding `max_size` bytes.
pub open spec fn crossover_insert_applies(
    old: Seq<u8>,
    other: Seq<u8>,
    new: Seq<u8>,
    max_size: int,
    from: int,
    to: int,
    len: int,
) -> bool {
    &&& 0 <= from < other.len()
    &&& 0 <= to < old.len()
    &&& 1 <= len <= other.len() - from
    &&& old.len() + len <= max_size
    &&& new == old.subrange(0, to) + other.subrange(from, from + len) + old.subrange(
        to,
        old.len() as int,
    )
}

/// `new` is the result of some crossover insert of `other` into `old`.
pub open spec fn is_crossover_insert(old: Seq<u8>, other: Seq<u8>, new: Seq<u8>, max_size: int) -> bool {
    exists|from: int, to: int, len: int|
        #[trigger] crossover_insert_applies(old, other, new, max_size, from, to, len)
}

/// One way a crossover replace can rewrite a byte buffer: `len` bytes of
/// `other` starting at `from` overwrite `old` at position `to`; the length is
/// preserved.
pub open spec fn crossover_replace_applies(
    old: Seq<u8>,
    other: Seq<u8>,
    new: Seq<u8>,
    from: int,
    to: int,
    len: int,
) -> bool {
    &&& 0 <= from < other.len()
    &&& 0 <= to < old.len()
    &&& 1 <= len <= other.len() - from
    &&& len <= old.len() - to
    &&& new == old.subrange(0, to) + other.subrange(from, from + len) + old.subrange(
        to + len,
        old.len() as int,
    )
}

/// `new` is the result of some crossover replace of `other` into `old`.
pub open spec fn is_crossover_replace(old: Seq<u8>, other: Seq<u8>, new: Seq<u8>) -> bool {
    exists|from: int, to: int, len: int|
        #[trigger] crossover_replace_applies(old, other, new, from, to, len)
}

/// Signifies that a packet type supports crossover mutations where bytes from
/// another packet are inserted into this one, growing it.
///
/// A packet type that carries no byte payload (or whose payload cannot accept
/// the other packet's bytes) returns [`MutationResult::Skipped`] and leaves
/// itself unchanged.
pub trait HasCrossoverInsertMutation: DeepView + Sized {
    /// What a successful crossover insert may do to this packet type's
    /// abstract value, given the other packet's value and the size bound.
    /// An implementation that leaves the default in place promises nothing
    /// specific of it.
    open spec fn inserted(pre: Self::V, other: Self::V, post: Self::V, max_size: int) -> bool {
        arbitrary()
    }

    /// Perform one crossover mutation where bytes from `other` are inserted
    /// into `self`.
    fn mutate_crossover_insert(
        &mut self,
        state: &mut MutatorState,
        other: &Self,
        stage_idx: i32,
    ) -> (r: Result<MutationResult, MutationError>)
        ensures
            skipped(r) ==> final(self).deep_view() == old(self).deep_view(),
            mutated(r) ==> Self::inserted(
                old(self).deep_view(),
                other.deep_view(),
                final(self).deep_view(),
                old(state).spec_max_size() as int,
            ),
            final(state).spec_max_size() == old(state).spec_max_size(),
    ;
}

/// Signifies that a packet type supports crossover mutations where bytes of
/// this packet are overwritten by bytes from another packet.
///
/// A packet type that carries no byte payload returns
/// [`MutationResult::Skipped`] and leaves itself unchanged.
pub trait HasCrossoverReplaceMutation: DeepView + Sized {
    /// What a successful crossover replace may do to this packet type's
    /// abstract value, given the other packet's value; a replace never
    /// grows the packet.  An implementation that leaves the default in
    /// place promises nothing specific of it.
    open spec fn replaced(pre: Self::V, other: Self::V, post: Self::V) -> bool {
        arbitrary()
    }

    /// Perform one crossover mutation where bytes in `self` are replaced by
    /// bytes from `other`.
    fn mutate_crossover_replace(
        &mut self,
        state: &mut MutatorState,
        other: &Self,
        stage_idx: i32,
    ) -> (r: Result<MutationResult, MutationError>)
        ensures
            skipped(r) ==> final(self).deep_view() == old(self).deep_view(),
            mutated(r) ==> Self::replaced(
                old(self).deep_view(),
                other.deep_view(),
                final(self).deep_view(),
            ),
            final(state).spec_max_size() == old(state).spec_max_size(),
    ;
}

impl HasCrossoverInsertMutation for BytesPacket {
    /// A successful insert on byte packets is a crossover insert of the
    /// byte sequences.
    open spec fn inserted(pre: Seq<u8>, other: Seq<u8>, post: Seq<u8>, max_size: int) -> bool {
        is_crossover_insert(pre, other, post, max_size)
    }

    /// The canonical bytes implementation: pick `from`, `to` and `len` at
    /// random, then insert `other[from..from + len]` into `self` at `to`.
    /// The chosen `len` is clipped so that the packet does not grow beyond
    /// the size bound; if either packet is empty, or the packet cannot grow
    /// at all, the mutation is skipped.
    fn mutate_crossover_insert(
        &mut self,
        state: &mut MutatorState,
        other: &Self,
        _stage_idx: i32,
    ) -> (r: Result<MutationResult, MutationError>)
        ensures
            r is Ok,
            skipped(r) <==> (old(self).deep_view().len() == 0 || other.deep_view().len() == 0
                || old(self).deep_view().len() >= old(state).spec_max_size()),
            skipped(r) ==> final(self).deep_view() == old(self).deep_view(),
            mutated(r) ==> is_crossover_insert(
                old(self).deep_view(),
                other.deep_view(),
                final(self).deep_view(),
                old(state).spec_max_size() as int,
            ),
    {
        let n = self.bytes.len();
        let m = other.bytes.len();
        let max_size = state.max_size();

        if n == 0 || m == 0 || n >= max_size {
            return Ok(MutationResult::Skipped);
        }

        let from = state.below(m);
        let to = state.below(n);
        let raw_len = state.below(m - from) + 1;
        let room = max_size - n;
        let len = if raw_len <= room {
            raw_len
        } else {
            room
        };

        let mut out: Vec<u8> = Vec::new();
        copy_range(&mut out, &self.bytes, 0, to);
        copy_range(&mut out, &other.bytes, from, from + len);
        copy_range(&mut out, &self.bytes, to, n);
        self.bytes = out;

        proof {
            let o = old(self).deep_view();
            let ov = other.deep_view();
            assert(self.deep_view() =~= o.subrange(0, to as int) + ov.subrange(
                from as int,
                from + len,
            ) + o.subrange(to as int, o.len() as int));
            assert(crossover_insert_applies(
                o,
                ov,
                self.deep_view(),
                old(state).spec_max_size() as int,
                from as int,
                to as int,
                len as int,
            ));
        }
        Ok(MutationResult::Mutated)
    }
}

impl HasCrossoverReplaceMutation for BytesPacket {
    /// A successful replace on byte packets is a crossover replace of the
    /// byte sequences; the length is preserved.
    open spec fn replaced(pre: Seq<u8>, other: Seq<u8>, post: Seq<u8>) -> bool {
        is_crossover_replace(pre, other, post) && post.len() == pre.len()
    }

    /// The canonical bytes implementation: pick `from`, `to` and `len` at
    /// random and overwrite `self[to..to + len]` with `other[from..from +
    /// len]`; the packet's length is preserved.  If either packet is empty,
    /// the mutation is skipped.
    fn mutate_crossover_replace(
        &mut self,
        state: &mut MutatorState,
        other: &Self,
        _stage_idx: i32,
    ) -> (r: Result<MutationResult, MutationError>)
        ensures
            r is Ok,
            skipped(r) <==> (old(self).deep_view().len() == 0 || other.deep_view().len() == 0),
            skipped(r) ==> final(self).deep_view() == old(self).deep_view(),
            mutated(r) ==> is_crossover_replace(
                old(self).deep_view(),
                other.deep_view(),
                final(self).deep_view(),
            ),
            mutated(r) ==> final(self).deep_view().len() == old(self).deep_view().len(),
    {
        let n = self.bytes.len();
        let m = other.bytes.len();

        if n == 0 || m == 0 {
            return Ok(MutationResult::Skipped);
        }

        let from = state.below(m);
        let to = state.below(n);
        let bound = if m - from <= n - to {
            m - from
        } else {
            n - to
        };
        let len = state.below(bound) + 1;

        let mut out: Vec<u8> = Vec::new();
        copy_range(&mut out, &self.bytes, 0, to);
        copy_range(&mut out, &other.bytes, from, from + len);
        copy_range(&mut out, &self.bytes, to + len, n);
        self.bytes = out;

        proof {
            let o = old(self).deep_view();
            let ov = other.deep_view();
            assert(self.deep_view() =~= o.subrange(0, to as int) + ov.subrange(
                from as int,
                from + len,
            ) + o.subrange(to + len, o.len() as int));
            assert(crossover_replace_applies(
                o,
                ov,
                self.deep_view(),
                from as int,
                to as int,
                len as int,
            ));
        }
        Ok(MutationResult::Mutated)
    }
}

/// One way the crossover-insert mutator can rewrite a packet sequence: only
/// the packet at `p` is rewritten, by a crossover insert taking bytes from
/// the distinct packet at `q`.
pub open spec fn crossover_inserted_at<P: HasCrossoverInsertMutation>(
    old: Seq<P::V>,
    new: Seq<P::V>,
    p: int,
    q: int,
    max_size: int,
) -> bool {
    &&& 0 <= q < old.len()
    &&& p != q
    &&& packet_replaced_at(old, new, p)
    &&& P::inserted(old[p], old[q], new[p], max_size)
}

/// One way the crossover-replace mutator can rewrite a packet sequence:
/// only the packet at `p` is rewritten, by a crossover replace taking bytes
/// from the distinct packet at `q`.
pub open spec fn crossover_replaced_at<P: HasCrossoverReplaceMutation>(
    old: Seq<P::V>,
    new: Seq<P::V>,
    p: int,
    q: int,
) -> bool {
    &&& 0 <= q < old.len()
    &&& p != q
    &&& packet_replaced_at(old, new, p)
    &&& P::replaced(old[p], old[q], new[p])
}

/// A mutator that picks two distinct random packets and inserts bytes of the
/// second into the first, leaving every other packet intact.
pub struct PacketCrossoverInsertMutator {}

impl PacketCrossoverInsertMutator {
    /// Create a new PacketCrossoverInsertMutator.
    pub fn new() -> Self {
        PacketCrossoverInsertMutator {}
    }

    /// Crossover-insert between two random packets of `input`.  The number of
    /// packets is always preserved; at most one packet is rewritten; on
    /// `Skipped` the sequence is unchanged.
    pub fn mutate<I: HasPackets<P>, P: HasCrossoverInsertMutation>(
        &mut self,
        state: &mut MutatorState,
        input: &mut I,
        stage_idx: i32,
    ) -> (r: Result<MutationResult, MutationError>)
        ensures
            old(input).packets_view().len() <= 1 ==> skipped(r),
            skipped(r) ==> final(input).packets_view() == old(input).packets_view(),
            mutated(r) ==> only_one_packet_changed(
                old(input).packets_view(),
                final(input).packets_view(),
            ),
            mutated(r) ==> exists|p: int, q: int|
                #[trigger] crossover_inserted_at::<P>(
                    old(input).packets_view(),
                    final(input).packets_view(),
                    p,
                    q,
                    old(state).spec_max_size() as int,
                ),
            final(input).packets_view().len() == old(input).packets_view().len(),
            final(state).spec_max_size() == old(state).spec_max_size(),
    {
        let len = input.packets_len();
        if len <= 1 {
            return Ok(MutationResult::Skipped);
        }

        let packet = state.below(len);
        let other_idx = state.below(len);

        if packet == other_idx {
            return Ok(MutationResult::Skipped);
        }

        let other = input.clone_packet_at(other_idx);
        let mut target = input.remove_packet(packet);
        let res = target.mutate_crossover_insert(state, &other, stage_idx);
        input.insert_packet(packet, target);

        proof {
            let o = old(input).packets_view();
            let nv = input.packets_view();
            assert(nv =~= o.update(packet as int, nv[packet as int]));
            assert(packet_replaced_at(o, nv, packet as int));
            if skipped(res) {
                assert(nv =~= o);
            }
            if mutated(res) {
                assert(crossover_inserted_at::<P>(
                    o,
                    nv,
                    packet as int,
                    other_idx as int,
                    old(state).spec_max_size() as int,
                ));
            }
        }
        res
    }
}

/// A mutator that picks two distinct random packets and overwrites bytes of
/// the first with bytes of the second, leaving every other packet intact.
pub struct PacketCrossoverReplaceMutator {}

impl PacketCrossoverReplaceMutator {
    /// Create a new PacketCrossoverReplaceMutator.
    pub fn new() -> Self {
        PacketCrossoverReplaceMutator {}
    }

    /// Crossover-replace between two random packets of `input`.  The number
    /// of packets is always preserved; at most one packet is rewritten; on
    /// `Skipped` the sequence is unchanged.
    pub fn mutate<I: HasPackets<P>, P: HasCrossoverReplaceMutation>(
        &mut self,
        state: &mut MutatorState,
        input: &mut I,
        stage_idx: i32,
    ) -> (r: Result<MutationResult, MutationError>)
        ensures
            old(input).packets_view().len() <= 1 ==> skipped(r),
            skipped(r) ==> final(input).packets_view() == old(input).packets_view(),
            mutated(r) ==> only_one_packet_changed(
                old(input).packets_view(),
                final(input).packets_view(),
            ),
            mutated(r) ==> exists|p: int, q: int|
                #[trigger] crossover_replaced_at::<P>(
                    old(input).packets_view(),
                    final(input).packets_view(),
                    p,
                    q,
                ),
            final(input).packets_view().len() == old(input).packets_view().len(),
            final(state).spec_max_size() == old(state).spec_max_size(),
    {
        let len = input.packets_len();
        if len <= 1 {
            return Ok(MutationResult::Skipped);
        }

        let packet = state.below(len);
        let other_idx = state.below(len);

        if packet == other_idx {
            return Ok(MutationResult::Skipped);
        }

        let other = input.clone_packet_at(other_idx);
        let mut target = input.remove_packet(packet);
        let res = target.mutate_crossover_replace(state, &other, stage_idx);
        input.insert_packet(packet, target);

        proof {
            let o = old(input).packets_view();
            let nv = input.packets_view();
            assert(nv =~= o.update(packet as int, nv[packet as int]));
            assert(packet_replaced_at(o, nv, packet as int));
            if skipped(res) {
                assert(nv =~= o);
            }
            if mutated(res) {
                assert(crossover_replaced_at::<P>(o, nv, packet as int, other_idx as int));
            }
        }
        res
    }
}

} // verus!
