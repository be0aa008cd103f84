//! The packet-sequence contract.
//!
//! An input is an ordered, mutable sequence of packets.  [`HasPackets`] is
//! what the structural mutators demand of an input: a length, removal and
//! insertion at an index, swapping, and duplicating a packet.  The abstract
//! value of a sequence is the sequence of its packets' deep views; packet
//! order is semantically significant.

use vstd::prelude::*;

use crate::packet::ClonablePacket;

verus! {

/// `new` is `old` with only the packet at position `i` rewritten: every other
/// packet is untouched and the number of packets is preserved.
pub open spec fn packet_replaced_at<T>(old: Seq<T>, new: Seq<T>, i: int) -> bool {
    &&& 0 <= i < old.len()
    &&& new == old.update(i, new[i])
}

/// `new` is `old` with at most one packet rewritten in place.
pub open spec fn only_one_packet_changed<T>(old: Seq<T>, new: Seq<T>) -> bool {
    exists|i: int| #[trigger] packet_replaced_at(old, new, i)
}

/// Signifies that an input consists of packets.
///
/// The structural mutators are generic over this trait.  `Vec<P>` implements
/// it for every clonable packet type `P`.
pub trait HasPackets<P: DeepView>: Sized {
    /// The abstract value of the sequence: its packets' deep views, in order.
    spec fn packets_view(&self) -> Seq<P::V>;

    /// The number of packets.
    fn packets_len(&self) -> (r: usize)
        ensures
            r == self.packets_view().len(),
    ;

    /// Swap the packets at positions `i` and `j`.
    fn swap_packets(&mut self, i: usize, j: usize)
        requires
            i < old(self).packets_view().len(),
            j < old(self).packets_view().len(),
        ensures
            final(self).packets_view() == old(self).packets_view().update(
                i as int,
                old(self).packets_view()[j as int],
            ).update(j as int, old(self).packets_view()[i as int]),
    ;

    /// Remove and return the packet at position `i`.
    fn remove_packet(&mut self, i: usize) -> (p: P)
        requires
            i < old(self).packets_view().len(),
        ensures
            p.deep_view() == old(self).packets_view()[i as int],
            final(self).packets_view() == old(self).packets_view().remove(i as int),
    ;

    /// Insert packet `p` at position `i`.
    fn insert_packet(&mut self, i: usize, p: P)
        requires
            i <= old(self).packets_view().len(),
        ensures
            final(self).packets_view() == old(self).packets_view().insert(
                i as int,
                p.deep_view(),
            ),
    ;

    /// Return a copy of the packet at position `i`.
    fn clone_packet_at(&self, i: usize) -> (p: P)
        requires
            i < self.packets_view().len(),
        ensures
            p.deep_view() == self.packets_view()[i as int],
    ;
}

/// One entry of a flattened directory listing, as the seed loader sees it:
/// the file name (its last path component) as bytes, whether it is a regular
/// file, and its size in bytes.
pub struct DirEntryInfo {
    /// The file name, as bytes.
    pub name: Vec<u8>,
    /// Whether the entry is a regular file (as opposed to a directory).
    pub is_file: bool,
    /// The file's size in bytes.
    pub size: u64,
}

/// The name ends in `.pcap` or `.pcapng` with a nonempty stem: the bytes of
/// `.pcap` are `. p c a p`, those of `.pcapng` are `. p c a p n g`.
pub open spec fn spec_has_pcap_extension(name: Seq<u8>) -> bool {
    ||| (name.len() > 5 && name[name.len() - 5] == 0x2e && name[name.len() - 4] == 0x70
        && name[name.len() - 3] == 0x63 && name[name.len() - 2] == 0x61 && name[name.len() - 1]
        == 0x70)
    ||| (name.len() > 7 && name[name.len() - 7] == 0x2e && name[name.len() - 6] == 0x70
        && name[name.len() - 5] == 0x63 && name[name.len() - 4] == 0x61 && name[name.len() - 3]
        == 0x70 && name[name.len() - 2] == 0x6e && name[name.len() - 1] == 0x67)
}

/// Whether a file name carries a packet-capture extension (`.pcap` or
/// `.pcapng`), with a nonempty stem.
pub fn has_pcap_extension(name: &Vec<u8>) -> (r: bool)
    ensures
        r == spec_has_pcap_extension(name@),
{
    let n = name.len();
    let pcap = n > 5 && name[n - 5] == 0x2e && name[n - 4] == 0x70 && name[n - 3] == 0x63
        && name[n - 2] == 0x61 && name[n - 1] == 0x70;
    let pcapng = n > 7 && name[n - 7] == 0x2e && name[n - 6] == 0x70 && name[n - 5] == 0x63
        && name[n - 4] == 0x61 && name[n - 3] == 0x70 && name[n - 2] == 0x6e && name[n - 1] == 0x67;
    pcap || pcapng
}

/// The seed loader will load this entry: a regular, non-empty file whose
/// extension is `.pcap` or `.pcapng`.
pub open spec fn spec_selects_entry(e: DirEntryInfo) -> bool {
    e.is_file && e.size > 0 && spec_has_pcap_extension(e.name@)
}

/// The positions, in listing order, of the entries the seed loader loads.
pub open spec fn selected_indices(entries: Seq<DirEntryInfo>) -> Seq<int>
    decreases entries.len(),
{
    if entries.len() == 0 {
        Seq::empty()
    } else {
        let rest = selected_indices(entries.drop_last());
        if spec_selects_entry(entries.last()) {
            rest.push(entries.len() - 1)
        } else {
            rest
        }
    }
}

/// From a flattened directory listing, the positions of the entries the seed
/// loader will load: regular, non-empty files whose extension is `.pcap` or
/// `.pcapng`, in listing order.  Directories are not selected; the caller
/// descends into them and lists their files here too.
pub fn select_pcap_files(entries: &Vec<DirEntryInfo>) -> (r: Vec<usize>)
    ensures
        r@.map_values(|u: usize| u as int) == selected_indices(entries@),
{
    let mut r: Vec<usize> = Vec::new();
    let mut i: usize = 0;
    while i < entries.len()
        invariant
            i <= entries@.len(),
            r@.map_values(|u: usize| u as int) == selected_indices(entries@.subrange(0, i as int)),
        decreases entries@.len() - i,
    {
        let e = &entries[i];
        let selected = e.is_file && e.size > 0 && has_pcap_extension(&e.name);
        proof {
            assert(entries@.subrange(0, i + 1).drop_last() =~= entries@.subrange(0, i as int));
            assert(entries@.subrange(0, i + 1).last() == entries@[i as int]);
        }
        if selected {
            r.push(i);
            proof {
                assert(r@.map_values(|u: usize| u as int) =~= selected_indices(
                    entries@.subrange(0, i + 1),
                ));
            }
        }
        i = i + 1;
    }
    proof {
        assert(entries@.subrange(0, entries@.len() as int) =~= entries@);
    }
    r
}

impl<P: ClonablePacket> HasPackets<P> for Vec<P> {
    open spec fn packets_view(&self) -> Seq<P::V> {
        self.deep_view()
    }

    fn packets_len(&self) -> (r: usize) {
        self.len()
    }

    fn swap_packets(&mut self, i: usize, j: usize) {
        let ghost orig = self.deep_view();
        if i != j {
            let (a, b) = if i < j {
                (i, j)
            } else {
                (j, i)
            };
            let pb = self.remove(b);
            let pa = self.remove(a);
            self.insert(a, pb);
            self.insert(b, pa);
            proof {
                assert(self.deep_view() =~= orig.update(i as int, orig[j as int]).update(
                    j as int,
                    orig[i as int],
                ));
            }
        } else {
            proof {
                assert(self.deep_view() =~= orig.update(i as int, orig[j as int]).update(
                    j as int,
                    orig[i as int],
                ));
            }
        }
    }

    fn remove_packet(&mut self, i: usize) -> (p: P) {
        let ghost orig = self.deep_view();
        let p = self.remove(i);
        proof {
            assert(self.deep_view() =~= orig.remove(i as int));
        }
        p
    }

    fn insert_packet(&mut self, i: usize, p: P) {
        let ghost orig = self.deep_view();
        let ghost pv = p.deep_view();
        self.insert(i, p);
        proof {
            assert(self.deep_view() =~= orig.insert(i as int, pv));
        }
    }

    fn clone_packet_at(&self, i: usize) -> (p: P) {
        self[i].clone_packet()
    }
}

} // verus!
