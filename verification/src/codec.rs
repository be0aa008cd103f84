//! Serialization of packet sequences.
//!
//! A packet sequence is persisted as a flat byte string: a 32-bit
//! little-endian packet count, then, per packet, a 32-bit little-endian
//! payload length followed by the payload bytes.  Deserialization accepts
//! exactly the strings this module produces: decoding an encoding returns
//! the original sequence, which [`lemma_codec_round_trip`] states and
//! proves.

use vstd::prelude::*;

use crate::packet::{copy_range, BytesPacket};

verus! {

/// An error raised when a byte string is not a serialized packet sequence.
#[derive(Clone, Copy, PartialEq, Eq, Debug, Structural)]
pub enum DecodeError {
    /// The bytes are not an encoding: truncated, or with trailing garbage.
    Malformed,
}

/// The four little-endian bytes of a 32-bit value.
pub open spec fn u32_le(n: u32) -> Seq<u8> {
    seq![
        (n % 256) as u8,
        ((n / 256) % 256) as u8,
        ((n / 65536) % 256) as u8,
        (n / 16777216) as u8,
    ]
}

/// The 32-bit value read from four little-endian bytes.
pub open spec fn spec_u32_of(b: Seq<u8>) -> int {
    b[0] + 256 * b[1] + 65536 * b[2] + 16777216 * b[3]
}

/// Reading back the four little-endian bytes of a value gives the value.
pub proof fn lemma_u32_le_round_trip(n: u32)
    ensures
        spec_u32_of(u32_le(n)) == n,
{
    assert(n == (n % 256) + 256 * ((n / 256) % 256) + 65536 * ((n / 65536) % 256) + 16777216 * (n
        / 16777216)) by (nonlinear_arith);
}

/// Every sequence length and every payload length fits in 32 bits, so the
/// format can carry it.
pub open spec fn fits_u32(s: Seq<Seq<u8>>) -> bool {
    &&& s.len() <= u32::MAX
    &&& forall|i: int| 0 <= i < s.len() ==> #[trigger] s[i].len() <= u32::MAX
}

/// The encoding of the packets themselves: per packet, its length and its
/// bytes.
pub open spec fn encode_items(s: Seq<Seq<u8>>) -> Seq<u8>
    decreases s.len(),
{
    if s.len() == 0 {
        Seq::empty()
    } else {
        u32_le(s[0].len() as u32) + s[0] + encode_items(s.drop_first())
    }
}

/// The encoding of a packet sequence: the packet count, then the packets.
pub open spec fn spec_serialize(s: Seq<Seq<u8>>) -> Seq<u8> {
    u32_le(s.len() as u32) + encode_items(s)
}

/// Decode `count` packets from `data`, demanding that nothing is left over.
pub open spec fn decode_items(data: Seq<u8>, count: int) -> Option<Seq<Seq<u8>>>
    decreases count,
{
    if count <= 0 {
        if data.len() == 0 {
            Some(Seq::empty())
        } else {
            None
        }
    } else if data.len() < 4 {
        None
    } else {
        let len = spec_u32_of(data.subrange(0, 4));
        if data.len() - 4 < len {
            None
        } else {
            let payload = data.subrange(4, 4 + len);
            match decode_items(data.subrange(4 + len, data.len() as int), count - 1) {
                Some(rest) => Some(seq![payload] + rest),
                None => None,
            }
        }
    }
}

/// The packet sequence a byte string encodes, if it encodes one.
pub open spec fn spec_deserialize(data: Seq<u8>) -> Option<Seq<Seq<u8>>> {
    if data.len() < 4 {
        None
    } else {
        decode_items(data.subrange(4, data.len() as int), spec_u32_of(data.subrange(0, 4)))
    }
}

/// Appending a packet to a sequence appends its item encoding.
proof fn lemma_encode_items_push(s: Seq<Seq<u8>>, x: Seq<u8>)
    ensures
        encode_items(s.push(x)) == encode_items(s) + u32_le(x.len() as u32) + x,
    decreases s.len(),
{
    if s.len() == 0 {
        assert(s.push(x)[0] == x);
        assert(s.push(x).drop_first() =~= Seq::<Seq<u8>>::empty());
        assert(encode_items(s.push(x).drop_first()) =~= Seq::<u8>::empty());
        assert(encode_items(s) =~= Seq::<u8>::empty());
        assert(encode_items(s.push(x)) =~= encode_items(s) + u32_le(x.len() as u32) + x);
    } else {
        assert(s.push(x).drop_first() =~= s.drop_first().push(x));
        lemma_encode_items_push(s.drop_first(), x);
        assert(s.push(x)[0] == s[0]);
        assert(encode_items(s.push(x)) =~= encode_items(s) + u32_le(x.len() as u32) + x);
    }
}

/// Decoding the packet-items encoding of a sequence gives the sequence back.
proof fn lemma_items_round_trip(s: Seq<Seq<u8>>)
    requires
        fits_u32(s),
    ensures
        decode_items(encode_items(s), s.len() as int) == Some(s),
    decreases s.len(),
{
    if s.len() == 0 {
        assert(encode_items(s).len() == 0);
        assert(Seq::<Seq<u8>>::empty() =~= s);
    } else {
        let head = s[0];
        let rest = s.drop_first();
        let data = encode_items(s);
        let hl = head.len() as int;
        lemma_u32_le_round_trip(head.len() as u32);
        assert(data =~= (u32_le(head.len() as u32) + head) + encode_items(rest));
        assert(data.subrange(0, 4) =~= u32_le(head.len() as u32));
        assert(spec_u32_of(data.subrange(0, 4)) == hl);
        assert(data.len() - 4 >= hl);
        assert(data.subrange(4, 4 + hl) =~= head);
        assert(data.subrange(4 + hl, data.len() as int) =~= encode_items(rest));
        assert(rest.len() <= u32::MAX && forall|i: int|
            0 <= i < rest.len() ==> #[trigger] rest[i].len() <= u32::MAX);
        lemma_items_round_trip(rest);
        assert(seq![head] + rest =~= s);
    }
}

/// Decoding an encoding gives the original sequence back: serialization
/// round-trips.
pub proof fn lemma_codec_round_trip(s: Seq<Seq<u8>>)
    requires
        fits_u32(s),
    ensures
        spec_deserialize(spec_serialize(s)) == Some(s),
{
    let data = spec_serialize(s);
    lemma_u32_le_round_trip(s.len() as u32);
    assert(data.subrange(0, 4) =~= u32_le(s.len() as u32));
    assert(data.subrange(4, data.len() as int) =~= encode_items(s));
    lemma_items_round_trip(s);
}

/// Append the four little-endian bytes of `n`.
fn push_u32_le(out: &mut Vec<u8>, n: u32)
    ensures
        final(out)@ == old(out)@ + u32_le(n),
{
    out.push((n % 256) as u8);
    out.push(((n / 256) % 256) as u8);
    out.push(((n / 65536) % 256) as u8);
    out.push((n / 16777216) as u8);
    proof {
        assert(out@ =~= old(out)@ + u32_le(n));
    }
}

/// Read the 32-bit little-endian value at position `pos`.
fn read_u32_le(data: &Vec<u8>, pos: usize) -> (r: u32)
    requires
        pos + 4 <= data@.len(),
    ensures
        r == spec_u32_of(data@.subrange(pos as int, pos + 4)),
{
    let n = data.len();
    proof {
        assert(pos + 4 <= n);
    }
    let b0 = data[pos] as u32;
    let b1 = data[pos + 1] as u32;
    let b2 = data[pos + 2] as u32;
    let b3 = data[pos + 3] as u32;
    b0 + 256 * b1 + 65536 * b2 + 16777216 * b3
}

/// Serialize a packet sequence: the packet count, then, per packet, its
/// length and its bytes, all lengths as 32-bit little-endian values.
pub fn serialize_packets(packets: &Vec<BytesPacket>) -> (r: Vec<u8>)
    requires
        fits_u32(packets.deep_view()),
    ensures
        r@ == spec_serialize(packets.deep_view()),
{
    let ghost all = packets.deep_view();
    let mut out: Vec<u8> = Vec::new();
    push_u32_le(&mut out, packets.len() as u32);
    let mut i: usize = 0;
    while i < packets.len()
        invariant
            i <= packets@.len(),
            all == packets.deep_view(),
            fits_u32(all),
            out@ == u32_le(all.len() as u32) + encode_items(all.subrange(0, i as int)),
        decreases packets@.len() - i,
    {
        let p = &packets[i];
        proof {
            assert(p.deep_view() == all[i as int]);
            assert(all[i as int].len() <= u32::MAX);
        }
        push_u32_le(&mut out, p.len() as u32);
        let bytes = p.bytes();
        copy_range(&mut out, bytes, 0, bytes.len());
        proof {
            assert(bytes@.subrange(0, bytes@.len() as int) =~= all[i as int]);
            assert(all.subrange(0, i + 1) =~= all.subrange(0, i as int).push(all[i as int]));
            lemma_encode_items_push(all.subrange(0, i as int), all[i as int]);
            assert(out@ =~= u32_le(all.len() as u32) + encode_items(all.subrange(0, i + 1)));
        }
        i = i + 1;
    }
    proof {
        assert(all.subrange(0, all.len() as int) =~= all);
    }
    out
}

/// Deserialize a packet sequence from bytes: the exact inverse of
/// [`serialize_packets`].  `Ok` is returned iff the bytes are an encoding,
/// and then the decoded sequence is the encoded one.
pub fn deserialize_packets(data: &Vec<u8>) -> (r: Result<Vec<BytesPacket>, DecodeError>)
    ensures
        (match r {
            Ok(v) => spec_deserialize(data@) == Some(v.deep_view()),
            Err(_) => spec_deserialize(data@) is None,
        }),
{
    let n = data.len();
    if n < 4 {
        return Err(DecodeError::Malformed);
    }
    let count = read_u32_le(data, 0);
    let mut out: Vec<BytesPacket> = Vec::new();
    let mut pos: usize = 4;
    let mut k: u32 = 0;

    proof {
        assert(out.deep_view() =~= Seq::<Seq<u8>>::empty());
        match decode_items(data@.subrange(4, data@.len() as int), count as int) {
            Some(rest) => {
                assert(out.deep_view() + rest =~= rest);
            },
            None => {},
        }
    }

    while k < count
        invariant
            4 <= pos <= data@.len(),
            k <= count,
            spec_deserialize(data@) == (match decode_items(
                data@.subrange(pos as int, data@.len() as int),
                count - k,
            ) {
                Some(rest) => Some(out.deep_view() + rest),
                None => None::<Seq<Seq<u8>>>,
            }),
        decreases count - k,
    {
        let ghost cur = data@.subrange(pos as int, data@.len() as int);
        if data.len() - pos < 4 {
            return Err(DecodeError::Malformed);
        }
        let len32 = read_u32_le(data, pos);
        let len = len32 as usize;
        proof {
            assert(cur.subrange(0, 4) =~= data@.subrange(pos as int, pos + 4));
        }
        if data.len() - pos - 4 < len {
            return Err(DecodeError::Malformed);
        }
        let mut payload: Vec<u8> = Vec::new();
        copy_range(&mut payload, data, pos + 4, pos + 4 + len);
        let ghost old_out = out.deep_view();
        out.push(BytesPacket::new(payload));
        proof {
            assert(cur.subrange(4, 4 + len as int) =~= data@.subrange(pos + 4, pos + 4 + len));
            assert(cur.subrange(4 + len as int, cur.len() as int) =~= data@.subrange(
                pos + 4 + len,
                data@.len() as int,
            ));
            assert(out.deep_view() =~= old_out.push(cur.subrange(4, 4 + len as int)));
            let next = data@.subrange(pos + 4 + len, data@.len() as int);
            match decode_items(next, count - k - 1) {
                Some(rest) => {
                    assert(old_out + (seq![cur.subrange(4, 4 + len as int)] + rest)
                        =~= out.deep_view() + rest);
                },
                None => {},
            }
        }
        pos = pos + 4 + len;
        k = k + 1;
    }

    if pos < data.len() {
        return Err(DecodeError::Malformed);
    }
    proof {
        assert(data@.subrange(pos as int, data@.len() as int).len() == 0);
        assert(out.deep_view() + Seq::<Seq<u8>>::empty() =~= out.deep_view());
    }
    Ok(out)
}

} // verus!
