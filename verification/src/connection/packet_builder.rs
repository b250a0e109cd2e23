use vstd::prelude::*;
use vstd::slice::slice_subrange;
use crate::packet::error::MqttError;
use crate::packet::variable_byte_integer::{vbi_all_continue, vbi_decode_len, vbi_value, DecodeResult, VariableByteInteger};

verus! {

/// A position in a byte slice, from which received bytes are read.
pub struct Cursor<'a> {
    data: &'a [u8],
    position: usize,
}

impl<'a> Cursor<'a> {
    #[verifier::type_invariant]
    closed spec fn inv(self) -> bool {
        self.position <= self.data@.len()
    }

    pub closed spec fn spec_data(self) -> Seq<u8> {
        self.data@
    }

    pub closed spec fn spec_position(self) -> nat {
        self.position as nat
    }

    /// A cursor at the start of `data`.
    pub fn new(data: &'a [u8]) -> (r: Cursor<'a>)
        ensures
            r.spec_data() == data@,
            r.spec_position() == 0,
    {
        Cursor { data, position: 0 }
    }

    pub fn position(&self) -> (r: usize)
        ensures
            r == self.spec_position(),
    {
        self.position
    }

    /// Whether every byte has been read.
    pub fn is_empty(&self) -> (r: bool)
        ensures
            r == (self.spec_position() >= self.spec_data().len()),
            self.spec_position() <= self.spec_data().len(),
    {
        proof { use_type_invariant(self); }
        self.position >= self.data.len()
    }
}

/// The bytes of the packet being received do not start a valid packet: the
/// remaining length runs past four bytes.
pub open spec fn frame_invalid(b: Seq<u8>) -> bool {
    b.len() >= 5 && vbi_all_continue(b.subrange(1, b.len() as int), 4)
}

/// Length of the packet whose first bytes are `b`, once its remaining length
/// is complete.
pub open spec fn frame_len(b: Seq<u8>) -> Option<nat> {
    if b.len() < 2 {
        None
    } else {
        let s = b.subrange(1, b.len() as int);
        match vbi_decode_len(s) {
            Some(c) => Some(1 + c + vbi_value(s, c)),
            None => None,
        }
    }
}

/// A complete packet as received: first byte, remaining length and body.
#[derive(Debug)]
pub struct RawPacket {
    fixed_header: u8,
    remaining_length: u32,
    data: Vec<u8>,
}

impl RawPacket {
    pub closed spec fn spec_fixed_header(self) -> u8 {
        self.fixed_header
    }

    pub closed spec fn spec_remaining_length(self) -> nat {
        self.remaining_length as nat
    }

    pub closed spec fn spec_data(self) -> Seq<u8> {
        self.data@
    }

    /// The packet type (bits 4 to 7 of the first byte).
    pub fn packet_type(&self) -> (r: u8)
        ensures
            r == self.spec_fixed_header() >> 4u8,
    {
        self.fixed_header >> 4u8
    }

    /// The flags (bits 0 to 3 of the first byte).
    pub fn flags(&self) -> (r: u8)
        ensures
            r == self.spec_fixed_header() & 0x0fu8,
    {
        self.fixed_header & 0x0fu8
    }

    pub fn remaining_length(&self) -> (r: u32)
        ensures
            r == self.spec_remaining_length(),
    {
        self.remaining_length
    }

    pub fn data_as_slice(&self) -> (r: &[u8])
        ensures
            r@ == self.spec_data(),
    {
        self.data.as_slice()
    }
}

/// Outcome of feeding bytes to a `PacketBuilder`.
#[derive(Debug)]
pub enum PacketBuildResult {
    Complete(RawPacket),
    Incomplete,
    Error(MqttError),
}

/// Gathers received bytes into packets.
#[derive(Debug)]
pub struct PacketBuilder {
    buf: Vec<u8>,
    expected: Option<usize>,
}

impl View for PacketBuilder {
    type V = Seq<u8>;

    closed spec fn view(&self) -> Seq<u8> {
        self.buf@
    }
}

proof fn lemma_vbi_prefix(s: Seq<u8>, t: Seq<u8>)
    requires
        vbi_decode_len(s) is Some,
    ensures
        vbi_decode_len(s + t) == vbi_decode_len(s),
        vbi_value(s + t, vbi_decode_len(s).unwrap()) == vbi_value(s, vbi_decode_len(s).unwrap()),
{
    let c = vbi_decode_len(s).unwrap();
    assert forall|i: int| 0 <= i < s.len() implies (s + t)[i] == s[i] by {}
}

/// What the builder holds is the start of a valid packet, not yet complete,
/// and `expected` is its length once known.
pub open spec fn partial_frame(b: Seq<u8>, expected: Option<usize>) -> bool {
    &&& !frame_invalid(b)
    &&& match frame_len(b) {
        Some(t) => expected == Some(t as usize) && b.len() < t && t <= usize::MAX,
        None => expected is None && (b.len() >= 2 ==> b.len() < 5 && vbi_all_continue(
            b.subrange(1, b.len() as int),
            b.len() - 1,
        )),
    }
}

/// Splits a complete packet into its first byte, remaining length and body.
fn split_raw(buf: Vec<u8>, remaining_length: u32) -> (r: RawPacket)
    requires
        buf@.len() >= remaining_length + 1,
    ensures
        r.spec_fixed_header() == buf@[0],
        r.spec_remaining_length() == remaining_length,
        r.spec_data() == buf@.subrange(buf@.len() - remaining_length, buf@.len() as int),
{
    let start = buf.len() - remaining_length as usize;
    let data = crate::packet::bytes::copy_bytes(slice_subrange(buf.as_slice(), start, buf.len()));
    RawPacket { fixed_header: buf[0], remaining_length, data }
}

impl PacketBuilder {
    pub closed spec fn wf(self) -> bool {
        partial_frame(self.buf@, self.expected)
    }

    /// A builder holding no byte.
    pub fn new() -> (r: PacketBuilder)
        ensures
            r@ == Seq::<u8>::empty(),
            r.wf(),
    {
        PacketBuilder { buf: Vec::new(), expected: None }
    }

    /// Reads bytes from the cursor until a packet is complete, the bytes are
    /// found not to start a valid packet, or the cursor is exhausted.
    pub fn feed(&mut self, data: &mut Cursor) -> (r: PacketBuildResult)
        requires
            old(self).wf(),
        ensures
            final(self).wf(),
            final(data).spec_data() == old(data).spec_data(),
            old(data).spec_position() <= final(data).spec_position(),
            final(data).spec_position() <= final(data).spec_data().len(),
            ({
                let read = old(data).spec_data().subrange(
                    old(data).spec_position() as int,
                    final(data).spec_position() as int,
                );
                let all = old(self)@ + read;
                match r {
                    PacketBuildResult::Complete(raw) => {
                        &&& frame_len(all) == Some(all.len())
                        &&& raw.spec_fixed_header() == all[0]
                        &&& raw.spec_data() == all.subrange(all.len() - raw.spec_remaining_length(), all.len() as int)
                        &&& frame_len(all) == Some(1 + vbi_decode_len(all.subrange(1, all.len() as int)).unwrap() + raw.spec_remaining_length())
                        &&& final(self)@ == Seq::<u8>::empty()
                    },
                    PacketBuildResult::Incomplete => {
                        &&& final(data).spec_position() >= final(data).spec_data().len()
                        &&& final(self)@ == all
                        &&& !frame_invalid(all)
                        &&& frame_len(all) != Some(all.len())
                    },
                    PacketBuildResult::Error(e) => {
                        &&& e == MqttError::MalformedPacket
                        &&& frame_invalid(all)
                        &&& frame_len(all) is None
                        &&& final(self)@ == Seq::<u8>::empty()
                    },
                }
            }),
    {
        proof { use_type_invariant(&*data); }
        let ghost start = data.position;
        let ghost acc0 = self.buf@;
        let len = data.data.len();
        if data.position >= len {
            assert(data.data@.subrange(start as int, data.position as int) =~= Seq::<u8>::empty());
            assert(self.buf@ =~= acc0 + data.data@.subrange(start as int, data.position as int));
            return PacketBuildResult::Incomplete;
        }
        let mut buf: Vec<u8> = Vec::new();
        std::mem::swap(&mut buf, &mut self.buf);
        let mut expected = self.expected;
        assert(data.data@.subrange(start as int, data.position as int) =~= Seq::<u8>::empty());
        assert(buf@ =~= acc0 + data.data@.subrange(start as int, data.position as int));
        loop
            invariant
                data.data@ == old(data).spec_data(),
                len == data.data@.len(),
                start == old(data).spec_position(),
                start <= data.position <= len,
                acc0 == old(self)@,
                buf@ == acc0 + data.data@.subrange(start as int, data.position as int),
                partial_frame(buf@, expected),
            decreases len - data.position,
        {
            if data.position >= len {
                *self = PacketBuilder { buf, expected };
                return PacketBuildResult::Incomplete;
            }
            let b = data.data[data.position];
            let ghost before = buf@;
            buf.push(b);
            data.position = data.position + 1;
            proof {
                assert(buf@ =~= acc0 + data.data@.subrange(start as int, data.position as int));
            }
            match expected {
                Some(t) => {
                    proof {
                        let s0 = before.subrange(1, before.len() as int);
                        let s1 = buf@.subrange(1, buf@.len() as int);
                        assert(s1 =~= s0 + seq![b]);
                        lemma_vbi_prefix(s0, seq![b]);
                    }
                    if buf.len() == t {
                        proof {
                            let s1 = buf@.subrange(1, buf@.len() as int);
                            let c = vbi_decode_len(s1).unwrap();
                        }
                        let rl = (t - 1 - vbi_len_of(&buf)) as u32;
                        let raw = split_raw(buf, rl);
                        *self = PacketBuilder::new();
                        return PacketBuildResult::Complete(raw);
                    }
                },
                None => {
                    if buf.len() >= 2 {
                        match VariableByteInteger::decode_stream(slice_subrange(buf.as_slice(), 1, buf.len())) {
                            DecodeResult::Decoded(x, n) => {
                                let total: usize = 1 + n + x.to_u32() as usize;
                                if total == buf.len() {
                                    let raw = split_raw(buf, x.to_u32());
                                    *self = PacketBuilder::new();
                                    return PacketBuildResult::Complete(raw);
                                }
                                expected = Some(total);
                            },
                            DecodeResult::Incomplete => {},
                            DecodeResult::Invalid(e) => {
                                *self = PacketBuilder::new();
                                return PacketBuildResult::Error(e);
                            },
                        }
                    }
                },
            }
        }
    }
}

/// Number of bytes of the remaining length of the packet in `buf`.
fn vbi_len_of(buf: &Vec<u8>) -> (r: usize)
    requires
        frame_len(buf@) is Some,
    ensures
        r == vbi_decode_len(buf@.subrange(1, buf@.len() as int)).unwrap(),
        1 <= r <= 4,
{
    match VariableByteInteger::decode_stream(slice_subrange(buf.as_slice(), 1, buf.len())) {
        DecodeResult::Decoded(_, n) => n,
        _ => {
            assert(false);
            1
        },
    }
}

} // verus!
