use vstd::prelude::*;
use crate::packet::error::MqttError;

verus! {

/// The largest value a Variable Byte Integer can hold.
pub const VBI_MAX: u32 = 268435455;

/// Number of bytes of the Variable Byte Integer encoding of `v`.
pub open spec fn vbi_size(v: nat) -> nat {
    if v < 128 {
        1
    } else if v < 16384 {
        2
    } else if v < 2097152 {
        3
    } else {
        4
    }
}

/// The Variable Byte Integer encoding of `v` (seven bits per byte, least
/// significant group first, high bit set on every byte but the last).
pub open spec fn vbi_encode(v: nat) -> Seq<u8> {
    if v < 128 {
        seq![v as u8]
    } else if v < 16384 {
        seq![(v % 128 + 128) as u8, (v / 128) as u8]
    } else if v < 2097152 {
        seq![(v % 128 + 128) as u8, ((v / 128) % 128 + 128) as u8, (v / 16384) as u8]
    } else {
        seq![
            (v % 128 + 128) as u8,
            ((v / 128) % 128 + 128) as u8,
            ((v / 16384) % 128 + 128) as u8,
            (v / 2097152) as u8,
        ]
    }
}

/// The value carried by the first `n` bytes of a Variable Byte Integer (n <= 4).
pub open spec fn vbi_value(bytes: Seq<u8>, n: nat) -> nat {
    (bytes[0] % 128) as nat
        + (if n > 1 { (bytes[1] % 128) as nat * 128 } else { 0 })
        + (if n > 2 { (bytes[2] % 128) as nat * 16384 } else { 0 })
        + (if n > 3 { (bytes[3] % 128) as nat * 2097152 } else { 0 })
}

/// The encoding in `bytes` ends at index `i`: the byte there has its high
/// bit clear, every byte before it has it set, and `i` is below 4.
pub open spec fn vbi_ends_at(bytes: Seq<u8>, i: int) -> bool {
    &&& 0 <= i < 4
    &&& i < bytes.len()
    &&& bytes[i] < 128
    &&& forall|j: int| 0 <= j < i ==> bytes[j] >= 128
}

/// The first `k` bytes (k <= 4, k <= len) all carry the continuation bit.
pub open spec fn vbi_all_continue(bytes: Seq<u8>, k: int) -> bool {
    forall|j: int| 0 <= j < k ==> bytes[j] >= 128
}

/// Number of bytes of the Variable Byte Integer at the front of `b`, when
/// one ends within the first four bytes.
pub open spec fn vbi_decode_len(b: Seq<u8>) -> Option<nat> {
    if b.len() > 0 && b[0] < 128 {
        Some(1)
    } else if b.len() > 1 && b[0] >= 128 && b[1] < 128 {
        Some(2)
    } else if b.len() > 2 && b[0] >= 128 && b[1] >= 128 && b[2] < 128 {
        Some(3)
    } else if b.len() > 3 && b[0] >= 128 && b[1] >= 128 && b[2] >= 128 && b[3] < 128 {
        Some(4)
    } else {
        None
    }
}

/// An MQTT Variable Byte Integer (0 ..= 268,435,455).
#[derive(Debug, Clone, Copy, PartialEq, Eq)]
pub struct VariableByteInteger {
    value: u32,
}

/// Result of decoding a Variable Byte Integer from the front of a byte stream.
#[derive(Debug, Clone, Copy, PartialEq, Eq)]
pub enum DecodeResult {
    /// The decoded integer and the number of bytes it took.
    Decoded(VariableByteInteger, usize),
    /// More bytes are needed.
    Incomplete,
    /// The encoding runs past four bytes.
    Invalid(MqttError),
}

impl View for VariableByteInteger {
    type V = nat;

    closed spec fn view(&self) -> nat {
        self.value as nat
    }
}

impl VariableByteInteger {
    #[verifier::type_invariant]
    closed spec fn inv(self) -> bool {
        self.value <= VBI_MAX
    }

    /// The integer holding `v`; `None` when `v` is above 268,435,455.
    pub fn from_u32(v: u32) -> (r: Option<VariableByteInteger>)
        ensures
            v <= VBI_MAX <==> r is Some,
            r matches Some(x) ==> x@ == v as nat,
    {
        if v <= VBI_MAX {
            Some(VariableByteInteger { value: v })
        } else {
            None
        }
    }

    /// The value as a `u32`.
    pub fn to_u32(&self) -> (r: u32)
        ensures
            r as nat == self@,
            r <= VBI_MAX,
    {
        proof { use_type_invariant(self); }
        self.value
    }

    /// Number of bytes of the encoding.
    pub fn size(&self) -> (r: usize)
        ensures
            r as nat == vbi_size(self@),
            1 <= r <= 4,
    {
        if self.value < 128 {
            1
        } else if self.value < 16384 {
            2
        } else if self.value < 2097152 {
            3
        } else {
            4
        }
    }

    /// The encoded bytes.
    pub fn to_continuous_buffer(&self) -> (r: Vec<u8>)
        ensures
            r@ == vbi_encode(self@),
            r@.len() == vbi_size(self@),
    {
        proof { use_type_invariant(self); }
        let v = self.value;
        let mut r: Vec<u8> = Vec::new();
        if v < 128 {
            r.push(v as u8);
        } else if v < 16384 {
            r.push((v % 128 + 128) as u8);
            r.push((v / 128) as u8);
        } else if v < 2097152 {
            r.push((v % 128 + 128) as u8);
            r.push(((v / 128) % 128 + 128) as u8);
            r.push((v / 16384) as u8);
        } else {
            r.push((v % 128 + 128) as u8);
            r.push(((v / 128) % 128 + 128) as u8);
            r.push(((v / 16384) % 128 + 128) as u8);
            r.push((v / 2097152) as u8);
        }
        assert(r@ =~= vbi_encode(v as nat));
        r
    }

    /// Decodes a Variable Byte Integer from the front of `bytes`.
    pub fn decode_stream(bytes: &[u8]) -> (r: DecodeResult)
        ensures
            r is Decoded <==> vbi_decode_len(bytes@) is Some,
            r matches DecodeResult::Decoded(x, n) ==> vbi_decode_len(bytes@) == Some(n as nat),
            match r {
                DecodeResult::Decoded(x, n) => 1 <= n <= 4 && vbi_ends_at(bytes@, n - 1) && x@
                    == vbi_value(bytes@, n as nat),
                DecodeResult::Incomplete => bytes@.len() < 4 && vbi_all_continue(
                    bytes@,
                    bytes@.len() as int,
                ),
                DecodeResult::Invalid(e) => e == MqttError::MalformedPacket && bytes@.len() >= 4
                    && vbi_all_continue(bytes@, 4),
            },
    {
        let len = bytes.len();
        if len == 0 {
            return DecodeResult::Incomplete;
        }
        let b0 = bytes[0];
        let d0 = (b0 % 128) as u32;
        if b0 < 128 {
            return DecodeResult::Decoded(VariableByteInteger { value: d0 }, 1);
        }
        if len == 1 {
            return DecodeResult::Incomplete;
        }
        let b1 = bytes[1];
        let d1 = (b1 % 128) as u32;
        if b1 < 128 {
            return DecodeResult::Decoded(VariableByteInteger { value: d0 + d1 * 128 }, 2);
        }
        if len == 2 {
            return DecodeResult::Incomplete;
        }
        let b2 = bytes[2];
        let d2 = (b2 % 128) as u32;
        if b2 < 128 {
            return DecodeResult::Decoded(VariableByteInteger { value: d0 + d1 * 128 + d2 * 16384 }, 3);
        }
        if len == 3 {
            return DecodeResult::Incomplete;
        }
        let b3 = bytes[3];
        let d3 = (b3 % 128) as u32;
        if b3 < 128 {
            return DecodeResult::Decoded(
                VariableByteInteger { value: d0 + d1 * 128 + d2 * 16384 + d3 * 2097152 },
                4,
            );
        }
        DecodeResult::Invalid(MqttError::MalformedPacket)
    }
}

/// Decoding the encoding of any value gives that value back and consumes
/// exactly the encoding.
pub proof fn lemma_vbi_roundtrip(v: nat, rest: Seq<u8>)
    requires
        v <= VBI_MAX,
    ensures
        vbi_encode(v).len() == vbi_size(v),
        vbi_ends_at(vbi_encode(v) + rest, vbi_size(v) - 1),
        vbi_value(vbi_encode(v) + rest, vbi_size(v)) == v,
        vbi_decode_len(vbi_encode(v) + rest) == Some(vbi_size(v)),
{
    let s = vbi_encode(v) + rest;
    assert(s.len() >= vbi_size(v));
    if v < 128 {
        assert(s[0] == v as u8);
    } else if v < 16384 {
        assert(s[0] == (v % 128 + 128) as u8);
        assert(s[1] == (v / 128) as u8);
    } else if v < 2097152 {
        assert(s[0] == (v % 128 + 128) as u8);
        assert(s[1] == ((v / 128) % 128 + 128) as u8);
        assert(s[2] == (v / 16384) as u8);
    } else {
        assert(s[0] == (v % 128 + 128) as u8);
        assert(s[1] == ((v / 128) % 128 + 128) as u8);
        assert(s[2] == ((v / 16384) % 128 + 128) as u8);
        assert(s[3] == (v / 2097152) as u8);
    }
}

} // verus!
