use vstd::prelude::*;
use crate::packet::bytes::{
    be16, be16_value, be32, be32_value, lemma_be16_of_value, lemma_be16_roundtrip,
    lemma_be32_of_value, lemma_be32_roundtrip, u16_from_be, u16_to_be, u32_from_be, u32_to_be,
};

verus! {

/// Big-endian encoding, on `width` bytes, of a packet identifier of value `v`.
pub open spec fn pid_bytes(v: nat, width: nat) -> Seq<u8> {
    if width == 2 {
        be16(v)
    } else {
        be32(v)
    }
}

/// Value of a big-endian packet identifier field.
pub open spec fn pid_value(b: Seq<u8>) -> nat {
    if b.len() == 2 {
        be16_value(b[0], b[1])
    } else {
        be32_value(b[0], b[1], b[2], b[3])
    }
}

/// Largest packet identifier that fits in `width` bytes.
pub open spec fn pid_max(width: nat) -> nat {
    if width == 2 {
        0xffff
    } else {
        0xffff_ffff
    }
}

/// An integer type used as packet identifier: `u16` as MQTT defines it, or
/// `u32` for deployments that need a wider range.
pub trait IsPacketId: Sized + Copy + PartialEq + Eq + core::fmt::Debug {
    /// The numeric value.
    spec fn spec_value(&self) -> nat;

    /// Size of the encoded identifier in bytes.
    spec fn spec_width() -> nat;

    proof fn lemma_packet_id(p: Self)
        ensures
            Self::spec_width() == 2 || Self::spec_width() == 4,
            p.spec_value() <= pid_max(Self::spec_width()),
    ;

    proof fn lemma_value_injective(p: Self, q: Self)
        ensures
            p.spec_value() == q.spec_value() ==> p == q,
    ;

    fn value(&self) -> (r: u32)
        ensures
            r as nat == self.spec_value(),
    ;

    fn from_value(v: u32) -> (r: Self)
        requires
            v as nat <= pid_max(Self::spec_width()),
        ensures
            r.spec_value() == v as nat,
    ;

    fn width() -> (r: usize)
        ensures
            r as nat == Self::spec_width(),
    ;

    fn max_value() -> (r: u32)
        ensures
            r as nat == pid_max(Self::spec_width()),
    ;

    /// The big-endian encoding.
    fn to_buffer(&self) -> (r: Vec<u8>)
        ensures
            r@ == pid_bytes(self.spec_value(), Self::spec_width()),
    ;

    /// The identifier encoded big-endian in `b`.
    fn from_buffer(b: &[u8]) -> (r: Self)
        requires
            b@.len() == Self::spec_width(),
        ensures
            r.spec_value() == pid_value(b@),
            pid_bytes(r.spec_value(), Self::spec_width()) == b@,
    ;
}

impl IsPacketId for u16 {
    open spec fn spec_value(&self) -> nat {
        *self as nat
    }

    open spec fn spec_width() -> nat {
        2
    }

    proof fn lemma_packet_id(p: Self) {
    }

    proof fn lemma_value_injective(p: Self, q: Self) {
    }

    fn value(&self) -> (r: u32) {
        *self as u32
    }

    fn from_value(v: u32) -> (r: Self) {
        v as u16
    }

    fn width() -> (r: usize) {
        2
    }

    fn max_value() -> (r: u32) {
        0xffff
    }

    fn to_buffer(&self) -> (r: Vec<u8>) {
        let b = u16_to_be(*self);
        let mut v: Vec<u8> = Vec::new();
        v.push(b[0]);
        v.push(b[1]);
        assert(v@ =~= be16(*self as nat));
        v
    }

    fn from_buffer(b: &[u8]) -> (r: Self) {
        proof {
            lemma_be16_of_value(b@[0], b@[1]);
            assert(seq![b@[0], b@[1]] =~= b@);
        }
        u16_from_be(b[0], b[1])
    }
}

impl IsPacketId for u32 {
    open spec fn spec_value(&self) -> nat {
        *self as nat
    }

    open spec fn spec_width() -> nat {
        4
    }

    proof fn lemma_packet_id(p: Self) {
    }

    proof fn lemma_value_injective(p: Self, q: Self) {
    }

    fn value(&self) -> (r: u32) {
        *self
    }

    fn from_value(v: u32) -> (r: Self) {
        v
    }

    fn width() -> (r: usize) {
        4
    }

    fn max_value() -> (r: u32) {
        0xffff_ffff
    }

    fn to_buffer(&self) -> (r: Vec<u8>) {
        let b = u32_to_be(*self);
        let mut v: Vec<u8> = Vec::new();
        v.push(b[0]);
        v.push(b[1]);
        v.push(b[2]);
        v.push(b[3]);
        assert(v@ =~= be32(*self as nat));
        v
    }

    fn from_buffer(b: &[u8]) -> (r: Self) {
        proof {
            lemma_be32_of_value(b@[0], b@[1], b@[2], b@[3]);
            assert(seq![b@[0], b@[1], b@[2], b@[3]] =~= b@);
        }
        u32_from_be(b[0], b[1], b[2], b[3])
    }
}

/// Roundtrip of the encoding of a packet identifier.
pub proof fn lemma_pid_roundtrip<P: IsPacketId>(p: P)
    ensures
        pid_bytes(p.spec_value(), P::spec_width()).len() == P::spec_width(),
        pid_value(pid_bytes(p.spec_value(), P::spec_width())) == p.spec_value(),
{
    P::lemma_packet_id(p);
    if P::spec_width() == 2 {
        lemma_be16_roundtrip(p.spec_value());
    } else {
        lemma_be32_roundtrip(p.spec_value());
    }
}

} // verus!
