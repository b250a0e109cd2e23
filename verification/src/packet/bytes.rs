use vstd::prelude::*;
use vstd::slice::slice_subrange;
use vstd::arithmetic::div_mod::lemma_fundamental_div_mod_converse;

verus! {

/// Big-endian two-byte encoding of a value below 65536.
pub open spec fn be16(v: nat) -> Seq<u8> {
    seq![(v / 256) as u8, (v % 256) as u8]
}

/// Value of a big-endian two-byte field.
pub open spec fn be16_value(hi: u8, lo: u8) -> nat {
    (hi as nat) * 256 + (lo as nat)
}

/// Big-endian four-byte encoding of a `u32`.
pub open spec fn be32(v: nat) -> Seq<u8> {
    seq![(v / 16777216) as u8, ((v / 65536) % 256) as u8, ((v / 256) % 256) as u8, (v % 256) as u8]
}

/// Value of a big-endian four-byte field.
pub open spec fn be32_value(b0: u8, b1: u8, b2: u8, b3: u8) -> nat {
    (b0 as nat) * 16777216 + (b1 as nat) * 65536 + (b2 as nat) * 256 + (b3 as nat)
}

pub proof fn lemma_be16_roundtrip(v: nat)
    requires
        v < 65536,
    ensures
        be16_value(be16(v)[0], be16(v)[1]) == v,
        be16(v).len() == 2,
{
}

pub proof fn lemma_be16_of_value(hi: u8, lo: u8)
    ensures
        be16(be16_value(hi, lo)) == seq![hi, lo],
        be16_value(hi, lo) < 65536,
{
    assert(be16(be16_value(hi, lo)) =~= seq![hi, lo]);
}

pub proof fn lemma_be32_roundtrip(v: nat)
    requires
        v <= 0xffff_ffff,
    ensures
        be32_value(be32(v)[0], be32(v)[1], be32(v)[2], be32(v)[3]) == v,
        be32(v).len() == 4,
{
}

pub proof fn lemma_be32_of_value(b0: u8, b1: u8, b2: u8, b3: u8)
    ensures
        be32(be32_value(b0, b1, b2, b3)) == seq![b0, b1, b2, b3],
        be32_value(b0, b1, b2, b3) <= 0xffff_ffff,
{
    let v = be32_value(b0, b1, b2, b3) as int;
    let r2 = (b1 as int) * 256 + (b2 as int);
    let r3 = (b0 as int) * 256 + (b1 as int);
    lemma_fundamental_div_mod_converse(v, 16777216, b0 as int, (b1 as int) * 65536 + (b2 as int) * 256 + (b3 as int));
    lemma_fundamental_div_mod_converse(v, 65536, r3, (b2 as int) * 256 + (b3 as int));
    lemma_fundamental_div_mod_converse(r3, 256, b0 as int, b1 as int);
    lemma_fundamental_div_mod_converse(v, 256, (b0 as int) * 65536 + r2, b3 as int);
    lemma_fundamental_div_mod_converse((b0 as int) * 65536 + r2, 256, (b0 as int) * 256 + (b1 as int), b2 as int);
    assert(be32(be32_value(b0, b1, b2, b3)) =~= seq![b0, b1, b2, b3]);
}

/// Two bytes holding `v` in big-endian order.
pub fn u16_to_be(v: u16) -> (r: [u8; 2])
    ensures
        r@ == be16(v as nat),
{
    let r = [(v / 256) as u8, (v % 256) as u8];
    assert(r@ =~= be16(v as nat));
    r
}

/// The `u16` stored big-endian in two bytes.
pub fn u16_from_be(hi: u8, lo: u8) -> (r: u16)
    ensures
        r as nat == be16_value(hi, lo),
{
    (hi as u16) * 256 + (lo as u16)
}

/// Four bytes holding `v` in big-endian order.
pub fn u32_to_be(v: u32) -> (r: [u8; 4])
    ensures
        r@ == be32(v as nat),
{
    let r = [(v / 16777216) as u8, ((v / 65536) % 256) as u8, ((v / 256) % 256) as u8, (v % 256) as u8];
    assert(r@ =~= be32(v as nat));
    r
}

/// The `u32` stored big-endian in four bytes.
pub fn u32_from_be(b0: u8, b1: u8, b2: u8, b3: u8) -> (r: u32)
    ensures
        r as nat == be32_value(b0, b1, b2, b3),
{
    (b0 as u32) * 16777216 + (b1 as u32) * 65536 + (b2 as u32) * 256 + (b3 as u32)
}

/// Appends every byte of `src` to `dst`.
pub fn append_bytes(dst: &mut Vec<u8>, src: &[u8])
    ensures
        final(dst)@ == old(dst)@ + src@,
{
    let ghost start = dst@;
    let mut i: usize = 0;
    while i < src.len()
        invariant
            i <= src@.len(),
            dst@ == start + src@.subrange(0, i as int),
        decreases src@.len() - i,
    {
        dst.push(src[i]);
        i = i + 1;
        assert(dst@ =~= start + src@.subrange(0, i as int));
    }
    assert(src@.subrange(0, i as int) =~= src@);
}

/// The bytes of `data` from `start` to its end.
pub fn tail(data: &[u8], start: usize) -> (r: &[u8])
    requires
        start <= data@.len(),
    ensures
        r@ == data@.subrange(start as int, data@.len() as int),
{
    slice_subrange(data, start, data.len())
}

/// Copies a byte slice into a new vector.
pub fn copy_bytes(src: &[u8]) -> (r: Vec<u8>)
    ensures
        r@ == src@,
{
    let mut v: Vec<u8> = Vec::new();
    append_bytes(&mut v, src);
    assert(v@ =~= src@);
    v
}

/// Whether two byte sequences are equal.
pub fn bytes_equal(a: &[u8], b: &[u8]) -> (r: bool)
    ensures
        r == (a@ == b@),
{
    if a.len() != b.len() {
        return false;
    }
    let mut i: usize = 0;
    while i < a.len()
        invariant
            a@.len() == b@.len(),
            i <= a@.len(),
            forall|j: int| 0 <= j < i ==> a@[j] == b@[j],
        decreases a@.len() - i,
    {
        if a[i] != b[i] {
            return false;
        }
        i = i + 1;
    }
    assert(a@ =~= b@);
    true
}

/// Whether the byte `c` occurs in `a`.
pub fn bytes_contain(a: &[u8], c: u8) -> (r: bool)
    ensures
        r == a@.contains(c),
{
    let mut i: usize = 0;
    while i < a.len()
        invariant
            i <= a@.len(),
            forall|j: int| 0 <= j < i ==> a@[j] != c,
        decreases a@.len() - i,
    {
        if a[i] == c {
            assert(a@[i as int] == c);
            return true;
        }
        i = i + 1;
    }
    false
}

} // verus!
