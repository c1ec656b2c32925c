//! Integers as bytes, in either byte order.
use vstd::prelude::*;
use crate::options::Endianness;

verus! {

/// Byte `k` of `x`, counted from the least significant.
pub open spec fn spec_byte_of(x: nat, k: nat) -> u8
    decreases k,
{
    if k == 0 {
        (x % 256) as u8
    } else {
        spec_byte_of(x / 256, (k - 1) as nat)
    }
}

/// The lowest `n` bytes of `x` in the given order: most significant first
/// for big-endian, least significant first for little-endian.
pub open spec fn spec_int_bytes(x: nat, n: nat, end: Endianness) -> Seq<u8> {
    match end {
        Endianness::BigEndian => Seq::new(n, |i: int| spec_byte_of(x, (n - 1 - i) as nat)),
        Endianness::LittleEndian => Seq::new(n, |i: int| spec_byte_of(x, i as nat)),
    }
}

/// Byte `k` of `x`, counted from the least significant.
pub fn byte_of(x: u128, k: usize) -> (b: u8)
    ensures
        b == spec_byte_of(x as nat, k as nat),
    decreases k,
{
    if k == 0 {
        (x % 256) as u8
    } else {
        byte_of(x / 256, k - 1)
    }
}

/// An integer that can be laid out as `N` bytes.
pub trait EndianBytes<const N: usize> {
    /// The bytes of the value in the given order.
    spec fn spec_to_bytes(&self, end: Endianness) -> Seq<u8>;

    /// The value has `N` bytes.
    proof fn lemma_bytes_len(&self, end: Endianness)
        ensures
            self.spec_to_bytes(end).len() == N,
    ;

    /// The bytes of the value in the given order.
    fn to_bytes(&self, end: Endianness) -> (b: [u8; N])
        ensures
            b@ == self.spec_to_bytes(end),
    ;
}

impl EndianBytes<1> for u8 {
    open spec fn spec_to_bytes(&self, end: Endianness) -> Seq<u8> {
        seq![*self]
    }

    proof fn lemma_bytes_len(&self, end: Endianness) {
    }

    fn to_bytes(&self, _end: Endianness) -> (b: [u8; 1]) {
        let b: [u8; 1] = [*self];
        assert(b@ =~= seq![*self]);
        b
    }
}

impl EndianBytes<1> for i8 {
    open spec fn spec_to_bytes(&self, end: Endianness) -> Seq<u8> {
        seq![*self as u8]
    }

    proof fn lemma_bytes_len(&self, end: Endianness) {
    }

    fn to_bytes(&self, _end: Endianness) -> (b: [u8; 1]) {
        let b: [u8; 1] = [*self as u8];
        assert(b@ =~= seq![*self as u8]);
        b
    }
}

/// The two bytes of `x` in the given order.
pub fn bytes_2(x: u16, end: Endianness) -> (b: [u8; 2])
    ensures
        b@ == spec_int_bytes(x as nat, 2, end),
{
    let v: u128 = x as u128;
    let b: [u8; 2] = match end {
        Endianness::BigEndian => [byte_of(v, 1), byte_of(v, 0)],
        Endianness::LittleEndian => [byte_of(v, 0), byte_of(v, 1)],
    };
    assert(b@ =~= spec_int_bytes(x as nat, 2, end));
    b
}

/// The four bytes of `x` in the given order.
pub fn bytes_4(x: u32, end: Endianness) -> (b: [u8; 4])
    ensures
        b@ == spec_int_bytes(x as nat, 4, end),
{
    let v: u128 = x as u128;
    let b: [u8; 4] = match end {
        Endianness::BigEndian => [byte_of(v, 3), byte_of(v, 2), byte_of(v, 1), byte_of(v, 0)],
        Endianness::LittleEndian => [byte_of(v, 0), byte_of(v, 1), byte_of(v, 2), byte_of(v, 3)],
    };
    assert(b@ =~= spec_int_bytes(x as nat, 4, end));
    b
}

/// The eight bytes of `x` in the given order.
pub fn bytes_8(x: u64, end: Endianness) -> (b: [u8; 8])
    ensures
        b@ == spec_int_bytes(x as nat, 8, end),
{
    let v: u128 = x as u128;
    let b: [u8; 8] = match end {
        Endianness::BigEndian => [
            byte_of(v, 7),
            byte_of(v, 6),
            byte_of(v, 5),
            byte_of(v, 4),
            byte_of(v, 3),
            byte_of(v, 2),
            byte_of(v, 1),
            byte_of(v, 0),
        ],
        Endianness::LittleEndian => [
            byte_of(v, 0),
            byte_of(v, 1),
            byte_of(v, 2),
            byte_of(v, 3),
            byte_of(v, 4),
            byte_of(v, 5),
            byte_of(v, 6),
            byte_of(v, 7),
        ],
    };
    assert(b@ =~= spec_int_bytes(x as nat, 8, end));
    b
}

/// The sixteen bytes of `x` in the given order.
pub fn bytes_16(x: u128, end: Endianness) -> (b: [u8; 16])
    ensures
        b@ == spec_int_bytes(x as nat, 16, end),
{
    let b: [u8; 16] = match end {
        Endianness::BigEndian => [
            byte_of(x, 15),
            byte_of(x, 14),
            byte_of(x, 13),
            byte_of(x, 12),
            byte_of(x, 11),
            byte_of(x, 10),
            byte_of(x, 9),
            byte_of(x, 8),
            byte_of(x, 7),
            byte_of(x, 6),
            byte_of(x, 5),
            byte_of(x, 4),
            byte_of(x, 3),
            byte_of(x, 2),
            byte_of(x, 1),
            byte_of(x, 0),
        ],
        Endianness::LittleEndian => [
            byte_of(x, 0),
            byte_of(x, 1),
            byte_of(x, 2),
            byte_of(x, 3),
            byte_of(x, 4),
            byte_of(x, 5),
            byte_of(x, 6),
            byte_of(x, 7),
            byte_of(x, 8),
            byte_of(x, 9),
            byte_of(x, 10),
            byte_of(x, 11),
            byte_of(x, 12),
            byte_of(x, 13),
            byte_of(x, 14),
            byte_of(x, 15),
        ],
    };
    assert(b@ =~= spec_int_bytes(x as nat, 16, end));
    b
}

impl EndianBytes<2> for u16 {
    open spec fn spec_to_bytes(&self, end: Endianness) -> Seq<u8> {
        spec_int_bytes(*self as nat, 2, end)
    }

    proof fn lemma_bytes_len(&self, end: Endianness) {
    }

    fn to_bytes(&self, endianness: Endianness) -> (b: [u8; 2]) {
        bytes_2(*self, endianness)
    }
}

impl EndianBytes<2> for i16 {
    open spec fn spec_to_bytes(&self, end: Endianness) -> Seq<u8> {
        spec_int_bytes((*self as u16) as nat, 2, end)
    }

    proof fn lemma_bytes_len(&self, end: Endianness) {
    }

    fn to_bytes(&self, endianness: Endianness) -> (b: [u8; 2]) {
        bytes_2(*self as u16, endianness)
    }
}

impl EndianBytes<4> for u32 {
    open spec fn spec_to_bytes(&self, end: Endianness) -> Seq<u8> {
        spec_int_bytes(*self as nat, 4, end)
    }

    proof fn lemma_bytes_len(&self, end: Endianness) {
    }

    fn to_bytes(&self, endianness: Endianness) -> (b: [u8; 4]) {
        bytes_4(*self, endianness)
    }
}

impl EndianBytes<4> for i32 {
    open spec fn spec_to_bytes(&self, end: Endianness) -> Seq<u8> {
        spec_int_bytes((*self as u32) as nat, 4, end)
    }

    proof fn lemma_bytes_len(&self, end: Endianness) {
    }

    fn to_bytes(&self, endianness: Endianness) -> (b: [u8; 4]) {
        bytes_4(*self as u32, endianness)
    }
}

impl EndianBytes<8> for u64 {
    open spec fn spec_to_bytes(&self, end: Endianness) -> Seq<u8> {
        spec_int_bytes(*self as nat, 8, end)
    }

    proof fn lemma_bytes_len(&self, end: Endianness) {
    }

    fn to_bytes(&self, endianness: Endianness) -> (b: [u8; 8]) {
        bytes_8(*self, endianness)
    }
}

impl EndianBytes<8> for i64 {
    open spec fn spec_to_bytes(&self, end: Endianness) -> Seq<u8> {
        spec_int_bytes((*self as u64) as nat, 8, end)
    }

    proof fn lemma_bytes_len(&self, end: Endianness) {
    }

    fn to_bytes(&self, endianness: Endianness) -> (b: [u8; 8]) {
        bytes_8(*self as u64, endianness)
    }
}

impl EndianBytes<16> for u128 {
    open spec fn spec_to_bytes(&self, end: Endianness) -> Seq<u8> {
        spec_int_bytes(*self as nat, 16, end)
    }

    proof fn lemma_bytes_len(&self, end: Endianness) {
    }

    fn to_bytes(&self, endianness: Endianness) -> (b: [u8; 16]) {
        bytes_16(*self, endianness)
    }
}

impl EndianBytes<16> for i128 {
    open spec fn spec_to_bytes(&self, end: Endianness) -> Seq<u8> {
        spec_int_bytes((*self as u128) as nat, 16, end)
    }

    proof fn lemma_bytes_len(&self, end: Endianness) {
    }

    fn to_bytes(&self, endianness: Endianness) -> (b: [u8; 16]) {
        bytes_16(*self as u128, endianness)
    }
}

} // verus!
