//! The integers that serve as elements of bit storage, and how a single bit
//! of one is read and written.
use crate::radium::IsBits;
use vstd::prelude::*;

verus! {

/// An unsigned integer that can be the element of a bit region.
///
/// The bits of an element are spoken of by their physical position, counted
/// from the least significant bit.
pub trait BitMemory: IsBits {
    /// The number of bits in one element.
    spec fn width() -> nat;

    /// Whether the bit at the position `pos` is set.
    spec fn bit(self, pos: nat) -> bool;

    /// An element is 8, 16, 32 or 64 bits wide.
    proof fn lemma_width()
        ensures
            Self::width() == 8 || Self::width() == 16 || Self::width() == 32 || Self::width()
                == 64,
    ;

    /// The bitwise operations work on each position by itself.
    proof fn lemma_bitwise(a: Self, b: Self, p: nat)
        requires
            p < Self::width(),
        ensures
            a.or_with(b).bit(p) == (a.bit(p) || b.bit(p)),
            a.and_with(b).bit(p) == (a.bit(p) && b.bit(p)),
            a.xor_with(b).bit(p) == (a.bit(p) != b.bit(p)),
            a.complement().bit(p) == !a.bit(p),
    ;

    /// The number of bits in one element.
    fn bits() -> (w: u8)
        ensures
            w == Self::width(),
    ;

    /// The element with no bit set.
    fn zero() -> (r: Self)
        ensures
            forall|p: nat| p < Self::width() ==> !#[trigger] r.bit(p),
    ;

    /// The element with the bit at `pos` set and no other.
    fn mask(pos: u8) -> (r: Self)
        requires
            pos < Self::width(),
        ensures
            forall|p: nat| p < Self::width() ==> #[trigger] r.bit(p) == (p == pos),
    ;

    /// Reads one bit.
    fn get_bit(self, pos: u8) -> (b: bool)
        requires
            pos < Self::width(),
        ensures
            b == self.bit(pos as nat),
    ;
}

proof fn lemma_positions_u8(a: u8, b: u8, pos: u8, p: u8)
    by (bit_vector)
    requires
        pos < 8,
        p < 8,
    ensures
        ((a | b) >> p) & 1 == 1 <==> ((a >> p) & 1 == 1 || (b >> p) & 1 == 1),
        ((a & b) >> p) & 1 == 1 <==> ((a >> p) & 1 == 1 && (b >> p) & 1 == 1),
        ((a ^ b) >> p) & 1 == 1 <==> ((a >> p) & 1 == 1) != ((b >> p) & 1 == 1),
        ((!a) >> p) & 1 == 1 <==> (a >> p) & 1 != 1,
        ((1u8 << pos) >> p) & 1 == 1 <==> p == pos,
        (0u8 >> p) & 1 == 0,
{
}

impl BitMemory for u8 {
    open spec fn width() -> nat {
        8
    }

    open spec fn bit(self, pos: nat) -> bool {
        (self >> (pos as u8)) & 1 == 1
    }

    proof fn lemma_width() {
    }

    proof fn lemma_bitwise(a: Self, b: Self, p: nat) {
        lemma_positions_u8(a, b, 0, p as u8);
    }

    fn bits() -> (w: u8) {
        8
    }

    fn zero() -> (r: Self) {
        proof {
            assert forall|p: nat| p < Self::width() implies !#[trigger] 0u8.bit(p) by {
                lemma_positions_u8(0, 0, 0, p as u8);
            }
        }
        0
    }

    fn mask(pos: u8) -> (r: Self) {
        let r: u8 = 1u8 << (pos as u8);
        proof {
            assert forall|p: nat| p < Self::width() implies #[trigger] r.bit(p) == (p == pos) by {
                lemma_positions_u8(0, 0, pos as u8, p as u8);
            }
        }
        r
    }

    fn get_bit(self, pos: u8) -> (b: bool) {
        (self >> (pos as u8)) & 1 == 1
    }
}

proof fn lemma_positions_u16(a: u16, b: u16, pos: u16, p: u16)
    by (bit_vector)
    requires
        pos < 16,
        p < 16,
    ensures
        ((a | b) >> p) & 1 == 1 <==> ((a >> p) & 1 == 1 || (b >> p) & 1 == 1),
        ((a & b) >> p) & 1 == 1 <==> ((a >> p) & 1 == 1 && (b >> p) & 1 == 1),
        ((a ^ b) >> p) & 1 == 1 <==> ((a >> p) & 1 == 1) != ((b >> p) & 1 == 1),
        ((!a) >> p) & 1 == 1 <==> (a >> p) & 1 != 1,
        ((1u16 << pos) >> p) & 1 == 1 <==> p == pos,
        (0u16 >> p) & 1 == 0,
{
}

impl BitMemory for u16 {
    open spec fn width() -> nat {
        16
    }

    open spec fn bit(self, pos: nat) -> bool {
        (self >> (pos as u16)) & 1 == 1
    }

    proof fn lemma_width() {
    }

    proof fn lemma_bitwise(a: Self, b: Self, p: nat) {
        lemma_positions_u16(a, b, 0, p as u16);
    }

    fn bits() -> (w: u8) {
        16
    }

    fn zero() -> (r: Self) {
        proof {
            assert forall|p: nat| p < Self::width() implies !#[trigger] 0u16.bit(p) by {
                lemma_positions_u16(0, 0, 0, p as u16);
            }
        }
        0
    }

    fn mask(pos: u8) -> (r: Self) {
        let r: u16 = 1u16 << (pos as u16);
        proof {
            assert forall|p: nat| p < Self::width() implies #[trigger] r.bit(p) == (p == pos) by {
                lemma_positions_u16(0, 0, pos as u16, p as u16);
            }
        }
        r
    }

    fn get_bit(self, pos: u8) -> (b: bool) {
        (self >> (pos as u16)) & 1 == 1
    }
}

proof fn lemma_positions_u32(a: u32, b: u32, pos: u32, p: u32)
    by (bit_vector)
    requires
        pos < 32,
        p < 32,
    ensures
        ((a | b) >> p) & 1 == 1 <==> ((a >> p) & 1 == 1 || (b >> p) & 1 == 1),
        ((a & b) >> p) & 1 == 1 <==> ((a >> p) & 1 == 1 && (b >> p) & 1 == 1),
        ((a ^ b) >> p) & 1 == 1 <==> ((a >> p) & 1 == 1) != ((b >> p) & 1 == 1),
        ((!a) >> p) & 1 == 1 <==> (a >> p) & 1 != 1,
        ((1u32 << pos) >> p) & 1 == 1 <==> p == pos,
        (0u32 >> p) & 1 == 0,
{
}

impl BitMemory for u32 {
    open spec fn width() -> nat {
        32
    }

    open spec fn bit(self, pos: nat) -> bool {
        (self >> (pos as u32)) & 1 == 1
    }

    proof fn lemma_width() {
    }

    proof fn lemma_bitwise(a: Self, b: Self, p: nat) {
        lemma_positions_u32(a, b, 0, p as u32);
    }

    fn bits() -> (w: u8) {
        32
    }

    fn zero() -> (r: Self) {
        proof {
            assert forall|p: nat| p < Self::width() implies !#[trigger] 0u32.bit(p) by {
                lemma_positions_u32(0, 0, 0, p as u32);
            }
        }
        0
    }

    fn mask(pos: u8) -> (r: Self) {
        let r: u32 = 1u32 << (pos as u32);
        proof {
            assert forall|p: nat| p < Self::width() implies #[trigger] r.bit(p) == (p == pos) by {
                lemma_positions_u32(0, 0, pos as u32, p as u32);
            }
        }
        r
    }

    fn get_bit(self, pos: u8) -> (b: bool) {
        (self >> (pos as u32)) & 1 == 1
    }
}

proof fn lemma_positions_u64(a: u64, b: u64, pos: u64, p: u64)
    by (bit_vector)
    requires
        pos < 64,
        p < 64,
    ensures
        ((a | b) >> p) & 1 == 1 <==> ((a >> p) & 1 == 1 || (b >> p) & 1 == 1),
        ((a & b) >> p) & 1 == 1 <==> ((a >> p) & 1 == 1 && (b >> p) & 1 == 1),
        ((a ^ b) >> p) & 1 == 1 <==> ((a >> p) & 1 == 1) != ((b >> p) & 1 == 1),
        ((!a) >> p) & 1 == 1 <==> (a >> p) & 1 != 1,
        ((1u64 << pos) >> p) & 1 == 1 <==> p == pos,
        (0u64 >> p) & 1 == 0,
{
}

impl BitMemory for u64 {
    open spec fn width() -> nat {
        64
    }

    open spec fn bit(self, pos: nat) -> bool {
        (self >> (pos as u64)) & 1 == 1
    }

    proof fn lemma_width() {
    }

    proof fn lemma_bitwise(a: Self, b: Self, p: nat) {
        lemma_positions_u64(a, b, 0, p as u64);
    }

    fn bits() -> (w: u8) {
        64
    }

    fn zero() -> (r: Self) {
        proof {
            assert forall|p: nat| p < Self::width() implies !#[trigger] 0u64.bit(p) by {
                lemma_positions_u64(0, 0, 0, p as u64);
            }
        }
        0
    }

    fn mask(pos: u8) -> (r: Self) {
        let r: u64 = 1u64 << (pos as u64);
        proof {
            assert forall|p: nat| p < Self::width() implies #[trigger] r.bit(p) == (p == pos) by {
                lemma_positions_u64(0, 0, pos as u64, p as u64);
            }
        }
        r
    }

    fn get_bit(self, pos: u8) -> (b: bool) {
        (self >> (pos as u64)) & 1 == 1
    }
}

proof fn lemma_positions_usize(a: usize, b: usize, pos: usize, p: usize)
    by (bit_vector)
    requires
        pos < usize::BITS,
        p < usize::BITS,
    ensures
        ((a | b) >> p) & 1 == 1 <==> ((a >> p) & 1 == 1 || (b >> p) & 1 == 1),
        ((a & b) >> p) & 1 == 1 <==> ((a >> p) & 1 == 1 && (b >> p) & 1 == 1),
        ((a ^ b) >> p) & 1 == 1 <==> ((a >> p) & 1 == 1) != ((b >> p) & 1 == 1),
        ((!a) >> p) & 1 == 1 <==> (a >> p) & 1 != 1,
        ((1usize << pos) >> p) & 1 == 1 <==> p == pos,
        (0usize >> p) & 1 == 0,
{
}

impl BitMemory for usize {
    open spec fn width() -> nat {
        usize::BITS as nat
    }

    open spec fn bit(self, pos: nat) -> bool {
        (self >> (pos as usize)) & 1 == 1
    }

    proof fn lemma_width() {
    }

    proof fn lemma_bitwise(a: Self, b: Self, p: nat) {
        lemma_positions_usize(a, b, 0, p as usize);
    }

    fn bits() -> (w: u8) {
        usize::BITS as u8
    }

    fn zero() -> (r: Self) {
        proof {
            assert forall|p: nat| p < Self::width() implies !#[trigger] 0usize.bit(p) by {
                lemma_positions_usize(0, 0, 0, p as usize);
            }
        }
        0
    }

    fn mask(pos: u8) -> (r: Self) {
        let r: usize = 1usize << (pos as usize);
        proof {
            assert forall|p: nat| p < Self::width() implies #[trigger] r.bit(p) == (p == pos) by {
                lemma_positions_usize(0, 0, pos as usize, p as usize);
            }
        }
        r
    }

    fn get_bit(self, pos: u8) -> (b: bool) {
        (self >> (pos as usize)) & 1 == 1
    }
}

} // verus!
