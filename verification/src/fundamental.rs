//! The fundamental types that an element of storage can hold, and what each
//! of them can do: every integer is a set of bits and a number, `bool` is a
//! set of bits only.
use crate::radium::{Fundamental, IsANum, IsBits};
use vstd::prelude::*;

verus! {

impl Fundamental for i8 {
    fn same(self, other: Self) -> (b: bool) {
        self == other
    }
}

impl IsBits for i8 {
    open spec fn and_with(self, other: Self) -> Self {
        self & other
    }

    open spec fn or_with(self, other: Self) -> Self {
        self | other
    }

    open spec fn xor_with(self, other: Self) -> Self {
        self ^ other
    }

    open spec fn complement(self) -> Self {
        !self
    }

    fn bit_and(self, other: Self) -> (r: Self) {
        self & other
    }

    fn bit_or(self, other: Self) -> (r: Self) {
        self | other
    }

    fn bit_xor(self, other: Self) -> (r: Self) {
        self ^ other
    }

    fn bit_not(self) -> (r: Self) {
        !self
    }

    proof fn lemma_or_exchange(v: Self, a: Self, b: Self) {
        assert((v | a) | b == (v | b) | a && ((v | a) | b) & a == a && ((v | a) | b) & b == b)
            by (bit_vector);
    }
}

impl IsANum for i8 {
    open spec fn wrapped_sum(self, other: Self) -> Self {
        if self + other > i8::MAX {
            (self + other - (i8::MAX - i8::MIN + 1)) as i8
        } else if self + other < i8::MIN {
            (self + other + (i8::MAX - i8::MIN + 1)) as i8
        } else {
            (self + other) as i8
        }
    }

    open spec fn wrapped_difference(self, other: Self) -> Self {
        if self - other > i8::MAX {
            (self - other - (i8::MAX - i8::MIN + 1)) as i8
        } else if self - other < i8::MIN {
            (self - other + (i8::MAX - i8::MIN + 1)) as i8
        } else {
            (self - other) as i8
        }
    }

    fn wrapped_add(self, other: Self) -> (r: Self) {
        self.wrapping_add(other)
    }

    fn wrapped_sub(self, other: Self) -> (r: Self) {
        self.wrapping_sub(other)
    }
}

impl Fundamental for i16 {
    fn same(self, other: Self) -> (b: bool) {
        self == other
    }
}

impl IsBits for i16 {
    open spec fn and_with(self, other: Self) -> Self {
        self & other
    }

    open spec fn or_with(self, other: Self) -> Self {
        self | other
    }

    open spec fn xor_with(self, other: Self) -> Self {
        self ^ other
    }

    open spec fn complement(self) -> Self {
        !self
    }

    fn bit_and(self, other: Self) -> (r: Self) {
        self & other
    }

    fn bit_or(self, other: Self) -> (r: Self) {
        self | other
    }

    fn bit_xor(self, other: Self) -> (r: Self) {
        self ^ other
    }

    fn bit_not(self) -> (r: Self) {
        !self
    }

    proof fn lemma_or_exchange(v: Self, a: Self, b: Self) {
        assert((v | a) | b == (v | b) | a && ((v | a) | b) & a == a && ((v | a) | b) & b == b)
            by (bit_vector);
    }
}

impl IsANum for i16 {
    open spec fn wrapped_sum(self, other: Self) -> Self {
        if self + other > i16::MAX {
            (self + other - (i16::MAX - i16::MIN + 1)) as i16
        } else if self + other < i16::MIN {
            (self + other + (i16::MAX - i16::MIN + 1)) as i16
        } else {
            (self + other) as i16
        }
    }

    open spec fn wrapped_difference(self, other: Self) -> Self {
        if self - other > i16::MAX {
            (self - other - (i16::MAX - i16::MIN + 1)) as i16
        } else if self - other < i16::MIN {
            (self - other + (i16::MAX - i16::MIN + 1)) as i16
        } else {
            (self - other) as i16
        }
    }

    fn wrapped_add(self, other: Self) -> (r: Self) {
        self.wrapping_add(other)
    }

    fn wrapped_sub(self, other: Self) -> (r: Self) {
        self.wrapping_sub(other)
    }
}

impl Fundamental for i32 {
    fn same(self, other: Self) -> (b: bool) {
        self == other
    }
}

impl IsBits for i32 {
    open spec fn and_with(self, other: Self) -> Self {
        self & other
    }

    open spec fn or_with(self, other: Self) -> Self {
        self | other
    }

    open spec fn xor_with(self, other: Self) -> Self {
        self ^ other
    }

    open spec fn complement(self) -> Self {
        !self
    }

    fn bit_and(self, other: Self) -> (r: Self) {
        self & other
    }

    fn bit_or(self, other: Self) -> (r: Self) {
        self | other
    }

    fn bit_xor(self, other: Self) -> (r: Self) {
        self ^ other
    }

    fn bit_not(self) -> (r: Self) {
        !self
    }

    proof fn lemma_or_exchange(v: Self, a: Self, b: Self) {
        assert((v | a) | b == (v | b) | a && ((v | a) | b) & a == a && ((v | a) | b) & b == b)
            by (bit_vector);
    }
}

impl IsANum for i32 {
    open spec fn wrapped_sum(self, other: Self) -> Self {
        if self + other > i32::MAX {
            (self + other - (i32::MAX - i32::MIN + 1)) as i32
        } else if self + other < i32::MIN {
            (self + other + (i32::MAX - i32::MIN + 1)) as i32
        } else {
            (self + other) as i32
        }
    }

    open spec fn wrapped_difference(self, other: Self) -> Self {
        if self - other > i32::MAX {
            (self - other - (i32::MAX - i32::MIN + 1)) as i32
        } else if self - other < i32::MIN {
            (self - other + (i32::MAX - i32::MIN + 1)) as i32
        } else {
            (self - other) as i32
        }
    }

    fn wrapped_add(self, other: Self) -> (r: Self) {
        self.wrapping_add(other)
    }

    fn wrapped_sub(self, other: Self) -> (r: Self) {
        self.wrapping_sub(other)
    }
}

impl Fundamental for i64 {
    fn same(self, other: Self) -> (b: bool) {
        self == other
    }
}

impl IsBits for i64 {
    open spec fn and_with(self, other: Self) -> Self {
        self & other
    }

    open spec fn or_with(self, other: Self) -> Self {
        self | other
    }

    open spec fn xor_with(self, other: Self) -> Self {
        self ^ other
    }

    open spec fn complement(self) -> Self {
        !self
    }

    fn bit_and(self, other: Self) -> (r: Self) {
        self & other
    }

    fn bit_or(self, other: Self) -> (r: Self) {
        self | other
    }

    fn bit_xor(self, other: Self) -> (r: Self) {
        self ^ other
    }

    fn bit_not(self) -> (r: Self) {
        !self
    }

    proof fn lemma_or_exchange(v: Self, a: Self, b: Self) {
        assert((v | a) | b == (v | b) | a && ((v | a) | b) & a == a && ((v | a) | b) & b == b)
            by (bit_vector);
    }
}

impl IsANum for i64 {
    open spec fn wrapped_sum(self, other: Self) -> Self {
        if self + other > i64::MAX {
            (self + other - (i64::MAX - i64::MIN + 1)) as i64
        } else if self + other < i64::MIN {
            (self + other + (i64::MAX - i64::MIN + 1)) as i64
        } else {
            (self + other) as i64
        }
    }

    open spec fn wrapped_difference(self, other: Self) -> Self {
        if self - other > i64::MAX {
            (self - other - (i64::MAX - i64::MIN + 1)) as i64
        } else if self - other < i64::MIN {
            (self - other + (i64::MAX - i64::MIN + 1)) as i64
        } else {
            (self - other) as i64
        }
    }

    fn wrapped_add(self, other: Self) -> (r: Self) {
        self.wrapping_add(other)
    }

    fn wrapped_sub(self, other: Self) -> (r: Self) {
        self.wrapping_sub(other)
    }
}

impl Fundamental for isize {
    fn same(self, other: Self) -> (b: bool) {
        self == other
    }
}

impl IsBits for isize {
    open spec fn and_with(self, other: Self) -> Self {
        self & other
    }

    open spec fn or_with(self, other: Self) -> Self {
        self | other
    }

    open spec fn xor_with(self, other: Self) -> Self {
        self ^ other
    }

    open spec fn complement(self) -> Self {
        !self
    }

    fn bit_and(self, other: Self) -> (r: Self) {
        self & other
    }

    fn bit_or(self, other: Self) -> (r: Self) {
        self | other
    }

    fn bit_xor(self, other: Self) -> (r: Self) {
        self ^ other
    }

    fn bit_not(self) -> (r: Self) {
        !self
    }

    proof fn lemma_or_exchange(v: Self, a: Self, b: Self) {
        assert((v | a) | b == (v | b) | a && ((v | a) | b) & a == a && ((v | a) | b) & b == b)
            by (bit_vector);
    }
}

impl IsANum for isize {
    open spec fn wrapped_sum(self, other: Self) -> Self {
        if self + other > isize::MAX {
            (self + other - (isize::MAX - isize::MIN + 1)) as isize
        } else if self + other < isize::MIN {
            (self + other + (isize::MAX - isize::MIN + 1)) as isize
        } else {
            (self + other) as isize
        }
    }

    open spec fn wrapped_difference(self, other: Self) -> Self {
        if self - other > isize::MAX {
            (self - other - (isize::MAX - isize::MIN + 1)) as isize
        } else if self - other < isize::MIN {
            (self - other + (isize::MAX - isize::MIN + 1)) as isize
        } else {
            (self - other) as isize
        }
    }

    fn wrapped_add(self, other: Self) -> (r: Self) {
        self.wrapping_add(other)
    }

    fn wrapped_sub(self, other: Self) -> (r: Self) {
        self.wrapping_sub(other)
    }
}

impl Fundamental for u8 {
    fn same(self, other: Self) -> (b: bool) {
        self == other
    }
}

impl IsBits for u8 {
    open spec fn and_with(self, other: Self) -> Self {
        self & other
    }

    open spec fn or_with(self, other: Self) -> Self {
        self | other
    }

    open spec fn xor_with(self, other: Self) -> Self {
        self ^ other
    }

    open spec fn complement(self) -> Self {
        !self
    }

    fn bit_and(self, other: Self) -> (r: Self) {
        self & other
    }

    fn bit_or(self, other: Self) -> (r: Self) {
        self | other
    }

    fn bit_xor(self, other: Self) -> (r: Self) {
        self ^ other
    }

    fn bit_not(self) -> (r: Self) {
        !self
    }

    proof fn lemma_or_exchange(v: Self, a: Self, b: Self) {
        assert((v | a) | b == (v | b) | a && ((v | a) | b) & a == a && ((v | a) | b) & b == b)
            by (bit_vector);
    }
}

impl IsANum for u8 {
    open spec fn wrapped_sum(self, other: Self) -> Self {
        if self + other > u8::MAX {
            (self + other - (u8::MAX + 1)) as u8
        } else {
            (self + other) as u8
        }
    }

    open spec fn wrapped_difference(self, other: Self) -> Self {
        if self - other < 0 {
            (self - other + (u8::MAX + 1)) as u8
        } else {
            (self - other) as u8
        }
    }

    fn wrapped_add(self, other: Self) -> (r: Self) {
        self.wrapping_add(other)
    }

    fn wrapped_sub(self, other: Self) -> (r: Self) {
        self.wrapping_sub(other)
    }
}

impl Fundamental for u16 {
    fn same(self, other: Self) -> (b: bool) {
        self == other
    }
}

impl IsBits for u16 {
    open spec fn and_with(self, other: Self) -> Self {
        self & other
    }

    open spec fn or_with(self, other: Self) -> Self {
        self | other
    }

    open spec fn xor_with(self, other: Self) -> Self {
        self ^ other
    }

    open spec fn complement(self) -> Self {
        !self
    }

    fn bit_and(self, other: Self) -> (r: Self) {
        self & other
    }

    fn bit_or(self, other: Self) -> (r: Self) {
        self | other
    }

    fn bit_xor(self, other: Self) -> (r: Self) {
        self ^ other
    }

    fn bit_not(self) -> (r: Self) {
        !self
    }

    proof fn lemma_or_exchange(v: Self, a: Self, b: Self) {
        assert((v | a) | b == (v | b) | a && ((v | a) | b) & a == a && ((v | a) | b) & b == b)
            by (bit_vector);
    }
}

impl IsANum for u16 {
    open spec fn wrapped_sum(self, other: Self) -> Self {
        if self + other > u16::MAX {
            (self + other - (u16::MAX + 1)) as u16
        } else {
            (self + other) as u16
        }
    }

    open spec fn wrapped_difference(self, other: Self) -> Self {
        if self - other < 0 {
            (self - other + (u16::MAX + 1)) as u16
        } else {
            (self - other) as u16
        }
    }

    fn wrapped_add(self, other: Self) -> (r: Self) {
        self.wrapping_add(other)
    }

    fn wrapped_sub(self, other: Self) -> (r: Self) {
        self.wrapping_sub(other)
    }
}

impl Fundamental for u32 {
    fn same(self, other: Self) -> (b: bool) {
        self == other
    }
}

impl IsBits for u32 {
    open spec fn and_with(self, other: Self) -> Self {
        self & other
    }

    open spec fn or_with(self, other: Self) -> Self {
        self | other
    }

    open spec fn xor_with(self, other: Self) -> Self {
        self ^ other
    }

    open spec fn complement(self) -> Self {
        !self
    }

    fn bit_and(self, other: Self) -> (r: Self) {
        self & other
    }

    fn bit_or(self, other: Self) -> (r: Self) {
        self | other
    }

    fn bit_xor(self, other: Self) -> (r: Self) {
        self ^ other
    }

    fn bit_not(self) -> (r: Self) {
        !self
    }

    proof fn lemma_or_exchange(v: Self, a: Self, b: Self) {
        assert((v | a) | b == (v | b) | a && ((v | a) | b) & a == a && ((v | a) | b) & b == b)
            by (bit_vector);
    }
}

impl IsANum for u32 {
    open spec fn wrapped_sum(self, other: Self) -> Self {
        if self + other > u32::MAX {
            (self + other - (u32::MAX + 1)) as u32
        } else {
            (self + other) as u32
        }
    }

    open spec fn wrapped_difference(self, other: Self) -> Self {
        if self - other < 0 {
            (self - other + (u32::MAX + 1)) as u32
        } else {
            (self - other) as u32
        }
    }

    fn wrapped_add(self, other: Self) -> (r: Self) {
        self.wrapping_add(other)
    }

    fn wrapped_sub(self, other: Self) -> (r: Self) {
        self.wrapping_sub(other)
    }
}

impl Fundamental for u64 {
    fn same(self, other: Self) -> (b: bool) {
        self == other
    }
}

impl IsBits for u64 {
    open spec fn and_with(self, other: Self) -> Self {
        self & other
    }

    open spec fn or_with(self, other: Self) -> Self {
        self | other
    }

    open spec fn xor_with(self, other: Self) -> Self {
        self ^ other
    }

    open spec fn complement(self) -> Self {
        !self
    }

    fn bit_and(self, other: Self) -> (r: Self) {
        self & other
    }

    fn bit_or(self, other: Self) -> (r: Self) {
        self | other
    }

    fn bit_xor(self, other: Self) -> (r: Self) {
        self ^ other
    }

    fn bit_not(self) -> (r: Self) {
        !self
    }

    proof fn lemma_or_exchange(v: Self, a: Self, b: Self) {
        assert((v | a) | b == (v | b) | a && ((v | a) | b) & a == a && ((v | a) | b) & b == b)
            by (bit_vector);
    }
}

impl IsANum for u64 {
    open spec fn wrapped_sum(self, other: Self) -> Self {
        if self + other > u64::MAX {
            (self + other - (u64::MAX + 1)) as u64
        } else {
            (self + other) as u64
        }
    }

    open spec fn wrapped_difference(self, other: Self) -> Self {
        if self - other < 0 {
            (self - other + (u64::MAX + 1)) as u64
        } else {
            (self - other) as u64
        }
    }

    fn wrapped_add(self, other: Self) -> (r: Self) {
        self.wrapping_add(other)
    }

    fn wrapped_sub(self, other: Self) -> (r: Self) {
        self.wrapping_sub(other)
    }
}

impl Fundamental for usize {
    fn same(self, other: Self) -> (b: bool) {
        self == other
    }
}

impl IsBits for usize {
    open spec fn and_with(self, other: Self) -> Self {
        self & other
    }

    open spec fn or_with(self, other: Self) -> Self {
        self | other
    }

    open spec fn xor_with(self, other: Self) -> Self {
        self ^ other
    }

    open spec fn complement(self) -> Self {
        !self
    }

    fn bit_and(self, other: Self) -> (r: Self) {
        self & other
    }

    fn bit_or(self, other: Self) -> (r: Self) {
        self | other
    }

    fn bit_xor(self, other: Self) -> (r: Self) {
        self ^ other
    }

    fn bit_not(self) -> (r: Self) {
        !self
    }

    proof fn lemma_or_exchange(v: Self, a: Self, b: Self) {
        assert((v | a) | b == (v | b) | a && ((v | a) | b) & a == a && ((v | a) | b) & b == b)
            by (bit_vector);
    }
}

impl IsANum for usize {
    open spec fn wrapped_sum(self, other: Self) -> Self {
        if self + other > usize::MAX {
            (self + other - (usize::MAX + 1)) as usize
        } else {
            (self + other) as usize
        }
    }

    open spec fn wrapped_difference(self, other: Self) -> Self {
        if self - other < 0 {
            (self - other + (usize::MAX + 1)) as usize
        } else {
            (self - other) as usize
        }
    }

    fn wrapped_add(self, other: Self) -> (r: Self) {
        self.wrapping_add(other)
    }

    fn wrapped_sub(self, other: Self) -> (r: Self) {
        self.wrapping_sub(other)
    }
}

impl Fundamental for bool {
    fn same(self, other: Self) -> (b: bool) {
        self == other
    }
}

impl IsBits for bool {
    open spec fn and_with(self, other: Self) -> Self {
        self && other
    }

    open spec fn or_with(self, other: Self) -> Self {
        self || other
    }

    open spec fn xor_with(self, other: Self) -> Self {
        self != other
    }

    open spec fn complement(self) -> Self {
        !self
    }

    fn bit_and(self, other: Self) -> (r: Self) {
        self && other
    }

    fn bit_or(self, other: Self) -> (r: Self) {
        self || other
    }

    fn bit_xor(self, other: Self) -> (r: Self) {
        self != other
    }

    fn bit_not(self) -> (r: Self) {
        !self
    }

    proof fn lemma_or_exchange(v: Self, a: Self, b: Self) {
    }
}

} // verus!
