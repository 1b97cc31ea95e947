//! Bit spans: where a region of bits lies, packed into two machine words.
//!
//! A span names the address of the first element of a region, the order in
//! which the bits of an element are counted, the index of the first live bit
//! in the first element, and the number of live bits. It owns nothing and is
//! freely copied.
//!
//! # Encoding
//!
//! The first word is the address of the first element, as it is. The second
//! word holds the rest:
//!
//! ```text
//! length word = bits * 128 + tag * 64 + head
//! ```
//!
//! where `head` is below 64, and `tag` is 0 for [`BitOrder::Lsb0`] and 1 for
//! [`BitOrder::Msb0`]. The seven low bits that this reserves bound the length
//! of a region: it is at most [`REGION_MAX_BITS`], which is `usize::MAX / 128`.
use crate::mem::BitMemory;
use crate::order::BitOrder;
use crate::radium::Fundamental;
use crate::store::BitStore;
use core::marker::PhantomData;
use vstd::layout::{align_of, size_of};
use vstd::prelude::*;

verus! {

/// The address of an element of storage. It is neither a set of bits nor a
/// number: none of the bitwise or numeric operations exists for it.
#[derive(Clone, Copy, PartialEq, Eq, Debug, Structural)]
pub struct Address {
    pub raw: usize,
}

impl Fundamental for Address {
    fn same(self, other: Self) -> (b: bool) {
        self.raw == other.raw
    }
}

/// Why a span cannot be made of the parts given.
#[derive(Clone, Copy, PartialEq, Eq, Debug, Structural)]
pub enum BitSpanError {
    /// The address is null.
    Null,
    /// The address is not aligned for the element type.
    Misaligned,
    /// The index of the first bit is not inside one element.
    TooHigh,
    /// The region is longer than [`REGION_MAX_BITS`].
    TooLong,
}

/// The greatest number of bits that one region can hold.
pub const REGION_MAX_BITS: usize = usize::MAX / 128;

/// What a span describes.
pub struct SpanParts {
    /// The address of the first element.
    pub base: Address,
    /// The order in which the bits of an element are counted.
    pub order: BitOrder,
    /// The index of the first live bit inside the first element.
    pub head: nat,
    /// The number of live bits.
    pub bits: nat,
}

/// The length word that stands for an order, a head index and a bit count.
pub open spec fn pack(order: BitOrder, head: nat, bits: nat) -> nat {
    bits * 128 + order.tag() * 64 + head
}

/// The parts that an address word and a length word stand for.
pub open spec fn unpack(addr: usize, len: usize) -> SpanParts {
    SpanParts {
        base: Address { raw: addr },
        order: if (len / 64) % 2 == 0 {
            BitOrder::Lsb0
        } else {
            BitOrder::Msb0
        },
        head: (len % 64) as nat,
        bits: (len / 128) as nat,
    }
}

/// Why the parts cannot be encoded for elements of type `S`, if they cannot.
/// Where more than one reason holds, the first in this order is given: a null
/// address, a misaligned address, a head index outside one element, a length
/// over the maximum.
pub open spec fn rejection<S: BitStore>(base: Address, head: nat, bits: nat) -> Option<
    BitSpanError,
> {
    if base.raw == 0 {
        Some(BitSpanError::Null)
    } else if base.raw as nat % align_of::<S>() != 0 {
        Some(BitSpanError::Misaligned)
    } else if head >= S::Mem::width() {
        Some(BitSpanError::TooHigh)
    } else if bits > REGION_MAX_BITS {
        Some(BitSpanError::TooLong)
    } else {
        None
    }
}

/// Whether the two words are the encoding of a span over elements of type
/// `S`.
pub open spec fn is_encoding<S: BitStore>(addr: usize, len: usize) -> bool {
    rejection::<S>(unpack(addr, len).base, unpack(addr, len).head, unpack(addr, len).bits)
        is None
}

/// The number of elements that a region touches: the bits from the start of
/// the first element to the last live bit, in whole elements, rounded up.
pub open spec fn elements_for(head: nat, bits: nat, width: nat) -> nat {
    ((head + bits + width - 1) / (width as int)) as nat
}

/// The number of elements is the least that holds every bit from the start
/// of the first element to the last live bit: `ceil((head + bits) / width)`.
/// A region that begins at the first bit of its first element lies in
/// `ceil(bits / width)` elements, and in none where it has no bits.
pub proof fn lemma_elements_is_ceiling(head: nat, bits: nat, width: nat)
    requires
        width > 0,
    ensures
        elements_for(head, bits, width) * width >= head + bits,
        elements_for(head, bits, width) * width < head + bits + width,
        elements_for(0, 0, width) == 0,
{
    let total = (head + bits + width - 1) as int;
    let w = width as int;
    vstd::arithmetic::div_mod::lemma_fundamental_div_mod(total, w);
    vstd::arithmetic::div_mod::lemma_mod_pos_bound(total, w);
    vstd::arithmetic::div_mod::lemma_div_pos_is_pos(total, w);
    assert((total / w) * w == w * (total / w)) by (nonlinear_arith);
    vstd::arithmetic::div_mod::lemma_basic_div(w - 1, w);
}

/// Encoding loses nothing: the length word of any order, any head index below
/// 64 and any length up to the maximum fits a machine word, and decodes to
/// the parts it was made of.
pub proof fn lemma_round_trip(base: Address, order: BitOrder, head: nat, bits: nat)
    requires
        head < 64,
        bits <= REGION_MAX_BITS,
    ensures
        pack(order, head, bits) <= usize::MAX,
        unpack(base.raw, pack(order, head, bits) as usize) == (SpanParts {
            base,
            order,
            head,
            bits,
        }),
{
    let len = pack(order, head, bits) as int;
    let tag = order.tag() as int;
    assert(usize::MAX == 0xffff_ffff || usize::MAX == 0xffff_ffff_ffff_ffff);
    assert(len <= usize::MAX);
    vstd::arithmetic::div_mod::lemma_fundamental_div_mod_converse(
        len,
        64,
        bits * 2 + tag,
        head as int,
    );
    vstd::arithmetic::div_mod::lemma_fundamental_div_mod_converse(
        len,
        128,
        bits as int,
        tag * 64 + head,
    );
    vstd::arithmetic::div_mod::lemma_fundamental_div_mod_converse(
        bits * 2 + tag,
        2,
        bits as int,
        tag,
    );
}

/// Decoding loses nothing either: the parts of any length word encode to
/// that word again.
pub proof fn lemma_words_round_trip(addr: usize, len: usize)
    ensures
        unpack(addr, len).head < 64,
        unpack(addr, len).bits <= REGION_MAX_BITS,
        pack(unpack(addr, len).order, unpack(addr, len).head, unpack(addr, len).bits) == len,
{
}

/// The index inside its element of the bit that lies `k` bits after the bit
/// with index `head`.
pub open spec fn stepped_head(head: nat, k: nat, width: nat) -> nat {
    (head + k) % width
}

/// How many elements after the element of the bit with index `head` the bit
/// `k` bits further on lies.
pub open spec fn stepped_elements(head: nat, k: nat, width: nat) -> nat {
    (head + k) / width
}

/// A step from the last bit of an element leads to the first bit of the next
/// one: the head index becomes 0 and the address moves on by one element. A
/// region that starts on that last bit and is longer than one bit therefore
/// touches a second element.
pub proof fn lemma_step_over_boundary(width: nat, bits: nat)
    requires
        width > 0,
        bits >= 2,
    ensures
        stepped_head((width - 1) as nat, 1, width) == 0,
        stepped_elements((width - 1) as nat, 1, width) == 1,
        elements_for((width - 1) as nat, bits, width) >= 2,
{
    assert((width - 1 + 1) % (width as int) == 0 && (width - 1 + 1) / (width as int) == 1)
        by (nonlinear_arith)
        requires
            width > 0,
    ;
    assert((width - 1 + bits + width - 1) / (width as int) >= 2) by (nonlinear_arith)
        requires
            width > 0,
            bits >= 2,
    ;
}

/// A step of `k` bits is a step of `k / width` whole elements and then one of
/// `k % width` bits.
proof fn lemma_step_in_two(head: nat, k: nat, width: nat)
    requires
        width > 0,
    ensures
        stepped_elements(head, k, width) == k / width + (head + k % width) / width,
        stepped_head(head, k, width) == (head + k % width) % width,
{
    let w = width as int;
    let rest = head + k % width;
    vstd::arithmetic::div_mod::lemma_fundamental_div_mod(k as int, w);
    assert(head + k == w * (k as int / w) + rest);
    vstd::arithmetic::div_mod::lemma_hoist_over_denominator(rest as int, k as int / w, width);
    vstd::arithmetic::div_mod::lemma_mod_multiples_vanish(k as int / w, rest as int, w);
    assert((k as int / w) * w == w * (k as int / w)) by (nonlinear_arith);
}

/// Whole elements after an aligned address lie at aligned addresses.
proof fn lemma_stays_aligned(addr: nat, elems: nat, size: nat, align: nat)
    requires
        align > 0,
        addr % align == 0,
        size % align == 0,
    ensures
        (addr + elems * size) % align == 0,
{
    let a = align as int;
    vstd::arithmetic::div_mod::lemma_fundamental_div_mod(addr as int, a);
    vstd::arithmetic::div_mod::lemma_fundamental_div_mod(size as int, a);
    let q = addr as int / a + elems * (size as int / a);
    assert(addr + elems * size == q * a) by (nonlinear_arith)
        requires
            addr == a * (addr as int / a),
            size == a * (size as int / a),
            q == addr as int / a + elems * (size as int / a),
    ;
    vstd::arithmetic::div_mod::lemma_mod_multiples_basic(q, a);
}

/// A length word keeps its order and its bit count when another head index
/// is put in place of its own.
proof fn lemma_new_head(len: usize, head: nat)
    requires
        head < 64,
    ensures
        len - len % 64 + head <= usize::MAX,
        unpack(0, (len - len % 64 + head) as usize).head == head,
        unpack(0, (len - len % 64 + head) as usize).order == unpack(0, len).order,
        unpack(0, (len - len % 64 + head) as usize).bits == unpack(0, len).bits,
{
    lemma_words_round_trip(0, len);
    let parts = unpack(0, len);
    assert(len - len % 64 + head == pack(parts.order, head, parts.bits));
    lemma_round_trip(Address { raw: 0 }, parts.order, head, parts.bits);
}

/// How far a step of `k` bits leads from the bit with index `head`: the
/// number of elements, and the index inside the element reached.
fn advance(head: usize, k: usize, width: usize) -> (r: (usize, usize))
    requires
        head < width,
        8 <= width <= 64,
    ensures
        r.0 == stepped_elements(head as nat, k as nat, width as nat),
        r.1 == stepped_head(head as nat, k as nat, width as nat),
        r.1 < width,
{
    proof {
        lemma_step_in_two(head as nat, k as nat, width as nat);
        vstd::arithmetic::div_mod::lemma_mod_pos_bound(k as int, width as int);
        vstd::arithmetic::div_mod::lemma_mod_pos_bound((head + k % width) as int, width as int);
        vstd::arithmetic::div_mod::lemma_div_is_ordered_by_denominator(k as int, 8, width as int);
        vstd::arithmetic::div_mod::lemma_div_is_ordered_by_denominator(
            (head + k % width) as int,
            8,
            width as int,
        );
    }
    let rest: usize = head + k % width;
    (k / width + rest / width, rest % width)
}

/// A span of bits over elements of type `S`: two machine words.
pub struct BitSpan<S: BitStore> {
    addr: usize,
    len: usize,
    elem: PhantomData<S>,
}

impl<S: BitStore> Clone for BitSpan<S> {
    fn clone(&self) -> (r: Self)
        ensures
            r == *self,
    {
        *self
    }
}

impl<S: BitStore> Copy for BitSpan<S> {

}

impl<S: BitStore> View for BitSpan<S> {
    type V = SpanParts;

    open spec fn view(&self) -> SpanParts {
        unpack(self.words().0, self.words().1)
    }
}

impl<S: BitStore> BitSpan<S> {
    #[verifier::type_invariant]
    spec fn well_formed(self) -> bool {
        is_encoding::<S>(self.addr, self.len)
    }

    /// The address word and the length word.
    pub closed spec fn words(self) -> (usize, usize) {
        (self.addr, self.len)
    }

    /// The number of elements that the region touches.
    pub open spec fn spec_elements(self) -> nat {
        elements_for(self@.head, self@.bits, S::Mem::width())
    }

    /// Encodes a span from its parts, or says why they do not make one.
    pub fn encode(base: Address, order: BitOrder, head: u8, bits: usize) -> (r: Result<
        Self,
        BitSpanError,
    >)
        ensures
            match r {
                Ok(span) => rejection::<S>(base, head as nat, bits as nat) is None && span@ == (
                SpanParts { base, order, head: head as nat, bits: bits as nat }),
                Err(e) => rejection::<S>(base, head as nat, bits as nat) == Some(e),
            },
    {
        if base.raw == 0 {
            return Err(BitSpanError::Null);
        }
        vstd::layout::layout_for_type_is_valid::<S>();
        let align = core::mem::align_of::<S>();
        if base.raw % align != 0 {
            return Err(BitSpanError::Misaligned);
        }
        proof {
            S::Mem::lemma_width();
        }
        if head >= S::Mem::bits() {
            return Err(BitSpanError::TooHigh);
        }
        if bits > REGION_MAX_BITS {
            return Err(BitSpanError::TooLong);
        }
        let tag: usize = match order {
            BitOrder::Lsb0 => 0,
            BitOrder::Msb0 => 64,
        };
        proof {
            lemma_round_trip(base, order, head as nat, bits as nat);
        }
        let len: usize = bits * 128 + tag + head as usize;
        Ok(BitSpan { addr: base.raw, len, elem: PhantomData })
    }

    /// Decodes the span into the parts it was encoded from.
    pub fn decode(&self) -> (parts: (Address, BitOrder, u8, usize))
        ensures
            parts.0 == self@.base,
            parts.1 == self@.order,
            parts.2 == self@.head,
            parts.3 == self@.bits,
    {
        (self.base(), self.order(), self.head(), self.len())
    }

    /// The address of the first element.
    pub fn base(&self) -> (base: Address)
        ensures
            base == self@.base,
            base.raw != 0,
            base.raw as nat % align_of::<S>() == 0,
    {
        proof {
            use_type_invariant(self);
        }
        Address { raw: self.addr }
    }

    /// The order in which the bits of an element are counted.
    pub fn order(&self) -> (order: BitOrder)
        ensures
            order == self@.order,
    {
        if (self.len / 64) % 2 == 0 {
            BitOrder::Lsb0
        } else {
            BitOrder::Msb0
        }
    }

    /// The index of the first live bit inside the first element.
    pub fn head(&self) -> (head: u8)
        ensures
            head == self@.head,
            head < S::Mem::width(),
    {
        proof {
            use_type_invariant(self);
        }
        (self.len % 64) as u8
    }

    /// The number of live bits.
    pub fn len(&self) -> (bits: usize)
        ensures
            bits == self@.bits,
            bits <= REGION_MAX_BITS,
    {
        self.len / 128
    }

    /// The two words of the span: the address word, then the length word.
    pub fn to_raw_parts(&self) -> (raw: (usize, usize))
        ensures
            raw == self.words(),
            is_encoding::<S>(raw.0, raw.1),
    {
        proof {
            use_type_invariant(self);
        }
        (self.addr, self.len)
    }

    /// Rebuilds a span from two words, without looking at them.
    ///
    /// The words must be the encoding of a span over `S`, as
    /// [`BitSpan::to_raw_parts`] gives them. Nothing here can tell such words
    /// from others, so the whole obligation is the caller's.
    pub fn from_raw_parts(addr: usize, len: usize) -> (span: Self)
        requires
            is_encoding::<S>(addr, len),
        ensures
            span.words() == (addr, len),
    {
        BitSpan { addr, len, elem: PhantomData }
    }

    /// The span of the same length and order that begins `k` bits further
    /// on, or `None` where the address of its first element would not fit a
    /// machine word.
    ///
    /// The head index becomes `(head + k) mod width`, and the address moves on
    /// by `(head + k) div width` elements.
    pub fn step(&self, k: usize) -> (r: Option<Self>)
        ensures
            match r {
                Some(span) => {
                    &&& span@.base.raw == self@.base.raw + stepped_elements(
                        self@.head,
                        k as nat,
                        S::Mem::width(),
                    ) * size_of::<S>()
                    &&& span@.head == stepped_head(self@.head, k as nat, S::Mem::width())
                    &&& span@.order == self@.order
                    &&& span@.bits == self@.bits
                },
                None => self@.base.raw + stepped_elements(self@.head, k as nat, S::Mem::width())
                    * size_of::<S>() > usize::MAX,
            },
    {
        vstd::layout::layout_for_type_is_valid::<S>();
        proof {
            use_type_invariant(self);
            S::Mem::lemma_width();
        }
        let head: usize = self.len % 64;
        let (elems, new_head) = advance(head, k, S::Mem::bits() as usize);
        let size = core::mem::size_of::<S>();
        proof {
            assert(elems * size >= 0) by (nonlinear_arith);
        }
        let offset = match elems.checked_mul(size) {
            Some(offset) => offset,
            None => {
                return None;
            },
        };
        let addr = match self.addr.checked_add(offset) {
            Some(addr) => addr,
            None => {
                return None;
            },
        };
        proof {
            lemma_stays_aligned(
                self.addr as nat,
                elems as nat,
                size_of::<S>(),
                align_of::<S>(),
            );
            lemma_new_head(self.len, new_head as nat);
        }
        Some(BitSpan { addr, len: self.len - head + new_head, elem: PhantomData })
    }

    /// Rebuilds a span from two words, or says why they are not the encoding
    /// of one.
    pub fn try_from_raw_parts(addr: usize, len: usize) -> (r: Result<Self, BitSpanError>)
        ensures
            match r {
                Ok(span) => is_encoding::<S>(addr, len) && span.words() == (addr, len),
                Err(e) => rejection::<S>(
                    unpack(addr, len).base,
                    unpack(addr, len).head,
                    unpack(addr, len).bits,
                ) == Some(e),
            },
    {
        proof {
            lemma_words_round_trip(addr, len);
        }
        let order = if (len / 64) % 2 == 0 {
            BitOrder::Lsb0
        } else {
            BitOrder::Msb0
        };
        match Self::encode(Address { raw: addr }, order, (len % 64) as u8, len / 128) {
            Ok(_) => Ok(BitSpan { addr, len, elem: PhantomData }),
            Err(e) => Err(e),
        }
    }

    /// The number of elements that the region touches.
    pub fn elements(&self) -> (n: usize)
        ensures
            n == self.spec_elements(),
    {
        proof {
            use_type_invariant(self);
            S::Mem::lemma_width();
        }
        let width: usize = S::Mem::bits() as usize;
        let head: usize = (self.len % 64) as usize;
        (head + self.len / 128 + width - 1) / width
    }
}

} // verus!
