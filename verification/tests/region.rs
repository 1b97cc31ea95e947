use bitvec::boxed::{BitBox, Pinned};
use bitvec::order::BitOrder;
use bitvec::plain::Plain;
use bitvec::ptr::{BitSpanError, REGION_MAX_BITS};
use bitvec::radium::Radium;
use bitvec::slice::BitSlice;
use core::sync::atomic::Ordering;

fn bytes(values: &[u8]) -> Vec<Plain<u8>> {
    values.iter().map(|value| <Plain<u8> as Radium<u8>>::new(*value)).collect()
}

fn held(words: &[Plain<u8>]) -> Vec<u8> {
    words.iter().map(|word| word.load(Ordering::Relaxed)).collect()
}

fn bits_of_box(b: &BitBox<Plain<u8>>) -> Vec<bool> {
    (0..b.len()).map(|i| b.get(i).unwrap()).collect()
}

#[test]
fn a_slice_counts_its_bits_in_the_order_given() {
    let words = bytes(&[0b0000_0101, 0b1000_0000]);
    let lsb = BitSlice::new(&words, BitOrder::Lsb0, 0, 16).unwrap();
    assert_eq!(lsb.len(), 16);
    assert_eq!(lsb.get(0), Some(true));
    assert_eq!(lsb.get(1), Some(false));
    assert_eq!(lsb.get(2), Some(true));
    assert_eq!(lsb.get(14), Some(false));
    assert_eq!(lsb.get(15), Some(true));
    assert_eq!(lsb.get(16), None);
    let msb = BitSlice::new(&words, BitOrder::Msb0, 0, 16).unwrap();
    assert_eq!(msb.get(0), Some(false));
    assert_eq!(msb.get(5), Some(true));
    assert_eq!(msb.get(7), Some(true));
    assert_eq!(msb.get(8), Some(true));
    assert_eq!(msb.get(9), Some(false));
}

#[test]
fn a_slice_begins_at_its_head() {
    let words = bytes(&[0b1000_0000, 0b0000_0011]);
    let slice = BitSlice::new(&words, BitOrder::Lsb0, 7, 3).unwrap();
    assert_eq!(slice.head(), 7);
    assert_eq!(slice.order(), BitOrder::Lsb0);
    assert_eq!(slice.get(0), Some(true));
    assert_eq!(slice.get(1), Some(true));
    assert_eq!(slice.get(2), Some(true));
    assert_eq!(slice.get(3), None);
}

#[test]
fn a_slice_must_end_in_its_last_element() {
    let words = bytes(&[0, 0]);
    assert!(BitSlice::new(&words, BitOrder::Lsb0, 8, 1).is_none());
    assert!(BitSlice::new(&words, BitOrder::Lsb0, 0, 17).is_none());
    assert!(BitSlice::new(&words, BitOrder::Lsb0, 0, 8).is_none());
    assert!(BitSlice::new(&words, BitOrder::Lsb0, 0, REGION_MAX_BITS + 1).is_none());
    assert!(BitSlice::new(&words, BitOrder::Lsb0, 0, 9).is_some());
    assert!(BitSlice::new(&words, BitOrder::Lsb0, 0, 16).is_some());
    assert!(BitSlice::new(&words, BitOrder::Lsb0, 7, 9).is_some());
    assert!(BitSlice::new(&words, BitOrder::Lsb0, 7, 10).is_none());
    assert!(BitSlice::new(&words, BitOrder::Lsb0, 7, 1).is_none());
}

#[test]
fn a_box_holds_the_bits_it_was_made_from() {
    let words = bytes(&[0b1010_0110, 0b0000_1001]);
    let slice = BitSlice::new(&words, BitOrder::Msb0, 2, 11).unwrap();
    let boxed = BitBox::new(&slice);
    assert_eq!(boxed.len(), 11);
    let expected: Vec<bool> = (0..11).map(|i| slice.get(i).unwrap()).collect();
    assert_eq!(
        expected,
        vec![true, false, false, true, true, false, false, false, false, false, true]
    );
    assert_eq!(bits_of_box(&boxed), expected);
    assert_eq!(boxed.get(11), None);
    let span = boxed.bit_span();
    assert_eq!(span.head(), 2);
    assert_eq!(span.order(), BitOrder::Msb0);
    assert_eq!(span.len(), 11);
    assert_eq!(span.elements(), 2);
}

#[test]
fn a_box_copies_its_elements() {
    let mut words = bytes(&[0xff]);
    let boxed = {
        let slice = BitSlice::new(&words, BitOrder::Lsb0, 0, 8).unwrap();
        BitBox::new(&slice)
    };
    words[0].store(0, Ordering::Relaxed);
    assert_eq!(bits_of_box(&boxed), vec![true; 8]);
}

#[test]
fn a_box_of_no_bits_holds_no_element() {
    let none = bytes(&[]);
    let slice = BitSlice::new(&none, BitOrder::Lsb0, 0, 0).unwrap();
    let boxed = BitBox::new(&slice);
    assert_eq!(boxed.len(), 0);
    assert_eq!(boxed.bit_span().elements(), 0);
    assert_eq!(boxed.bit_span().head(), 0);
    assert_ne!(boxed.bit_span().base().raw, 0);
    assert_eq!(boxed.get(0), None);
    assert_eq!(boxed.into_vec().into_vec().len(), 0);
}

#[test]
fn a_box_of_no_bits_forgets_the_head() {
    let one = bytes(&[0xff]);
    let slice = BitSlice::new(&one, BitOrder::Msb0, 5, 0).unwrap();
    let boxed = BitBox::new(&slice);
    assert_eq!(boxed.len(), 0);
    assert_eq!(boxed.bit_span().head(), 0);
    assert_eq!(boxed.bit_span().order(), BitOrder::Msb0);
    assert_eq!(boxed.into_vec().into_vec().len(), 0);
}

#[test]
fn a_box_from_the_first_bit_holds_the_ceiling_of_its_length() {
    let words = bytes(&[0x5a; 6]);
    for bits in 0..=48usize {
        let needed = (bits + 7) / 8;
        let slice = BitSlice::new(&words[..needed], BitOrder::Lsb0, 0, bits).unwrap();
        let boxed = BitBox::new(&slice);
        assert_eq!(boxed.len(), bits);
        assert_eq!(boxed.bit_span().elements(), needed);
        assert_eq!(boxed.into_vec().into_vec().len(), needed);
    }
}

#[test]
fn the_address_of_a_box_is_that_of_its_elements() {
    let words = bytes(&[1, 2, 3]);
    let slice = BitSlice::new(&words, BitOrder::Lsb0, 0, 24).unwrap();
    let boxed = BitBox::new(&slice);
    let span = boxed.bit_span();
    assert_ne!(span.base().raw, 0);
    assert_eq!(span.base().raw % core::mem::align_of::<Plain<u8>>(), 0);
    assert_ne!(span.base().raw, words.as_ptr() as usize);
    let leaked = BitBox::leak(boxed);
    assert_eq!(leaked.as_elements().as_ptr() as usize, span.base().raw);
    assert_eq!(held(leaked.as_elements()), vec![1, 2, 3]);
}

#[test]
fn a_leaked_box_can_be_written() {
    let mut leaked = BitBox::leak(BitBox::<Plain<u8>>::repeat(false, BitOrder::Lsb0, 50).unwrap());
    assert_eq!(leaked.len(), 50);
    leaked.set(0, true);
    assert_eq!(leaked.get(0), Some(true));
    assert_eq!(leaked.get(1), Some(false));
    leaked.set(49, true);
    leaked.set(9, true);
    leaked.set(9, false);
    assert_eq!(held(leaked.as_elements()), vec![1, 0, 0, 0, 0, 0, 2]);
}

#[test]
fn writing_a_bit_leaves_the_others() {
    let words = bytes(&[0b0101_0101, 0b1111_0000]);
    let slice = BitSlice::new(&words, BitOrder::Msb0, 3, 10).unwrap();
    let mut leaked = BitBox::leak(BitBox::new(&slice));
    assert_eq!(leaked.head(), 3);
    assert_eq!(leaked.order(), BitOrder::Msb0);
    leaked.set(0, false);
    leaked.set(4, false);
    leaked.set(5, false);
    leaked.set(9, true);
    assert_eq!(held(leaked.as_elements()), vec![0b0100_0100, 0b0111_1000]);
    let now: Vec<bool> = (0..10).map(|i| leaked.get(i).unwrap()).collect();
    assert_eq!(now, vec![false, false, true, false, false, false, true, true, true, true]);
    assert_eq!(leaked.get(10), None);
}

#[test]
fn into_raw_gives_the_span_of_the_box() {
    let words = bytes(&[0xa5, 0x0f]);
    let slice = BitSlice::new(&words, BitOrder::Lsb0, 1, 12).unwrap();
    let boxed = BitBox::new(&slice);
    let span = boxed.bit_span().to_raw_parts();
    let raw = BitBox::into_raw(boxed);
    assert_eq!(raw.to_raw_parts(), span);
    assert_eq!(raw.head(), 1);
    assert_eq!(raw.len(), 12);
    assert_eq!(raw.elements(), 2);
}

#[test]
fn a_box_is_rebuilt_from_its_span_and_its_elements() {
    let words = bytes(&[0xa5, 0x0f]);
    let slice = BitSlice::new(&words, BitOrder::Lsb0, 1, 12).unwrap();
    let boxed = BitBox::new(&slice);
    let before = bits_of_box(&boxed);
    let span = boxed.bit_span();
    let elements = boxed.into_vec().into_vec().into_boxed_slice();
    let rebuilt = BitBox::from_raw(span, elements).unwrap();
    assert_eq!(rebuilt.len(), 12);
    assert_eq!(bits_of_box(&rebuilt), before);
    assert_eq!(rebuilt.bit_span().to_raw_parts(), span.to_raw_parts());
}

#[test]
fn a_rebuilt_box_is_where_its_elements_are() {
    let words = bytes(&[0xa5, 0x0f]);
    let slice = BitSlice::new(&words, BitOrder::Lsb0, 1, 12).unwrap();
    let span = BitBox::new(&slice).bit_span();
    let others = bytes(&[0x11, 0x22]).into_boxed_slice();
    let at = others.as_ptr() as usize;
    let rebuilt = BitBox::from_raw(span, others).unwrap();
    assert_eq!(rebuilt.bit_span().base().raw, at);
    assert_eq!(rebuilt.bit_span().head(), 1);
    assert_eq!(rebuilt.bit_span().len(), 12);
    assert_eq!(rebuilt.bit_span().order(), BitOrder::Lsb0);
    assert_eq!(held(&rebuilt.into_vec().into_vec()), vec![0x11, 0x22]);
}

#[test]
fn a_box_is_not_rebuilt_from_parts_that_do_not_fit() {
    let words = bytes(&[0xa5, 0x0f]);
    let slice = BitSlice::new(&words, BitOrder::Lsb0, 1, 12).unwrap();
    let span = BitBox::new(&slice).bit_span();
    assert!(BitBox::from_raw(span, bytes(&[1]).into_boxed_slice()).is_none());
    assert!(BitBox::from_raw(span, bytes(&[1, 2, 3]).into_boxed_slice()).is_none());
    assert!(BitBox::from_raw(span, bytes(&[1, 2]).into_boxed_slice()).is_some());
    let headed = bitvec::ptr::BitSpan::<Plain<u8>>::encode(span.base(), BitOrder::Lsb0, 3, 0).unwrap();
    assert!(BitBox::from_raw(headed, bytes(&[1]).into_boxed_slice()).is_none());
}

#[test]
fn a_box_becomes_a_vector_of_the_same_bits() {
    let words = bytes(&[0b0011_1100, 0b1100_0011, 0b0000_0001]);
    let slice = BitSlice::new(&words, BitOrder::Lsb0, 2, 15).unwrap();
    let boxed = BitBox::new(&slice);
    let before = bits_of_box(&boxed);
    let vector = boxed.into_vec();
    assert_eq!(vector.len(), 15);
    let after: Vec<bool> = (0..15).map(|i| vector.get(i).unwrap()).collect();
    assert_eq!(after, before);
    assert_eq!(vector.get(15), None);
    assert_eq!(vector.as_bitslice().head(), 2);
    assert_eq!(held(&vector.into_vec()), vec![0b0011_1100, 0b1100_0011, 0b0000_0001]);
}

#[test]
fn into_bitvec_and_into_vec_are_the_same() {
    let words = bytes(&[0x81]);
    let slice = BitSlice::new(&words, BitOrder::Msb0, 0, 8).unwrap();
    let a = BitBox::new(&slice).into_vec();
    let b = BitBox::new(&slice).into_bitvec();
    for i in 0..8 {
        assert_eq!(a.get(i), b.get(i));
    }
    assert_eq!(a.get(0), Some(true));
    assert_eq!(a.get(1), Some(false));
    assert_eq!(a.get(7), Some(true));
}

#[test]
fn a_pinned_box_is_the_box() {
    let words = bytes(&[0b0000_0110]);
    let slice = BitSlice::new(&words, BitOrder::Lsb0, 1, 3).unwrap();
    let pinned: Pinned<BitBox<Plain<u8>>> = BitBox::pin(&slice);
    assert_eq!(pinned.get_ref().len(), 3);
    assert_eq!(bits_of_box(pinned.get_ref()), vec![true, true, false]);
    let boxed = pinned.into_inner();
    assert_eq!(boxed.bit_span().head(), 1);
    assert_eq!(bits_of_box(&boxed), vec![true, true, false]);
}

#[test]
fn a_box_borrows_as_a_slice() {
    let words = bytes(&[0xf0, 0x01]);
    let slice = BitSlice::new(&words, BitOrder::Lsb0, 4, 5).unwrap();
    let boxed = BitBox::new(&slice);
    let view = boxed.as_bitslice();
    assert_eq!(view.len(), 5);
    assert_eq!(view.head(), 4);
    assert_eq!(held(view.as_elements()), vec![0xf0, 0x01]);
    let copy = BitBox::from_bitslice(&view);
    assert_eq!(bits_of_box(&copy), vec![true, true, true, true, true]);
}

#[test]
fn a_box_can_be_filled() {
    let ones = BitBox::<Plain<u16>>::repeat(true, BitOrder::Msb0, 20).unwrap();
    assert_eq!(ones.len(), 20);
    assert_eq!(ones.bit_span().elements(), 2);
    assert_eq!(ones.bit_span().head(), 0);
    assert!((0..20).all(|i| ones.get(i) == Some(true)));
    assert_eq!(ones.get(20), None);
    let zeros = BitBox::<Plain<u64>>::repeat(false, BitOrder::Lsb0, 130).unwrap();
    assert_eq!(zeros.bit_span().elements(), 3);
    assert!((0..130).all(|i| zeros.get(i) == Some(false)));
    let empty = BitBox::<Plain<u8>>::repeat(true, BitOrder::Lsb0, 0).unwrap();
    assert_eq!(empty.len(), 0);
    assert_eq!(empty.bit_span().elements(), 0);
}

#[test]
fn a_box_over_the_maximum_cannot_be_filled() {
    assert_eq!(
        BitBox::<Plain<u8>>::repeat(false, BitOrder::Lsb0, REGION_MAX_BITS + 1).err(),
        Some(BitSpanError::TooLong)
    );
}

#[test]
fn a_box_taken_apart_is_put_together_again() {
    let words = bytes(&[0b1100_0101, 0b0000_0110]);
    let slice = BitSlice::new(&words, BitOrder::Msb0, 4, 9).unwrap();
    let boxed = BitBox::new(&slice);
    let before = bits_of_box(&boxed);
    let raw = boxed.bit_span().to_raw_parts();
    let (span, elements) = boxed.into_parts();
    assert_eq!(span.to_raw_parts(), raw);
    assert_eq!(elements.as_ptr() as usize, span.base().raw);
    assert_eq!(held(&elements), vec![0b1100_0101, 0b0000_0110]);
    let rebuilt = BitBox::from_raw(span, elements).unwrap();
    assert_eq!(rebuilt.len(), 9);
    assert_eq!(bits_of_box(&rebuilt), before);
    assert_eq!(rebuilt.bit_span().to_raw_parts(), raw);
}

#[test]
fn the_elements_of_a_box_can_be_written_while_it_is_apart() {
    let (span, mut elements) = BitBox::<Plain<u8>>::repeat(false, BitOrder::Lsb0, 12)
        .unwrap()
        .into_parts();
    {
        let mut bits =
            bitvec::slice::BitSliceMut::new(&mut elements, span.order(), span.head(), span.len())
                .unwrap();
        bits.set(3, true);
        bits.set(11, true);
    }
    let rebuilt = BitBox::from_raw(span, elements).unwrap();
    let expected: Vec<bool> = (0..12).map(|i| i == 3 || i == 11).collect();
    assert_eq!(bits_of_box(&rebuilt), expected);
}

#[test]
fn a_writable_slice_must_end_in_its_last_element() {
    let mut words = bytes(&[0, 0]);
    assert!(bitvec::slice::BitSliceMut::new(&mut words, BitOrder::Lsb0, 9, 1).is_none());
    assert!(bitvec::slice::BitSliceMut::new(&mut words, BitOrder::Lsb0, 0, 3).is_none());
    assert!(bitvec::slice::BitSliceMut::new(&mut words, BitOrder::Lsb0, 1, 16).is_none());
    assert!(bitvec::slice::BitSliceMut::new(&mut words, BitOrder::Lsb0, 1, 15).is_some());
}

#[test]
fn a_vector_can_be_written_and_boxed_again() {
    let words = bytes(&[0b0000_0000, 0b1111_1111]);
    let slice = BitSlice::new(&words, BitOrder::Msb0, 6, 6).unwrap();
    let mut vector = BitBox::new(&slice).into_vec();
    assert_eq!(vector.len(), 6);
    vector.set(0, true);
    vector.set(5, false);
    vector.set(2, false);
    let after: Vec<bool> = (0..6).map(|i| vector.get(i).unwrap()).collect();
    assert_eq!(after, vec![true, false, false, true, true, false]);
    let boxed = vector.into_boxed_bitslice();
    assert_eq!(boxed.len(), 6);
    assert_eq!(boxed.bit_span().head(), 6);
    assert_eq!(boxed.bit_span().order(), BitOrder::Msb0);
    assert_eq!(bits_of_box(&boxed), vec![true, false, false, true, true, false]);
    assert_eq!(held(&boxed.into_vec().into_vec()), vec![0b0000_0010, 0b0110_1111]);
}

#[test]
fn a_vector_of_no_bits_boxes_to_no_element() {
    let boxed = BitBox::<Plain<u32>>::repeat(true, BitOrder::Lsb0, 0).unwrap();
    let again = boxed.into_vec().into_boxed_bitslice();
    assert_eq!(again.len(), 0);
    assert_eq!(again.bit_span().elements(), 0);
    assert_eq!(again.bit_span().head(), 0);
}

#[test]
fn a_region_from_the_last_bit_crosses_into_the_next_element() {
    let words: Vec<Plain<u64>> = [1u64 << 63, 0b10]
        .iter()
        .map(|value| <Plain<u64> as Radium<u64>>::new(*value))
        .collect();
    let slice = BitSlice::new(&words, BitOrder::Lsb0, 63, 3).unwrap();
    assert_eq!(slice.get(0), Some(true));
    assert_eq!(slice.get(1), Some(false));
    assert_eq!(slice.get(2), Some(true));
    let boxed = BitBox::new(&slice);
    assert_eq!(boxed.bit_span().elements(), 2);
    assert_eq!(boxed.bit_span().head(), 63);
    let second = boxed.bit_span().step(1).unwrap();
    assert_eq!(second.head(), 0);
    assert_eq!(second.base().raw, boxed.bit_span().base().raw + 8);
    let mut leaked = BitBox::leak(boxed);
    leaked.set(1, true);
    leaked.set(0, false);
    let now: Vec<u64> = leaked.as_elements().iter().map(|w| w.load(Ordering::Relaxed)).collect();
    assert_eq!(now, vec![0, 0b11]);
}

#[test]
fn the_most_significant_bit_comes_first_in_a_wide_element() {
    let words: Vec<Plain<u32>> = vec![<Plain<u32> as Radium<u32>>::new(0x8000_0001)];
    let slice = BitSlice::new(&words, BitOrder::Msb0, 0, 32).unwrap();
    assert_eq!(slice.get(0), Some(true));
    assert_eq!(slice.get(1), Some(false));
    assert_eq!(slice.get(30), Some(false));
    assert_eq!(slice.get(31), Some(true));
    let tail = BitSlice::new(&words, BitOrder::Msb0, 31, 1).unwrap();
    assert_eq!(tail.get(0), Some(true));
    assert_eq!(tail.get(1), None);
}
