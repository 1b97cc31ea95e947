use bitvec::plain::Plain;
use bitvec::ptr::Address;
use bitvec::radium::Radium;
use core::sync::atomic::Ordering;

fn cell<T: bitvec::radium::Fundamental>(value: T) -> Plain<T> {
    <Plain<T> as Radium<T>>::new(value)
}

#[test]
fn a_new_element_holds_its_value() {
    let c = cell(41u32);
    assert_eq!(c.load(Ordering::Relaxed), 41);
    assert_eq!(c.into_inner(), 41);
}

#[test]
fn get_mut_reaches_the_value() {
    let mut c = cell(5i16);
    *c.get_mut() = -9;
    assert_eq!(c.load(Ordering::SeqCst), -9);
}

#[test]
fn store_replaces_the_value() {
    let mut c = cell(1u64);
    c.store(u64::MAX, Ordering::Release);
    assert_eq!(c.load(Ordering::Acquire), u64::MAX);
}

#[test]
fn swap_returns_what_was_held() {
    let mut c = cell(7usize);
    assert_eq!(c.swap(8, Ordering::AcqRel), 7);
    assert_eq!(c.load(Ordering::Relaxed), 8);
}

#[test]
fn compare_and_swap_stores_on_a_match() {
    let mut c = cell(10u8);
    assert_eq!(c.compare_and_swap(10, 20, Ordering::SeqCst), 10);
    assert_eq!(c.load(Ordering::Relaxed), 20);
}

#[test]
fn compare_and_swap_keeps_on_a_mismatch() {
    let mut c = cell(10u8);
    assert_eq!(c.compare_and_swap(11, 20, Ordering::SeqCst), 10);
    assert_eq!(c.load(Ordering::Relaxed), 10);
}

#[test]
fn compare_exchange_reports_success_and_failure() {
    let mut c = cell(-3i32);
    assert_eq!(c.compare_exchange(-3, 4, Ordering::SeqCst, Ordering::Relaxed), Ok(-3));
    assert_eq!(c.load(Ordering::Relaxed), 4);
    assert_eq!(c.compare_exchange(-3, 5, Ordering::SeqCst, Ordering::Relaxed), Err(4));
    assert_eq!(c.load(Ordering::Relaxed), 4);
}

#[test]
fn weak_exchange_in_plain_mode_fails_only_on_a_mismatch() {
    let mut c = cell(1u16);
    assert_eq!(c.compare_exchange_weak(1, 2, Ordering::SeqCst, Ordering::Relaxed), Ok(1));
    assert_eq!(c.compare_exchange_weak(1, 3, Ordering::SeqCst, Ordering::Relaxed), Err(2));
    assert_eq!(c.load(Ordering::Relaxed), 2);
}

#[test]
fn bitwise_steps_on_an_integer() {
    let mut c = cell(0b1100_1010u8);
    assert_eq!(c.fetch_and(0b1111_0000, Ordering::Relaxed), 0b1100_1010);
    assert_eq!(c.load(Ordering::Relaxed), 0b1100_0000);
    assert_eq!(c.fetch_or(0b0000_0011, Ordering::Relaxed), 0b1100_0000);
    assert_eq!(c.load(Ordering::Relaxed), 0b1100_0011);
    assert_eq!(c.fetch_xor(0b1000_0001, Ordering::Relaxed), 0b1100_0011);
    assert_eq!(c.load(Ordering::Relaxed), 0b0100_0010);
    assert_eq!(c.fetch_nand(0b0100_0110, Ordering::Relaxed), 0b0100_0010);
    assert_eq!(c.load(Ordering::Relaxed), 0b1011_1101);
}

#[test]
fn bitwise_steps_on_a_signed_integer() {
    let mut c = cell(-1i8);
    assert_eq!(c.fetch_and(0x0f, Ordering::Relaxed), -1);
    assert_eq!(c.load(Ordering::Relaxed), 0x0f);
    assert_eq!(c.fetch_nand(0x05, Ordering::Relaxed), 0x0f);
    assert_eq!(c.load(Ordering::Relaxed), !0x05);
}

#[test]
fn bitwise_steps_on_a_bool() {
    let mut c = cell(true);
    assert!(c.fetch_and(false, Ordering::Relaxed));
    assert!(!c.load(Ordering::Relaxed));
    assert!(!c.fetch_or(true, Ordering::Relaxed));
    assert!(c.load(Ordering::Relaxed));
    assert!(c.fetch_xor(true, Ordering::Relaxed));
    assert!(!c.load(Ordering::Relaxed));
    assert!(!c.fetch_nand(true, Ordering::Relaxed));
    assert!(c.load(Ordering::Relaxed));
    assert!(c.fetch_nand(true, Ordering::Relaxed));
    assert!(!c.load(Ordering::Relaxed));
}

#[test]
fn addition_wraps_at_the_top() {
    let mut c = cell(250u8);
    assert_eq!(c.fetch_add(10, Ordering::Relaxed), 250);
    assert_eq!(c.load(Ordering::Relaxed), 4);
    let mut s = cell(i8::MAX);
    assert_eq!(s.fetch_add(1, Ordering::Relaxed), i8::MAX);
    assert_eq!(s.load(Ordering::Relaxed), i8::MIN);
    let mut wide = cell(usize::MAX);
    assert_eq!(wide.fetch_add(2, Ordering::Relaxed), usize::MAX);
    assert_eq!(wide.load(Ordering::Relaxed), 1);
}

#[test]
fn subtraction_wraps_at_the_bottom() {
    let mut c = cell(3u8);
    assert_eq!(c.fetch_sub(5, Ordering::Relaxed), 3);
    assert_eq!(c.load(Ordering::Relaxed), 254);
    let mut s = cell(i64::MIN);
    assert_eq!(s.fetch_sub(1, Ordering::Relaxed), i64::MIN);
    assert_eq!(s.load(Ordering::Relaxed), i64::MAX);
    let mut neg = cell(-100i8);
    assert_eq!(neg.fetch_add(-100, Ordering::Relaxed), -100);
    assert_eq!(neg.load(Ordering::Relaxed), 56);
}

#[test]
fn an_address_can_be_held_and_exchanged() {
    let mut c = cell(Address { raw: 0x1000 });
    assert_eq!(c.swap(Address { raw: 0x2000 }, Ordering::Relaxed), Address { raw: 0x1000 });
    assert_eq!(
        c.compare_exchange(
            Address { raw: 0x2000 },
            Address { raw: 0x3000 },
            Ordering::SeqCst,
            Ordering::Relaxed
        ),
        Ok(Address { raw: 0x2000 })
    );
    assert_eq!(c.compare_and_swap(Address { raw: 1 }, Address { raw: 2 }, Ordering::Relaxed).raw, 0x3000);
    assert_eq!(c.into_inner(), Address { raw: 0x3000 });
}

#[test]
fn a_fence_in_plain_mode_changes_nothing() {
    let c = cell(17u32);
    <Plain<u32> as Radium<u32>>::fence(Ordering::SeqCst);
    assert_eq!(c.load(Ordering::Relaxed), 17);
}
