use bitvec::ptr::Address;
use bitvec::radium::{IsANum, IsBits};
use core::marker::PhantomData;

/// Asks of a type whether it has a capability. The inherent answer exists
/// only where the bound holds; everywhere else the trait's answer is found.
struct Probe<T>(PhantomData<T>);

trait Lacking {
    fn is_bits(&self) -> bool {
        false
    }

    fn is_a_num(&self) -> bool {
        false
    }
}

impl<T> Lacking for Probe<T> {}

impl<T: IsBits> Probe<T> {
    fn is_bits(&self) -> bool {
        true
    }
}

impl<T: IsANum> Probe<T> {
    fn is_a_num(&self) -> bool {
        true
    }
}

fn probe<T>() -> Probe<T> {
    Probe(PhantomData)
}

#[test]
fn absent_traits() {
    assert!(!probe::<bool>().is_a_num());
    assert!(!probe::<Address>().is_bits() && !probe::<Address>().is_a_num());
}

#[test]
fn present_traits() {
    assert!(probe::<bool>().is_bits());
    assert!(probe::<usize>().is_bits() && probe::<usize>().is_a_num());
}
