//! Bit-addressable regions over ordinary word-addressable memory.
//!
//! The crate has three parts.
//!
//! - [`radium`] is one operation set over an element of storage, whether the
//!   element is held as an ordinary value or in a hardware atomic. [`plain`]
//!   is the ordinary mode; [`operation`] has the steps as data and states
//!   that every mode gives the same results. [`fundamental`] says which
//!   values an element can hold and what each of them can do.
//! - [`ptr`] packs the address, the bit order, the first bit and the length of
//!   a region into two machine words and unpacks them again. [`order`] and
//!   [`mem`] say where a bit lies inside an element.
//! - [`boxed`] is the region that owns its elements; [`slice`] and [`vec`]
//!   are the borrowed and the growable views it is made from and turned
//!   into. [`store`] names the element types a region can be made of.
pub mod boxed;
pub mod fundamental;
pub mod mem;
pub mod operation;
pub mod order;
pub mod plain;
pub mod ptr;
pub mod radium;
pub mod slice;
pub mod store;
pub mod vec;
