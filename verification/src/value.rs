//! Numeric samples that a graph can plot.
use vstd::prelude::*;

verus! {

/// A sample type: an integer whose magnitude fits in 64 bits.
///
/// The graph compares and colours samples by their `level` only.
pub trait Value: Copy {
    /// The magnitude of the sample.
    spec fn level(&self) -> int;

    /// Returns the magnitude of the sample.
    fn to_i64(&self) -> (r: i64)
        ensures
            r == self.level(),
    ;
}

impl Value for i8 {
    open spec fn level(&self) -> int {
        *self as int
    }

    fn to_i64(&self) -> (r: i64) {
        *self as i64
    }
}

impl Value for i16 {
    open spec fn level(&self) -> int {
        *self as int
    }

    fn to_i64(&self) -> (r: i64) {
        *self as i64
    }
}

impl Value for i32 {
    open spec fn level(&self) -> int {
        *self as int
    }

    fn to_i64(&self) -> (r: i64) {
        *self as i64
    }
}

impl Value for i64 {
    open spec fn level(&self) -> int {
        *self as int
    }

    fn to_i64(&self) -> (r: i64) {
        *self
    }
}

impl Value for u8 {
    open spec fn level(&self) -> int {
        *self as int
    }

    fn to_i64(&self) -> (r: i64) {
        *self as i64
    }
}

impl Value for u16 {
    open spec fn level(&self) -> int {
        *self as int
    }

    fn to_i64(&self) -> (r: i64) {
        *self as i64
    }
}

impl Value for u32 {
    open spec fn level(&self) -> int {
        *self as int
    }

    fn to_i64(&self) -> (r: i64) {
        *self as i64
    }
}

} // verus!
