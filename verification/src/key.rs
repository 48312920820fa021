//! The integer key interface: every concrete integer width and signedness
//! that the matcher is instantiated at implements `Key`, which exposes the
//! mathematical value of an element and a verified ordering test.

use vstd::prelude::*;

verus! {

/// An integer-like element type: its mathematical value is `key()`, and
/// `le` decides the ordering of those values.
pub trait Key: Sized + Copy {
    /// The mathematical value of the element.
    spec fn key(self) -> int;

    /// Ordering test, consistent with `key()`.
    fn le(self, other: Self) -> (b: bool)
        ensures
            b == (self.key() <= other.key()),
    ;
}

impl Key for i8 {
    open spec fn key(self) -> int {
        self as int
    }

    fn le(self, other: Self) -> (b: bool) {
        self <= other
    }
}

impl Key for i16 {
    open spec fn key(self) -> int {
        self as int
    }

    fn le(self, other: Self) -> (b: bool) {
        self <= other
    }
}

impl Key for i32 {
    open spec fn key(self) -> int {
        self as int
    }

    fn le(self, other: Self) -> (b: bool) {
        self <= other
    }
}

impl Key for i64 {
    open spec fn key(self) -> int {
        self as int
    }

    fn le(self, other: Self) -> (b: bool) {
        self <= other
    }
}

impl Key for isize {
    open spec fn key(self) -> int {
        self as int
    }

    fn le(self, other: Self) -> (b: bool) {
        self <= other
    }
}

impl Key for u8 {
    open spec fn key(self) -> int {
        self as int
    }

    fn le(self, other: Self) -> (b: bool) {
        self <= other
    }
}

impl Key for u16 {
    open spec fn key(self) -> int {
        self as int
    }

    fn le(self, other: Self) -> (b: bool) {
        self <= other
    }
}

impl Key for u32 {
    open spec fn key(self) -> int {
        self as int
    }

    fn le(self, other: Self) -> (b: bool) {
        self <= other
    }
}

impl Key for u64 {
    open spec fn key(self) -> int {
        self as int
    }

    fn le(self, other: Self) -> (b: bool) {
        self <= other
    }
}

impl Key for usize {
    open spec fn key(self) -> int {
        self as int
    }

    fn le(self, other: Self) -> (b: bool) {
        self <= other
    }
}

} // verus!
