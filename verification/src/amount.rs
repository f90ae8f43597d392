use vstd::prelude::*;
use crate::error::Error;

verus! {

/// An amount in the smallest unit of the ledger, a signed 64-bit quantity.
#[derive(Debug, Clone, Copy, PartialEq, Eq, Structural)]
pub struct Stroops(pub i64);

impl Stroops {
    /// An amount of `value` units.
    pub fn new(value: i64) -> (r: Stroops)
        ensures
            r.0 == value,
    {
        Stroops(value)
    }

    /// The largest amount that can be represented.
    pub fn max() -> (r: Stroops)
        ensures
            r.0 == i64::MAX,
    {
        Stroops(i64::MAX)
    }

    /// The number of units.
    pub fn to_i64(&self) -> (r: i64)
        ensures
            r == self.0,
    {
        self.0
    }
}

/// Whether `value` can be held by a `Stroops`.
pub open spec fn representable(value: int) -> bool {
    i64::MIN <= value <= i64::MAX
}

/// A value that stands for an amount and may or may not fit a `Stroops`.
pub trait AmountLike: Sized {
    /// The number of units that the value stands for.
    spec fn units(self) -> int;

    /// The value as a `Stroops`, or `InvalidStroopsAmount` exactly when its
    /// number of units has no 64-bit representation.
    fn to_stroops(self) -> (r: Result<Stroops, Error>)
        ensures
            representable(self.units()) ==> r == Ok::<Stroops, Error>(Stroops(self.units() as i64)),
            !representable(self.units()) ==> r == Err::<Stroops, Error>(Error::InvalidStroopsAmount),
    ;
}

impl AmountLike for Stroops {
    open spec fn units(self) -> int {
        self.0 as int
    }

    fn to_stroops(self) -> (r: Result<Stroops, Error>) {
        Ok(self)
    }
}

impl AmountLike for i64 {
    open spec fn units(self) -> int {
        self as int
    }

    fn to_stroops(self) -> (r: Result<Stroops, Error>) {
        Ok(Stroops(self))
    }
}

impl AmountLike for u64 {
    open spec fn units(self) -> int {
        self as int
    }

    fn to_stroops(self) -> (r: Result<Stroops, Error>) {
        if self <= 0x7fff_ffff_ffff_ffffu64 {
            Ok(Stroops(self as i64))
        } else {
            Err(Error::InvalidStroopsAmount)
        }
    }
}

impl AmountLike for i128 {
    open spec fn units(self) -> int {
        self as int
    }

    fn to_stroops(self) -> (r: Result<Stroops, Error>) {
        if -0x8000_0000_0000_0000i128 <= self && self <= 0x7fff_ffff_ffff_ffffi128 {
            Ok(Stroops(self as i64))
        } else {
            Err(Error::InvalidStroopsAmount)
        }
    }
}

} // verus!
