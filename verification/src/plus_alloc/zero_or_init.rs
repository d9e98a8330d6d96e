use vstd::prelude::*;

verus! {

/// Storage for a `T` that is either all zero bytes, which the collector
/// skips, or an initialized `T`.
pub struct ZeroOrInit<T> {
    uninit: Option<T>,
}

impl<T> ZeroOrInit<T> {
    /// The value held, if initialized.
    pub closed spec fn value(self) -> Option<T> {
        self.uninit
    }

    pub fn zeroed() -> (r: Self)
        ensures
            r.value() is None,
    {
        ZeroOrInit { uninit: None }
    }

    pub fn new(data: T) -> (r: Self)
        ensures
            r.value() == Some(data),
    {
        ZeroOrInit { uninit: Some(data) }
    }

    /// Moves the content out, leaving this storage zeroed.
    pub fn take(&mut self) -> (r: ZeroOrInit<T>)
        ensures
            r.value() == old(self).value(),
            final(self).value() is None,
    {
        ZeroOrInit { uninit: self.uninit.take() }
    }

    /// The value, which must be initialized.
    pub fn assume_init_ref(&self) -> (r: &T)
        requires
            self.value() is Some,
        ensures
            *r == self.value()->0,
    {
        self.uninit.as_ref().unwrap()
    }
}

/// Types for which all zero bytes are a valid value: zeroed storage of
/// such a type reads as that value.
pub trait ZeroValid: Sized + Copy {
    /// The value of all zero bytes.
    spec fn zero_value() -> Self;

    fn zero() -> (r: Self)
        ensures
            r == Self::zero_value(),
    ;
}

impl ZeroValid for u8 {
    open spec fn zero_value() -> u8 {
        0
    }

    fn zero() -> (r: u8) {
        0
    }
}

impl ZeroValid for u32 {
    open spec fn zero_value() -> u32 {
        0
    }

    fn zero() -> (r: u32) {
        0
    }
}

impl ZeroValid for u64 {
    open spec fn zero_value() -> u64 {
        0
    }

    fn zero() -> (r: u64) {
        0
    }
}

impl ZeroValid for usize {
    open spec fn zero_value() -> usize {
        0
    }

    fn zero() -> (r: usize) {
        0
    }
}

impl ZeroValid for bool {
    open spec fn zero_value() -> bool {
        false
    }

    fn zero() -> (r: bool) {
        false
    }
}

impl<T: ZeroValid> ZeroOrInit<T> {
    /// The value held; zeroed storage reads as the type's zero value.
    pub fn read(&self) -> (r: T)
        ensures
            r == match self.value() {
                Some(v) => v,
                None => T::zero_value(),
            },
    {
        match &self.uninit {
            Some(v) => *v,
            None => T::zero(),
        }
    }
}

} // verus!
