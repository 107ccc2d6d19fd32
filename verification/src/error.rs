//! Driver errors.
use vstd::prelude::*;

verus! {

/// Driver error.
#[derive(Debug, PartialEq, Eq)]
pub enum DriverError<E> {
    /// The bus transaction did not complete; holds the transport's own error.
    I2c(E),
    /// The year, counted from 2000, does not fit in one byte.
    YearOutOfRange,
}

impl<E> vstd::std_specs::convert::FromSpecImpl<E> for DriverError<E> {
    open spec fn obeys_from_spec() -> bool {
        true
    }

    open spec fn from_spec(other: E) -> DriverError<E> {
        DriverError::I2c(other)
    }
}

impl<E> From<E> for DriverError<E> {
    /// Wraps a transport error.
    fn from(other: E) -> (error: Self) {
        DriverError::I2c(other)
    }
}

} // verus!
