//! A clock reading together with the century it belongs to.
use crate::models::{ClockData, Year};
use vstd::prelude::*;

verus! {

/// Loggable newtype for [`ClockData`]
#[derive(Debug, Copy, Clone, Default)]
pub struct LoggableClockData {
    data: ClockData,
    /// Current century
    century: Year,
}

impl LoggableClockData {
    /// The clock data that is held.
    pub closed spec fn spec_data(&self) -> ClockData {
        self.data
    }

    /// The century that is held.
    pub closed spec fn spec_century(&self) -> Year {
        self.century
    }

    /// Creates a [`LoggableClockData`]
    ///
    /// The century starts out as the twenty-first.
    pub fn new(data: ClockData) -> (loggable: Self)
        ensures
            loggable.spec_data() == data,
            loggable.spec_century() == Year::TwentyFirstCentury(20),
    {
        Self { data, century: Year::default() }
    }

    /// Set the century. This is mainly used for presentational purposes.
    pub fn set_century(&mut self, value: Year)
        ensures
            final(self).spec_century() == value,
            final(self).spec_data() == old(self).spec_data(),
    {
        self.century = value
    }

    /// Get the clock data.
    #[verifier::when_used_as_spec(spec_data)]
    pub fn data(&self) -> (data: ClockData)
        ensures
            data == self.spec_data(),
    {
        self.data
    }

    /// Get the century.
    #[verifier::when_used_as_spec(spec_century)]
    pub fn century(&self) -> (century: Year)
        ensures
            century == self.spec_century(),
    {
        self.century
    }
}

} // verus!
