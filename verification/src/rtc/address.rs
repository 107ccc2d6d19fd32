//! Device address.
use vstd::prelude::*;
use vstd::std_specs::cmp::PartialEqSpec;

verus! {

/// The bus address that the chip answers to when no other was configured.
pub const DEFAULT_ADDRESS: u8 = 0x32;

/// Bus address of the chip.
#[derive(Debug, Clone, Copy)]
pub enum SlaveAddress {
    /// The well-known address, `0x32`.
    Default,
    /// Any other address.
    Alternative(u8),
}

impl SlaveAddress {
    /// The byte that this address resolves to.
    pub open spec fn resolved(self) -> u8 {
        match self {
            SlaveAddress::Default => DEFAULT_ADDRESS,
            SlaveAddress::Alternative(address) => address,
        }
    }

    /// Creates a [`SlaveAddress`] at the provided [`SlaveAddress::Alternative`] address.
    #[must_use]
    pub fn at_address(addr: u8) -> (address: Self)
        ensures
            address == SlaveAddress::Alternative(addr),
            address.resolved() == addr,
    {
        SlaveAddress::Alternative(addr)
    }
}

impl vstd::std_specs::convert::FromSpecImpl<SlaveAddress> for u8 {
    open spec fn obeys_from_spec() -> bool {
        true
    }

    open spec fn from_spec(slave_address: SlaveAddress) -> u8 {
        slave_address.resolved()
    }
}

impl From<SlaveAddress> for u8 {
    /// The byte that the address resolves to.
    fn from(slave_address: SlaveAddress) -> (byte: u8) {
        match slave_address {
            SlaveAddress::Default => DEFAULT_ADDRESS,
            SlaveAddress::Alternative(address) => address,
        }
    }
}

impl vstd::std_specs::cmp::PartialEqSpecImpl for SlaveAddress {
    open spec fn obeys_eq_spec() -> bool {
        true
    }

    open spec fn eq_spec(&self, other: &SlaveAddress) -> bool {
        self.resolved() == other.resolved()
    }
}

impl PartialEq for SlaveAddress {
    /// Two addresses are equal when they resolve to the same byte, whichever
    /// variant spells it.
    fn eq(&self, other: &Self) -> (equal: bool) {
        let lhs: u8 = u8::from(*self);
        let rhs: u8 = u8::from(*other);
        lhs == rhs
    }
}

/// The default address equals the alternative that spells out its byte.
pub proof fn lemma_default_equals_spelled_out()
    ensures
        SlaveAddress::Default.eq_spec(&SlaveAddress::Alternative(DEFAULT_ADDRESS)),
        SlaveAddress::Alternative(DEFAULT_ADDRESS).eq_spec(&SlaveAddress::Default),
{
}

} // verus!
