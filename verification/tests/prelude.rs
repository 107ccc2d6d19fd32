use rv8803::prelude::{CurrentYear, DriverError, LoggableClockData, Month, SlaveAddress, Weekday};
use rv8803::prelude::{AddressingMode, Year};
use rv8803::ClockData;

fn mode_of<A: AddressingMode<Mode = u8>>(address: A::Mode) -> u8 {
    address
}

#[test]
fn the_prelude_names_what_a_caller_needs() {
    let mut data = ClockData::new();
    data.set((9, 30, 0, Weekday::Monday, 1, Month::March, CurrentYear::new(2024)));
    let loggable = LoggableClockData::new(data);
    assert_eq!(loggable.data().year(), 24);
    assert!(matches!(loggable.century(), Year::TwentyFirstCentury(_)));
    assert_eq!(u8::from(SlaveAddress::Default), mode_of::<u8>(0x32));
    let error: DriverError<()> = DriverError::YearOutOfRange;
    assert_ne!(error, DriverError::I2c(()));
}
