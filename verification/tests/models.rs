use rv8803::error::DriverError;
use rv8803::log::LoggableClockData;
use rv8803::models::misc::{bcd_to_dec, dec_to_bcd};
use rv8803::models::{ClockData, CurrentYear, Month, Weekday, Year};
use rv8803::rtc::address::{SlaveAddress, DEFAULT_ADDRESS};
use rv8803::rtc::now::{clock_data, decode, has_rolled_over, needs_second_reading, settle};
use rv8803::rtc::registers::replace_bit;
use rv8803::rtc::update::{frames_of, year_register};

/// Clock data from its fields in burst order.
fn clock(fields: [u8; 8]) -> ClockData {
    ClockData {
        hundredths: fields[0],
        seconds: fields[1],
        minutes: fields[2],
        hours: fields[3],
        weekday: fields[4],
        date: fields[5],
        month: fields[6],
        year: fields[7],
    }
}

fn is_bcd(byte: u8) -> bool {
    byte >> 4 <= 9 && byte & 0x0F <= 9
}

#[test]
fn bcd_to_dec_reads_tens_and_units() {
    assert_eq!(bcd_to_dec(0x00), 0);
    assert_eq!(bcd_to_dec(0x09), 9);
    assert_eq!(bcd_to_dec(0x10), 10);
    assert_eq!(bcd_to_dec(0x23), 23);
    assert_eq!(bcd_to_dec(0x59), 59);
    assert_eq!(bcd_to_dec(0x99), 99);
}

#[test]
fn bcd_to_dec_does_not_reject_a_bad_nibble() {
    assert_eq!(bcd_to_dec(0x0A), 10);
    assert_eq!(bcd_to_dec(0x1F), 25);
    assert_eq!(bcd_to_dec(0xA0), 100);
    assert_eq!(bcd_to_dec(0xFF), 165);
}

#[test]
fn dec_to_bcd_writes_tens_and_units() {
    assert_eq!(dec_to_bcd(0), 0x00);
    assert_eq!(dec_to_bcd(9), 0x09);
    assert_eq!(dec_to_bcd(10), 0x10);
    assert_eq!(dec_to_bcd(23), 0x23);
    assert_eq!(dec_to_bcd(59), 0x59);
    assert_eq!(dec_to_bcd(99), 0x99);
}

#[test]
fn dec_to_bcd_aliases_past_99() {
    assert_eq!(dec_to_bcd(100), 0xA0);
    assert_eq!(dec_to_bcd(159), 0xF9);
    assert_eq!(dec_to_bcd(160), 0x00);
    assert_eq!(dec_to_bcd(199), 0x39);
    assert_eq!(dec_to_bcd(255), 0x95);
}

#[test]
fn encoding_undoes_decoding_on_every_bcd_byte() {
    let mut seen = 0;
    for byte in 0..=255u8 {
        if is_bcd(byte) {
            assert_eq!(dec_to_bcd(bcd_to_dec(byte)), byte);
            seen += 1;
        }
    }
    assert_eq!(seen, 100);
}

#[test]
fn decoding_undoes_encoding_up_to_99() {
    for value in 0..=99u8 {
        assert!(is_bcd(dec_to_bcd(value)));
        assert_eq!(bcd_to_dec(dec_to_bcd(value)), value);
    }
}

#[test]
fn replace_bit_sets_and_clears() {
    assert_eq!(replace_bit(0b0000_0000, 0, true), 0b0000_0001);
    assert_eq!(replace_bit(0b1111_1111, 0, false), 0b1111_1110);
    assert_eq!(replace_bit(0b1010_1010, 7, false), 0b0010_1010);
    assert_eq!(replace_bit(0b1010_1010, 6, true), 0b1110_1010);
    assert_eq!(replace_bit(0b1010_1010, 1, true), 0b1010_1010);
}

#[test]
fn a_reading_is_at_risk_at_99_hundredths_or_59_seconds() {
    assert!(needs_second_reading(&[0x99, 0x00, 0, 0, 0, 0, 0, 0]));
    assert!(needs_second_reading(&[0x00, 0x59, 0, 0, 0, 0, 0, 0]));
    assert!(needs_second_reading(&[0x99, 0x59, 0, 0, 0, 0, 0, 0]));
    assert!(!needs_second_reading(&[0x98, 0x58, 0x59, 0x99, 0x99, 0x99, 0x99, 0x99]));
    assert!(!needs_second_reading(&[0x00, 0x00, 0, 0, 0, 0, 0, 0]));
}

#[test]
fn a_rollover_is_a_drop_of_the_hundredths() {
    let high = [0x99, 1, 1, 1, 1, 1, 1, 1];
    let low = [0x00, 2, 2, 2, 2, 2, 2, 2];
    assert!(has_rolled_over(&high, &low));
    assert!(!has_rolled_over(&low, &high));
    assert!(!has_rolled_over(&high, &high));
    assert_eq!(settle(high, low), low);
    assert_eq!(settle(low, high), low);
    assert_eq!(settle(high, high), high);
}

#[test]
fn decode_skips_the_weekday() {
    assert_eq!(
        decode(&[0x99, 0x59, 0x59, 0x23, 0x40, 0x31, 0x12, 0x99]),
        [99, 59, 59, 23, 0x40, 31, 12, 99]
    );
    assert_eq!(decode(&[0x10; 8]), [10, 10, 10, 10, 0x10, 10, 10, 10]);
}

#[test]
fn clock_data_takes_the_fields_in_burst_order() {
    let data = clock_data(&[1, 2, 3, 4, 5, 6, 7, 8]);
    assert_eq!(data.hundredths(), 1);
    assert_eq!(data.seconds(), 2);
    assert_eq!(data.minutes(), 3);
    assert_eq!(data.hours(), 4);
    assert_eq!(data.weekday(), 5);
    assert_eq!(data.day(), 6);
    assert_eq!(data.month(), 7);
    assert_eq!(data.year(), 8);
}

#[test]
fn year_register_counts_from_2000() {
    assert_eq!(year_register(2000), Some(0));
    assert_eq!(year_register(2023), Some(23));
    assert_eq!(year_register(2255), Some(255));
    assert_eq!(year_register(2256), None);
    assert_eq!(year_register(u16::MAX), None);
}

#[test]
fn frames_are_in_writing_order() {
    let data = clock([99, 58, 47, 23, 0x20, 31, 12, 23]);
    assert_eq!(
        frames_of(&data),
        [
            (0x11, 0x58),
            (0x12, 0x47),
            (0x13, 0x23),
            (0x15, 0x31),
            (0x16, 0x12),
            (0x17, 0x23),
            (0x14, 0x20),
        ]
    );
}

#[test]
fn new_clock_data_is_zero() {
    let data = ClockData::new();
    assert_eq!(
        data,
        clock([0, 0, 0, 0, 0, 0, 0, 0])
    );
}

#[test]
fn set_fills_every_field_and_zeroes_the_hundredths() {
    let mut data = ClockData::new();
    data.hundredths = 42;
    data.set((23, 59, 58, Weekday::Friday, 31, Month::December, CurrentYear::new(2023)));
    assert_eq!(data.hundredths(), 0);
    assert_eq!(data.hours(), 23);
    assert_eq!(data.minutes(), 59);
    assert_eq!(data.seconds(), 58);
    assert_eq!(data.weekday(), 32);
    assert_eq!(data.day(), 31);
    assert_eq!(data.month(), 12);
    assert_eq!(data.year(), 23);
}

#[test]
fn current_year_counts_from_its_century() {
    assert_eq!(CurrentYear::new(1970).value(), 70);
    assert_eq!(CurrentYear::new(1999).value(), 99);
    assert_eq!(CurrentYear::new(2000).value(), 0);
    assert_eq!(CurrentYear::new(2023).value(), 23);
    assert_eq!(CurrentYear::new(2255).value(), 255);
}

#[test]
fn a_year_that_does_not_fit_is_refused() {
    assert!(CurrentYear::try_new(1969).is_none());
    assert!(CurrentYear::try_new(0).is_none());
    assert!(CurrentYear::try_new(2256).is_none());
    assert!(CurrentYear::try_new(u16::MAX).is_none());
    assert_eq!(CurrentYear::try_new(1970).unwrap().value(), 70);
    assert_eq!(CurrentYear::try_new(2023).unwrap().value(), 23);
    assert_eq!(CurrentYear::try_new(2255).unwrap().value(), 255);
}

#[test]
fn weekday_is_one_bit_per_day() {
    let days = [
        (Weekday::Sunday, 1, "Sunday"),
        (Weekday::Monday, 2, "Monday"),
        (Weekday::Tuesday, 4, "Tuesday"),
        (Weekday::Wednesday, 8, "Wednesday"),
        (Weekday::Thursday, 16, "Thursday"),
        (Weekday::Friday, 32, "Friday"),
        (Weekday::Saturday, 64, "Saturday"),
    ];
    for (day, mask, name) in days {
        assert_eq!(day.value(), mask);
        assert_eq!(Weekday::from(mask), day);
        assert_eq!(day.name(), name);
    }
}

#[test]
fn weekday_falls_back_to_sunday() {
    assert_eq!(Weekday::from(0), Weekday::Sunday);
    assert_eq!(Weekday::from(3), Weekday::Sunday);
    assert_eq!(Weekday::from(128), Weekday::Sunday);
    assert_eq!(Weekday::from(255), Weekday::Sunday);
}

#[test]
fn month_is_numbered_from_one() {
    let months = [
        (Month::January, "January"),
        (Month::February, "February"),
        (Month::March, "March"),
        (Month::April, "April"),
        (Month::May, "May"),
        (Month::June, "June"),
        (Month::July, "July"),
        (Month::August, "August"),
        (Month::September, "September"),
        (Month::October, "October"),
        (Month::November, "November"),
        (Month::December, "December"),
    ];
    let mut number = 1;
    for (month, name) in months {
        assert_eq!(month.value(), number);
        assert_eq!(Month::from(number), month);
        assert_eq!(month.name(), name);
        number += 1;
    }
}

#[test]
fn month_falls_back_to_january() {
    assert_eq!(Month::from(0), Month::January);
    assert_eq!(Month::from(13), Month::January);
    assert_eq!(Month::from(255), Month::January);
}

#[test]
fn year_defaults_to_the_twenty_first_century() {
    assert!(matches!(Year::default(), Year::TwentyFirstCentury(20)));
}

#[test]
fn loggable_clock_data_keeps_data_and_century() {
    let data = clock([1, 2, 3, 4, 8, 6, 7, 8]);
    let mut loggable = LoggableClockData::new(data);
    assert_eq!(loggable.data(), data);
    assert!(matches!(loggable.century(), Year::TwentyFirstCentury(20)));
    loggable.set_century(Year::TwentiethCentury(19));
    assert!(matches!(loggable.century(), Year::TwentiethCentury(19)));
    assert_eq!(loggable.data(), data);
}

#[test]
fn slave_address_resolves_to_a_byte() {
    assert_eq!(DEFAULT_ADDRESS, 0x32);
    assert_eq!(u8::from(SlaveAddress::Default), 0x32);
    assert_eq!(u8::from(SlaveAddress::Alternative(0x51)), 0x51);
    assert_eq!(u8::from(SlaveAddress::at_address(0x7F)), 0x7F);
    assert_ne!(SlaveAddress::Default, SlaveAddress::Alternative(0x33));
    assert_eq!(SlaveAddress::Alternative(0x10), SlaveAddress::at_address(0x10));
}

#[test]
fn driver_error_wraps_the_transport_error() {
    let error: DriverError<u8> = DriverError::from(7);
    assert_eq!(error, DriverError::I2c(7));
    assert_ne!(error, DriverError::YearOutOfRange);
}
