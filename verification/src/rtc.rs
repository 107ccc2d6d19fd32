//! The driver and the parts it is made of.
use crate::bus::{appended, continues, Bus, BusTrait};
use crate::error::DriverError;
use crate::models::ClockData;
use crate::rtc::address::{SlaveAddress, DEFAULT_ADDRESS};
use crate::rtc::now::{is_time_read, reading, time_read_result, Readable, TIME_ARRAY_LENGTH};
use crate::rtc::update::{is_time_write, spec_year_register, time_fields, time_write_result};
use crate::rtc::update::Updatable;
use core::marker::PhantomData;
use vstd::prelude::*;

pub mod address;
pub mod device;
/// Used to fetch latest readings.
pub mod now;
pub mod reg;
pub mod registers;
/// Used to update the rtc clock.
pub mod update;

verus! {

/// Trait to specify addressing mode.
pub trait AddressingMode {
    /// The addressing mode.
    type Mode;
}

/// Seven-bit addressing: a device address is one byte.
impl AddressingMode for u8 {
    type Mode = u8;
}

/// Driver for the `rv8803` rtc chip.
///
/// # Registers
///
/// Refer to page 15 of the application manual of the RV-8803-C7.
pub struct Driver<I2C: BusTrait, A> {
    addr: u8,
    i2c: Bus<I2C>,
    _addr_mode: PhantomData<A>,
}

impl<I2C, A> Driver<I2C, A> where I2C: BusTrait, A: AddressingMode<Mode = u8> {
    /// The device address that the driver talks to.
    pub closed spec fn address(&self) -> u8 {
        self.addr
    }

    /// The bus that the driver talks through.
    pub closed spec fn bus(&self) -> Bus<I2C> {
        self.i2c
    }

    /// Creates a new driver from an I2C peripheral.
    ///
    /// The driver talks to the default device address, and nothing has been
    /// sent yet.
    pub fn new(i2c: I2C) -> (driver: Self)
        ensures
            driver.address() == DEFAULT_ADDRESS,
            driver.bus().transport() == i2c,
            driver.bus().trace().len() == 0,
    {
        Driver {
            addr: u8::from(SlaveAddress::Default),
            i2c: Bus::new(i2c),
            _addr_mode: PhantomData,
        }
    }

    /// Change I2C address
    pub fn set_address(&mut self, addr: SlaveAddress) -> (address: u8)
        ensures
            address == addr.resolved(),
            final(self).address() == addr.resolved(),
            final(self).bus() == old(self).bus(),
    {
        self.addr = u8::from(addr);
        self.addr
    }

    /// release resources
    pub fn free(self) -> (i2c: I2C)
        ensures
            i2c == self.bus().transport(),
    {
        self.i2c.free()
    }

    /// Fetch the latest reading from the rtc module.
    ///
    /// # Errors
    ///
    /// Returns a [`DriverError`]
    pub fn now<T>(&mut self, clock_data: T) -> (result: Result<ClockData, DriverError<I2C::Error>>)
        where T: Readable
        ensures
            final(self).address() == old(self).address(),
            continues(old(self).bus().trace(), final(self).bus().trace()),
            is_time_read(
                appended(old(self).bus().trace(), final(self).bus().trace()),
                old(self).address(),
            ),
            result == match time_read_result(
                appended(old(self).bus().trace(), final(self).bus().trace()),
            ) {
                Ok(bytes) => Ok::<ClockData, DriverError<I2C::Error>>(reading(bytes)),
                Err(e) => Err(e),
            },
    {
        let mut clock_data = clock_data;
        let mut data = ClockData::new();

        // Associated instance on T, not to be confused with the value data above.
        match clock_data.now(&mut self.i2c, self.addr, &mut data) {
            Ok(_) => Ok(data),
            Err(e) => Err(e),
        }
    }

    /// Reads the time into `dest`, in decimal and in burst order: hundredths,
    /// seconds, minutes, hours, weekday, date, month, year.
    ///
    /// # Errors
    ///
    /// Returns a [`DriverError`]; `dest` is then left as it was.
    pub fn update_time(&mut self, dest: &mut [u8; TIME_ARRAY_LENGTH]) -> (result: Result<
        bool,
        DriverError<I2C::Error>,
    >)
        ensures
            final(self).address() == old(self).address(),
            continues(old(self).bus().trace(), final(self).bus().trace()),
            is_time_read(
                appended(old(self).bus().trace(), final(self).bus().trace()),
                old(self).address(),
            ),
            match time_read_result(appended(old(self).bus().trace(), final(self).bus().trace())) {
                Ok(bytes) => result == Ok::<bool, DriverError<I2C::Error>>(true) && final(dest)@
                    == bytes,
                Err(e) => result == Err::<bool, DriverError<I2C::Error>>(e) && *final(dest)
                    == *old(dest),
            },
    {
        crate::rtc::now::update_time(&mut self.i2c, self.addr, dest)
    }

    /// Update the rtc module.
    ///
    /// Writes `data` to the chip if there is any, and hands `clock_data`
    /// back.
    ///
    /// # Errors
    ///
    /// Returns a [`DriverError`]
    pub fn update<T>(&mut self, clock_data: T, data: &Option<ClockData>) -> (result: Result<
        T,
        DriverError<I2C::Error>,
    >)
        where T: Updatable
        ensures
            final(self).address() == old(self).address(),
            match *data {
                None => {
                    &&& final(self).bus() == old(self).bus()
                    &&& result == Ok::<T, DriverError<I2C::Error>>(clock_data)
                },
                Some(d) => {
                    &&& continues(old(self).bus().trace(), final(self).bus().trace())
                    &&& is_time_write(
                        appended(old(self).bus().trace(), final(self).bus().trace()),
                        old(self).address(),
                        d,
                    )
                    &&& result == match time_write_result(
                        appended(old(self).bus().trace(), final(self).bus().trace()),
                    ) {
                        Ok(_) => Ok::<T, DriverError<I2C::Error>>(clock_data),
                        Err(e) => Err(e),
                    }
                },
            },
    {
        let mut clock_data = clock_data;
        let mut cu = crate::rtc::registers::new(self.addr);

        if let Some(d) = data {
            match clock_data.set_datetime(&mut self.i2c, self.addr, &mut cu, d) {
                Ok(_) => {},
                Err(e) => {
                    return Err(e);
                },
            }
        }
        Ok(clock_data)
    }

    /// Sets the time from plain fields. The year is given in full and must
    /// not lie before 2000.
    ///
    /// # Errors
    ///
    /// Returns [`DriverError::YearOutOfRange`], with nothing sent, when the
    /// years since 2000 do not fit in one byte, and the transport's error as
    /// soon as a write fails.
    pub fn set_time(
        &mut self,
        sec: u8,
        min: u8,
        hour: u8,
        weekday: u8,
        date: u8,
        month: u8,
        year: u16,
    ) -> (result: Result<bool, DriverError<I2C::Error>>)
        requires
            year >= 2000,
        ensures
            final(self).address() == old(self).address(),
            match spec_year_register(year) {
                None => {
                    &&& result == Err::<bool, DriverError<I2C::Error>>(
                        DriverError::YearOutOfRange,
                    )
                    &&& final(self).bus() == old(self).bus()
                },
                Some(count) => {
                    &&& continues(old(self).bus().trace(), final(self).bus().trace())
                    &&& is_time_write(
                        appended(old(self).bus().trace(), final(self).bus().trace()),
                        old(self).address(),
                        time_fields(sec, min, hour, weekday, date, month, count),
                    )
                    &&& result == match time_write_result(
                        appended(old(self).bus().trace(), final(self).bus().trace()),
                    ) {
                        Ok(_) => Ok::<bool, DriverError<I2C::Error>>(true),
                        Err(e) => Err(e),
                    }
                },
            },
    {
        let mut cu = crate::rtc::registers::new(self.addr);
        crate::rtc::update::set_time(
            &mut self.i2c,
            &mut cu,
            sec,
            min,
            hour,
            weekday,
            date,
            month,
            year,
        )
    }
}

/// Address of the year register in the chip's basic register bank, which the
/// async driver reads.
pub const BASIC_YEAR_REGISTER: u8 = 0x06;

/// Async Driver for the `rv8803` rtc chip.
///
/// It holds a transport and the device address. The transactions themselves
/// are awaited by the caller, who borrows the transport for that.
pub struct DriverAsync<I2C, A> {
    addr: u8,
    i2c: I2C,
    _addr_mode: PhantomData<A>,
}

impl<I2C, A> DriverAsync<I2C, A> {
    /// The device address that the driver talks to.
    pub closed spec fn spec_address(&self) -> u8 {
        self.addr
    }

    /// The transport that the driver talks through.
    pub closed spec fn bus(&self) -> I2C {
        self.i2c
    }

    /// Creates a new driver from an I2C peripheral.
    pub fn new(i2c: I2C) -> (driver: Self)
        ensures
            driver.spec_address() == DEFAULT_ADDRESS,
            driver.bus() == i2c,
    {
        DriverAsync { addr: u8::from(SlaveAddress::Default), i2c, _addr_mode: PhantomData }
    }

    /// The device address that the driver talks to.
    #[verifier::when_used_as_spec(spec_address)]
    pub fn address(&self) -> (address: u8)
        ensures
            address == self.spec_address(),
    {
        self.addr
    }

    /// Lends the transport out for one transaction.
    pub fn transport(&mut self) -> (i2c: &mut I2C)
        ensures
            *i2c == old(self).bus(),
            final(self).bus() == *final(i2c),
            final(self).spec_address() == old(self).spec_address(),
    {
        &mut self.i2c
    }

    /// release resources
    pub fn free(self) -> (i2c: I2C)
        ensures
            i2c == self.bus(),
    {
        self.i2c
    }
}

} // verus!
