//! Register map and register access.
//!
//! [`Register`] names the chip's registers. [`ClockRegisters`] reads and
//! writes them at one device address, one bus transaction per operation, and
//! changes single bits by reading a register, replacing the bit and writing
//! the register back.
use crate::bus::{appended, continues, lemma_continues_chain, lemma_push_continues};
use crate::bus::{Bus, BusTrait, Transaction};
use crate::error::DriverError;
use vstd::prelude::*;

verus! {

/// Mapping of all the registers used to operate the RTC module
#[derive(Clone, Copy)]
pub enum Register {
    /// RAM
    Ram,
    /// Minutes Alarm
    MinutesAlarm,
    /// HoursAlarm
    HoursAlarm,
    /// Hundredths
    Hundredths,
    /// Seconds
    Seconds,
    /// Minutes
    Minutes,
    /// Hours
    Hours,
    /// Weekday
    Weekday,
    /// Date
    Date,
    /// Month
    Month,
    /// Year
    Year,
    /// Position of the reset bit inside the control register
    ControlReset,
    /// Extension Register
    Extension,
    /// Flag Register
    Flag,
    /// Control Register
    Control,
    /// Offset
    Offset,
    /// Event Control
    Event,
}

impl Register {
    /// The fixed address of the register inside the chip.
    pub open spec fn spec_address(self) -> u8 {
        match self {
            Register::Ram => 0x07,
            Register::MinutesAlarm => 0x08,
            Register::HoursAlarm => 0x09,
            Register::Hundredths => 0x10,
            Register::Seconds => 0x11,
            Register::Minutes => 0x12,
            Register::Hours => 0x13,
            Register::Weekday => 0x14,
            Register::Date => 0x15,
            Register::Month => 0x16,
            Register::Year => 0x17,
            Register::ControlReset => 0x00,
            Register::Extension => 0x1D,
            Register::Flag => 0x1E,
            Register::Control => 0x1F,
            Register::Offset => 0x2C,
            Register::Event => 0x2F,
        }
    }

    /// Read address value, returns as [`u8`]
    #[verifier::when_used_as_spec(spec_address)]
    pub fn address(self) -> (address: u8)
        ensures
            address == self.spec_address(),
    {
        match self {
            Register::Ram => 0x07,
            Register::MinutesAlarm => 0x08,
            Register::HoursAlarm => 0x09,
            Register::Hundredths => 0x10,
            Register::Seconds => 0x11,
            Register::Minutes => 0x12,
            Register::Hours => 0x13,
            Register::Weekday => 0x14,
            Register::Date => 0x15,
            Register::Month => 0x16,
            Register::Year => 0x17,
            Register::ControlReset => 0x00,
            Register::Extension => 0x1D,
            Register::Flag => 0x1E,
            Register::Control => 0x1F,
            Register::Offset => 0x2C,
            Register::Event => 0x2F,
        }
    }
}

/// No two registers share an address.
pub proof fn lemma_addresses_distinct(a: Register, b: Register)
    requires
        a.spec_address() == b.spec_address(),
    ensures
        a == b,
{
}

/// The eight time registers lie next to each other, in burst order.
pub proof fn lemma_time_registers_consecutive()
    ensures
        Register::Seconds.spec_address() == Register::Hundredths.spec_address() + 1,
        Register::Minutes.spec_address() == Register::Hundredths.spec_address() + 2,
        Register::Hours.spec_address() == Register::Hundredths.spec_address() + 3,
        Register::Weekday.spec_address() == Register::Hundredths.spec_address() + 4,
        Register::Date.spec_address() == Register::Hundredths.spec_address() + 5,
        Register::Month.spec_address() == Register::Hundredths.spec_address() + 6,
        Register::Year.spec_address() == Register::Hundredths.spec_address() + 7,
{
}

/// `value` with bit `bit` replaced by `on`, every other bit kept.
pub open spec fn with_bit(value: u8, bit: u8, on: bool) -> u8 {
    (value & !(1u8 << bit)) | ((if on { 1u8 } else { 0u8 }) << bit)
}

/// Whether bit `bit` of `value` is set.
pub open spec fn bit_of(value: u8, bit: u8) -> bool {
    (value >> bit) & 1u8 == 1u8
}

/// Replacing a bit sets that bit to the new value and leaves the other seven
/// as they were.
pub proof fn lemma_with_bit(value: u8, bit: u8, on: bool, other: u8)
    requires
        bit < 8,
        other < 8,
    ensures
        bit_of(with_bit(value, bit, on), bit) == on,
        other != bit ==> bit_of(with_bit(value, bit, on), other) == bit_of(value, other),
{
    let b: u8 = if on { 1u8 } else { 0u8 };
    assert((((value & !(1u8 << bit)) | (b << bit)) >> bit) & 1u8 == b) by (bit_vector)
        requires
            bit < 8,
            b == 0u8 || b == 1u8,
    ;
    assert(other != bit ==> (((value & !(1u8 << bit)) | (b << bit)) >> other) & 1u8 == (value
        >> other) & 1u8) by (bit_vector)
        requires
            bit < 8,
            other < 8,
            b == 0u8 || b == 1u8,
    ;
}

/// The byte that replaces the content of a register when one of its bits is
/// set or cleared.
pub fn replace_bit(value: u8, bit_addr: u8, bit_to_write: bool) -> (replaced: u8)
    requires
        bit_addr < 8,
    ensures
        replaced == with_bit(value, bit_addr, bit_to_write),
{
    let bit: u8 = if bit_to_write { 1 } else { 0 };
    (value & !(1u8 << bit_addr)) | (bit << bit_addr)
}

/// Whether `t` is the read of the one register `reg` of `device`.
pub open spec fn is_register_read<E>(t: Transaction<E>, device: u8, reg: u8) -> bool {
    &&& t matches Transaction::WriteRead { address, request, len, response }
    &&& address == device
    &&& request == seq![reg]
    &&& len == 1
    &&& response matches Ok(data) ==> data.len() == 1
}

/// Whether `t` is the write of `value` into the one register `reg` of
/// `device`: a frame of two bytes, the register's address then the value.
pub open spec fn is_register_write<E>(t: Transaction<E>, device: u8, reg: u8, value: u8) -> bool {
    &&& t matches Transaction::Write { address, bytes, outcome }
    &&& address == device
    &&& bytes == seq![reg, value]
}

/// Whether `t` is the burst read of `count` registers of `device`, the first
/// of them at `start`.
pub open spec fn is_burst_read<E>(t: Transaction<E>, device: u8, start: u8, count: nat) -> bool {
    &&& t matches Transaction::WriteRead { address, request, len, response }
    &&& address == device
    &&& request == seq![start]
    &&& len == count
}

/// What a read transaction handed back: the bytes, or the transport's error
/// as a driver error.
pub open spec fn bytes_read<E>(t: Transaction<E>) -> Result<Seq<u8>, DriverError<E>> {
    match t {
        Transaction::WriteRead { response: Ok(data), .. } => Ok(data),
        Transaction::WriteRead { response: Err(e), .. } => Err(DriverError::I2c(e)),
        Transaction::Write { .. } => Ok(Seq::empty()),
    }
}

/// How a write transaction ended, the transport's error as a driver error.
pub open spec fn write_outcome<E>(t: Transaction<E>) -> Result<(), DriverError<E>> {
    match t {
        Transaction::Write { outcome: Err(e), .. } => Err(DriverError::I2c(e)),
        _ => Ok(()),
    }
}

/// The byte that a single-register read yields.
pub open spec fn byte_read<E>(t: Transaction<E>) -> Result<u8, DriverError<E>> {
    match bytes_read(t) {
        Ok(data) => Ok(data[0]),
        Err(e) => Err(e),
    }
}

/// The content that a bit change starts from: what the read returned, or zero
/// when the read failed.
pub open spec fn content_or_zero<E>(t: Transaction<E>) -> u8 {
    match byte_read(t) {
        Ok(value) => value,
        Err(_) => 0,
    }
}

/// Whether `added` is the exchange that replaces bit `bit` of register `reg`
/// by `on`: a read of the register, then a write of what was read (zero if
/// the read failed) with that one bit replaced.
pub open spec fn is_bit_exchange<E>(
    added: Seq<Transaction<E>>,
    device: u8,
    reg: u8,
    bit: u8,
    on: bool,
) -> bool {
    &&& added.len() == 2
    &&& is_register_read(added[0], device, reg)
    &&& is_register_write(added[1], device, reg, with_bit(content_or_zero(added[0]), bit, on))
}

/// Access to the registers of the chip at one device address.
#[derive(Debug, Copy, Clone, Default)]
pub struct ClockRegisters {
    device_address: u8,
}

/// The registers of the chip at `address`.
pub fn new(address: u8) -> (registers: ClockRegisters)
    ensures
        registers.device() == address,
{
    ClockRegisters { device_address: address }
}

impl ClockRegisters {
    /// The device address that every operation is sent to.
    pub closed spec fn device(self) -> u8 {
        self.device_address
    }

    /// Write a single bit to the specified register
    ///
    /// Reads the register, replaces bit `bit_addr` by `bit_to_write` and
    /// writes the register back. Bits are counted from 0, the lowest, to 7.
    /// A failed read is not reported: the register is then taken to hold
    /// zero. Returns `true` once the write has succeeded.
    ///
    /// # Errors
    ///
    /// Returns the transport's error if the write fails.
    pub fn write_bit<T: BusTrait>(
        &mut self,
        i2c: &mut Bus<T>,
        reg_addr: u8,
        bit_addr: u8,
        bit_to_write: bool,
    ) -> (result: Result<bool, DriverError<T::Error>>)
        requires
            bit_addr < 8,
        ensures
            *final(self) == *old(self),
            continues(old(i2c).trace(), final(i2c).trace()),
            is_bit_exchange(
                appended(old(i2c).trace(), final(i2c).trace()),
                old(self).device(),
                reg_addr,
                bit_addr,
                bit_to_write,
            ),
            result == match write_outcome(appended(old(i2c).trace(), final(i2c).trace())[1]) {
                Ok(_) => Ok::<bool, DriverError<T::Error>>(true),
                Err(e) => Err(e),
            },
    {
        let ghost before = i2c.trace();
        let mut value: u8 = 0;
        if let Ok(reg_value) = self.read_register_by_addr(i2c, reg_addr) {
            value = reg_value;
        }
        let ghost between = i2c.trace();
        let replaced: u8 = replace_bit(value, bit_addr, bit_to_write);
        let written = self.write_register_by_addr(i2c, reg_addr, replaced);
        proof {
            lemma_continues_chain(before, between, i2c.trace());
        }
        match written {
            Ok(_) => Ok(true),
            Err(e) => Err(e),
        }
    }

    /// Reads one register: its address is written to the device and one byte
    /// is read back, in one transaction.
    ///
    /// # Errors
    ///
    /// Returns the transport's error if the transaction fails.
    pub fn read_register<T: BusTrait>(
        &mut self,
        i2c: &mut Bus<T>,
        register: Register,
    ) -> (result: Result<u8, DriverError<T::Error>>)
        ensures
            *final(self) == *old(self),
            continues(old(i2c).trace(), final(i2c).trace()),
            appended(old(i2c).trace(), final(i2c).trace()).len() == 1,
            is_register_read(
                appended(old(i2c).trace(), final(i2c).trace())[0],
                old(self).device(),
                register.spec_address(),
            ),
            result == byte_read(appended(old(i2c).trace(), final(i2c).trace())[0]),
    {
        self.read_register_by_addr(i2c, register.address())
    }

    /// Writes one register: a frame of two bytes, the register's address and
    /// the value, in one transaction.
    ///
    /// # Errors
    ///
    /// Returns the transport's error if the transaction fails.
    pub fn write_register<T: BusTrait>(
        &mut self,
        i2c: &mut Bus<T>,
        register: Register,
        byte: u8,
    ) -> (result: Result<(), DriverError<T::Error>>)
        ensures
            *final(self) == *old(self),
            continues(old(i2c).trace(), final(i2c).trace()),
            appended(old(i2c).trace(), final(i2c).trace()).len() == 1,
            is_register_write(
                appended(old(i2c).trace(), final(i2c).trace())[0],
                old(self).device(),
                register.spec_address(),
                byte,
            ),
            result == write_outcome(appended(old(i2c).trace(), final(i2c).trace())[0]),
    {
        self.write_register_by_addr(i2c, register.address(), byte)
    }

    /// Reads as many consecutive registers as `dest` holds, the first of them
    /// at `addr`, in one burst: the start address is written to the device
    /// and the bytes are read back in one transaction. The chip moves on to
    /// the next register after each byte.
    ///
    /// Returns `true` when the transaction succeeded; `dest` then holds the
    /// bytes read. It never returns `false`: the flag is there for callers
    /// that tell a reading that failed from a transport that failed.
    ///
    /// # Errors
    ///
    /// Returns the transport's error if the transaction fails. What `dest`
    /// holds is then of no use.
    pub fn read_multiple_registers<T: BusTrait>(
        &mut self,
        i2c: &mut Bus<T>,
        addr: u8,
        dest: &mut [u8],
    ) -> (result: Result<bool, DriverError<T::Error>>)
        ensures
            *final(self) == *old(self),
            continues(old(i2c).trace(), final(i2c).trace()),
            appended(old(i2c).trace(), final(i2c).trace()).len() == 1,
            is_burst_read(
                appended(old(i2c).trace(), final(i2c).trace())[0],
                old(self).device(),
                addr,
                old(dest)@.len(),
            ),
            match bytes_read(appended(old(i2c).trace(), final(i2c).trace())[0]) {
                Ok(data) => result == Ok::<bool, DriverError<T::Error>>(true) && final(dest)@
                    == data,
                Err(e) => result == Err::<bool, DriverError<T::Error>>(e),
            },
    {
        let ghost before = i2c.trace();
        let frame: [u8; 1] = [addr];
        let outcome = i2c.write_read(self.device_address, &frame, dest);
        proof {
            lemma_push_continues(before, i2c.trace().last());
            assert(frame@ =~= seq![addr]);
        }
        match outcome {
            Ok(_) => Ok(true),
            Err(e) => Err(DriverError::I2c(e)),
        }
    }

    /// Writes `byte` into the register at the raw address `reg_addr`.
    ///
    /// # Errors
    ///
    /// Returns the transport's error if the transaction fails.
    pub fn write_register_by_addr<T: BusTrait>(
        &mut self,
        i2c: &mut Bus<T>,
        reg_addr: u8,
        byte: u8,
    ) -> (result: Result<(), DriverError<T::Error>>)
        ensures
            *final(self) == *old(self),
            continues(old(i2c).trace(), final(i2c).trace()),
            appended(old(i2c).trace(), final(i2c).trace()).len() == 1,
            is_register_write(
                appended(old(i2c).trace(), final(i2c).trace())[0],
                old(self).device(),
                reg_addr,
                byte,
            ),
            result == write_outcome(appended(old(i2c).trace(), final(i2c).trace())[0]),
    {
        let ghost before = i2c.trace();
        let frame: [u8; 2] = [reg_addr, byte];
        let outcome = i2c.write(self.device_address, &frame);
        proof {
            lemma_push_continues(before, i2c.trace().last());
        }
        match outcome {
            Ok(_) => Ok(()),
            Err(e) => Err(DriverError::I2c(e)),
        }
    }

    /// Reads the register at the raw address `reg_addr`.
    ///
    /// # Errors
    ///
    /// Returns the transport's error if the transaction fails.
    pub fn read_register_by_addr<T: BusTrait>(
        &mut self,
        i2c: &mut Bus<T>,
        reg_addr: u8,
    ) -> (result: Result<u8, DriverError<T::Error>>)
        ensures
            *final(self) == *old(self),
            continues(old(i2c).trace(), final(i2c).trace()),
            appended(old(i2c).trace(), final(i2c).trace()).len() == 1,
            is_register_read(
                appended(old(i2c).trace(), final(i2c).trace())[0],
                old(self).device(),
                reg_addr,
            ),
            result == byte_read(appended(old(i2c).trace(), final(i2c).trace())[0]),
    {
        let ghost before = i2c.trace();
        let mut data: [u8; 1] = [0];
        let frame: [u8; 1] = [reg_addr];
        let outcome = i2c.write_read(self.device_address, &frame, &mut data);
        proof {
            lemma_push_continues(before, i2c.trace().last());
            assert(frame@ =~= seq![reg_addr]);
        }
        match outcome {
            Ok(_) => Ok(data[0]),
            Err(e) => Err(DriverError::I2c(e)),
        }
    }
}

} // verus!
