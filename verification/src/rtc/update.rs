//! Setting the time.
//!
//! Each field is written to its own register, one transaction per register.
//! Seconds, minutes, hours, date, month and year go out as BCD; the weekday
//! is a bit mask and goes out as it is. The reset bit of the control register
//! is cleared last, so that the chip resumes counting. The first write that
//! fails ends the sequence; what was written before it stays written.
use crate::bus::{appended, continues, lemma_continues_chain, lemma_continues_self};
use crate::bus::{Bus, BusTrait, Transaction};
use crate::error::DriverError;
use crate::models::misc::{dec_to_bcd, spec_dec_to_bcd};
use crate::models::ClockData;
use crate::rtc::registers::{is_bit_exchange, is_register_write, write_outcome};
use crate::rtc::registers::{ClockRegisters, Register};
use vstd::prelude::*;

verus! {

/// Number of time registers that are written: all but the hundredths.
pub const TIME_WRITES: usize = 7;

/// The register writes that set the time to `data`, in the order in which
/// they are made: each is the address of a register and the byte it gets.
pub open spec fn time_frames(data: ClockData) -> Seq<(u8, u8)> {
    seq![
        (Register::Seconds.spec_address(), spec_dec_to_bcd(data.seconds)),
        (Register::Minutes.spec_address(), spec_dec_to_bcd(data.minutes)),
        (Register::Hours.spec_address(), spec_dec_to_bcd(data.hours)),
        (Register::Date.spec_address(), spec_dec_to_bcd(data.date)),
        (Register::Month.spec_address(), spec_dec_to_bcd(data.month)),
        (Register::Year.spec_address(), spec_dec_to_bcd(data.year)),
        (Register::Weekday.spec_address(), data.weekday),
    ]
}

/// Whether `added` is a run of the register writes `frames` to `device` that
/// stops at the first failure: write `i` carries frame `i`, every write but
/// the last succeeded, and the run is shorter than `frames` only if its last
/// write failed.
pub open spec fn is_write_run<E>(
    added: Seq<Transaction<E>>,
    device: u8,
    frames: Seq<(u8, u8)>,
) -> bool {
    &&& added.len() <= frames.len()
    &&& frames.len() > 0 ==> added.len() > 0
    &&& forall|i: int|
        0 <= i < added.len() ==> is_register_write(
            #[trigger] added[i],
            device,
            frames[i].0,
            frames[i].1,
        )
    &&& forall|i: int| 0 <= i < added.len() - 1 ==> (#[trigger] added[i]).succeeded()
    &&& added.len() < frames.len() ==> !added.last().succeeded()
}

/// Whether `added` is what setting the time to `data` puts on the bus of
/// `device`: the run of the seven register writes and, if all of them
/// succeeded, the exchange that clears the reset bit of the control register.
pub open spec fn is_time_write<E>(added: Seq<Transaction<E>>, device: u8, data: ClockData) -> bool {
    let writes = if added.len() <= TIME_WRITES {
        added
    } else {
        added.subrange(0, TIME_WRITES as int)
    };
    &&& is_write_run(writes, device, time_frames(data))
    &&& if writes.len() == TIME_WRITES && writes.last().succeeded() {
        &&& added.len() == TIME_WRITES + 2
        &&& is_bit_exchange(
            added.subrange(TIME_WRITES as int, TIME_WRITES + 2),
            device,
            Register::Control.spec_address(),
            Register::ControlReset.spec_address(),
            false,
        )
    } else {
        added.len() == writes.len()
    }
}

/// The outcome of setting the time: that of the last write made, which is
/// the write that failed or the one that clears the reset bit.
pub open spec fn time_write_result<E>(added: Seq<Transaction<E>>) -> Result<(), DriverError<E>> {
    write_outcome(added.last())
}

/// The year as the year register counts it, from 2000: `None` when the count
/// does not fit in one byte.
pub open spec fn spec_year_register(year: u16) -> Option<u8> {
    if year - 2000 <= 255 {
        Some((year - 2000) as u8)
    } else {
        None
    }
}

/// The clock data that a call of [`set_time`] writes.
pub open spec fn time_fields(
    sec: u8,
    min: u8,
    hour: u8,
    weekday: u8,
    date: u8,
    month: u8,
    year: u8,
) -> ClockData {
    ClockData {
        hundredths: 0,
        seconds: sec,
        minutes: min,
        hours: hour,
        weekday,
        date,
        month,
        year,
    }
}

/// Narrows a year to what the year register counts, the years since 2000.
pub fn year_register(year: u16) -> (count: Option<u8>)
    requires
        year >= 2000,
    ensures
        count == spec_year_register(year),
{
    let since: u16 = year - 2000;
    if since <= 255 {
        Some(since as u8)
    } else {
        None
    }
}

/// The seven register writes that set the time to `data`.
pub fn frames_of(data: &ClockData) -> (frames: [(u8, u8); TIME_WRITES])
    ensures
        frames@ == time_frames(*data),
{
    let frames: [(u8, u8); TIME_WRITES] = [
        (Register::Seconds.address(), dec_to_bcd(data.seconds())),
        (Register::Minutes.address(), dec_to_bcd(data.minutes())),
        (Register::Hours.address(), dec_to_bcd(data.hours())),
        (Register::Date.address(), dec_to_bcd(data.day())),
        (Register::Month.address(), dec_to_bcd(data.month())),
        (Register::Year.address(), dec_to_bcd(data.year())),
        // Single bit value only
        (Register::Weekday.address(), data.weekday()),
    ];
    frames
}

/// Writes `frames` in order, each to its register, and stops at the first
/// write that fails.
fn write_frames<T: BusTrait>(
    i2c: &mut Bus<T>,
    cu: &mut ClockRegisters,
    frames: &[(u8, u8); TIME_WRITES],
) -> (result: Result<(), DriverError<T::Error>>)
    ensures
        *final(cu) == *old(cu),
        continues(old(i2c).trace(), final(i2c).trace()),
        is_write_run(appended(old(i2c).trace(), final(i2c).trace()), old(cu).device(), frames@),
        result == write_outcome(appended(old(i2c).trace(), final(i2c).trace()).last()),
        result is Ok <==> appended(old(i2c).trace(), final(i2c).trace()).len() == TIME_WRITES
            && appended(old(i2c).trace(), final(i2c).trace()).last().succeeded(),
{
    let ghost before = i2c.trace();
    let ghost device = cu.device();
    proof {
        lemma_continues_self(before);
    }
    let mut i: usize = 0;
    while i < TIME_WRITES
        invariant
            i <= TIME_WRITES,
            *cu == *old(cu),
            device == cu.device(),
            before == old(i2c).trace(),
            continues(before, i2c.trace()),
            appended(before, i2c.trace()).len() == i,
            forall|j: int|
                0 <= j < i ==> is_register_write(
                    #[trigger] appended(before, i2c.trace())[j],
                    device,
                    frames@[j].0,
                    frames@[j].1,
                ),
            forall|j: int| 0 <= j < i ==> (#[trigger] appended(before, i2c.trace())[j]).succeeded(),
        decreases TIME_WRITES - i,
    {
        let ghost earlier = i2c.trace();
        let (reg_addr, byte) = frames[i];
        let outcome = cu.write_register_by_addr(i2c, reg_addr, byte);
        proof {
            // What was added before this write is still there, followed by
            // the write.
            lemma_continues_chain(before, earlier, i2c.trace());
            let added = appended(before, i2c.trace());
            assert forall|j: int| 0 <= j < i implies added[j] == appended(before, earlier)[j] by {}
        }
        match outcome {
            Ok(_) => {},
            Err(e) => {
                return Err(e);
            },
        }
        i = i + 1;
    }
    Ok(())
}

/// Sets the time of the chip behind `cu`.
///
/// Writes seconds, minutes, hours, date, month and year as BCD, each to its
/// register, then the weekday as it is, then clears the reset bit of the
/// control register. The year is given in full and must not lie before 2000;
/// the register gets the years since 2000. Returns `true` when every write
/// succeeded.
///
/// # Errors
///
/// Returns [`DriverError::YearOutOfRange`], with nothing sent, when the years
/// since 2000 do not fit in one byte, and the transport's error as soon as a
/// write fails.
pub fn set_time<T: BusTrait>(
    i2c: &mut Bus<T>,
    cu: &mut ClockRegisters,
    sec: u8,
    min: u8,
    hour: u8,
    weekday: u8,
    date: u8,
    month: u8,
    year: u16,
) -> (result: Result<bool, DriverError<T::Error>>)
    requires
        year >= 2000,
    ensures
        *final(cu) == *old(cu),
        match spec_year_register(year) {
            None => {
                &&& result == Err::<bool, DriverError<T::Error>>(DriverError::YearOutOfRange)
                &&& *final(i2c) == *old(i2c)
            },
            Some(count) => {
                &&& continues(old(i2c).trace(), final(i2c).trace())
                &&& is_time_write(
                    appended(old(i2c).trace(), final(i2c).trace()),
                    old(cu).device(),
                    time_fields(sec, min, hour, weekday, date, month, count),
                )
                &&& result == match time_write_result(
                    appended(old(i2c).trace(), final(i2c).trace()),
                ) {
                    Ok(_) => Ok::<bool, DriverError<T::Error>>(true),
                    Err(e) => Err(e),
                }
            },
        },
{
    let count: u8 = match year_register(year) {
        Some(count) => count,
        None => {
            return Err(DriverError::YearOutOfRange);
        },
    };
    let data = ClockData {
        hundredths: 0,
        seconds: sec,
        minutes: min,
        hours: hour,
        weekday,
        date,
        month,
        year: count,
    };
    match write_time(i2c, cu, &data) {
        Ok(_) => Ok(true),
        Err(e) => Err(e),
    }
}

/// Writes the time `data` to the chip behind `cu` and lets it resume
/// counting.
///
/// # Errors
///
/// Returns the transport's error as soon as a write fails.
pub fn write_time<T: BusTrait>(
    i2c: &mut Bus<T>,
    cu: &mut ClockRegisters,
    data: &ClockData,
) -> (result: Result<(), DriverError<T::Error>>)
    ensures
        *final(cu) == *old(cu),
        continues(old(i2c).trace(), final(i2c).trace()),
        is_time_write(appended(old(i2c).trace(), final(i2c).trace()), old(cu).device(), *data),
        result == time_write_result(appended(old(i2c).trace(), final(i2c).trace())),
{
    let ghost before = i2c.trace();
    let frames = frames_of(data);
    match write_frames(i2c, cu, &frames) {
        Ok(_) => {},
        Err(e) => {
            return Err(e);
        },
    }
    let ghost between = i2c.trace();
    // Set RESET bit to 0 in Control register to prevent seconds getting stuck.
    let cleared = cu.write_bit(
        i2c,
        Register::Control.address(),
        Register::ControlReset.address(),
        false,
    );
    proof {
        // Seven writes, then the two transactions of the bit change.
        lemma_continues_chain(before, between, i2c.trace());
        let added = appended(before, i2c.trace());
        assert(added.subrange(0, TIME_WRITES as int) =~= appended(before, between));
        assert(added.subrange(TIME_WRITES as int, TIME_WRITES + 2) =~= appended(
            between,
            i2c.trace(),
        ));
    }
    match cleared {
        Ok(_) => Ok(()),
        Err(e) => Err(e),
    }
}

/// Trait to update the clock of the I2C periph
pub trait Updatable: core::fmt::Debug + Copy + Clone {
    /// Set the date and time.
    ///
    /// Writes `data` to the chip behind `cu` as [`write_time`] does.
    ///
    /// # Errors
    ///
    /// Returns a [`DriverError`]
    fn set_datetime<T: BusTrait>(
        &mut self,
        i2c: &mut Bus<T>,
        addr: u8,
        cu: &mut ClockRegisters,
        data: &ClockData,
    ) -> (result: Result<(), DriverError<T::Error>>)
        ensures
            *final(self) == *old(self),
            *final(cu) == *old(cu),
            continues(old(i2c).trace(), final(i2c).trace()),
            is_time_write(appended(old(i2c).trace(), final(i2c).trace()), old(cu).device(), *data),
            result == time_write_result(appended(old(i2c).trace(), final(i2c).trace())),
    ;
}

impl Updatable for ClockData {
    fn set_datetime<T: BusTrait>(
        &mut self,
        i2c: &mut Bus<T>,
        _addr: u8,
        cu: &mut ClockRegisters,
        data: &ClockData,
    ) -> (result: Result<(), DriverError<T::Error>>) {
        write_time(i2c, cu, data)
    }
}

/// A year whose count from 2000 exceeds a byte is refused, and only such a
/// year.
pub proof fn lemma_year_register(year: u16)
    requires
        year >= 2000,
    ensures
        spec_year_register(year) is None <==> year >= 2256,
        spec_year_register(year) matches Some(count) ==> count == year - 2000,
{
}

} // verus!
