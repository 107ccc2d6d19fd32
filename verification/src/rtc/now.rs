//! Reading the time.
//!
//! The chip cannot latch its time registers, so a burst read may straddle
//! the moment at which the hundredths or the seconds wrap, and mix values
//! from before and after. The read therefore looks at what it got: when the
//! hundredths stand at 99 or the seconds at 59 it reads once more, and takes
//! the second reading if its hundredths are lower than those of the first,
//! which shows that the counter has wrapped in between.
use crate::bus::{appended, continues, lemma_continues_chain};
use crate::bus::{Bus, BusTrait, Transaction};
use crate::error::DriverError;
use crate::models::misc::{bcd_to_dec, spec_bcd_to_dec};
use crate::models::ClockData;
use crate::rtc::registers::{bytes_read, is_burst_read, new, Register};
use vstd::prelude::*;

verus! {

/// Number of time registers read in one burst: hundredths, seconds, minutes,
/// hours, weekday, date, month and year, in this order.
pub const TIME_ARRAY_LENGTH: usize = 8;

/// Place of the weekday in a burst. It is a bit mask and is never decoded.
pub const WEEKDAY_INDEX: usize = 4;

/// Whether a raw reading may have been taken across a wrap: its hundredths
/// decode to 99 or its seconds to 59.
pub open spec fn at_risk(raw: Seq<u8>) -> bool {
    spec_bcd_to_dec(raw[0]) == 99 || spec_bcd_to_dec(raw[1]) == 59
}

/// Whether the hundredths wrapped between two raw readings: those of the
/// second decode to less than those of the first.
pub open spec fn rolled_over(first: Seq<u8>, second: Seq<u8>) -> bool {
    spec_bcd_to_dec(second[0]) < spec_bcd_to_dec(first[0])
}

/// The raw reading that is kept out of two: the second if the hundredths
/// wrapped in between, else the first.
pub open spec fn settled(first: Seq<u8>, second: Seq<u8>) -> Seq<u8> {
    if rolled_over(first, second) {
        second
    } else {
        first
    }
}

/// A raw reading in decimal: every byte decoded from BCD but the weekday,
/// which is kept as it is.
pub open spec fn decoded(raw: Seq<u8>) -> Seq<u8> {
    Seq::new(
        raw.len(),
        |i: int|
            if i == WEEKDAY_INDEX {
                raw[i]
            } else {
                spec_bcd_to_dec(raw[i])
            },
    )
}

/// The clock data that a decoded reading holds.
pub open spec fn reading(bytes: Seq<u8>) -> ClockData {
    ClockData {
        hundredths: bytes[0],
        seconds: bytes[1],
        minutes: bytes[2],
        hours: bytes[3],
        weekday: bytes[4],
        date: bytes[5],
        month: bytes[6],
        year: bytes[7],
    }
}

/// Whether `added` is what a time read puts on the bus of `device`: one burst
/// read of the eight time registers, and a second one exactly when the first
/// succeeded and is at risk.
pub open spec fn is_time_read<E>(added: Seq<Transaction<E>>, device: u8) -> bool {
    &&& 1 <= added.len() <= 2
    &&& is_burst_read(added[0], device, Register::Hundredths.spec_address(), 8)
    &&& added.len() == 2 <==> (bytes_read(added[0]) matches Ok(first) && at_risk(first))
    &&& added.len() == 2 ==> is_burst_read(
        added[1],
        device,
        Register::Hundredths.spec_address(),
        8,
    )
    &&& forall|i: int|
        0 <= i < added.len() ==> (bytes_read(#[trigger] added[i]) matches Ok(raw) ==> raw.len()
            == 8)
}

/// The raw reading that a time read keeps, from what its burst reads
/// returned, or the error of the burst read that failed.
pub open spec fn time_read_raw<E>(added: Seq<Transaction<E>>) -> Result<Seq<u8>, DriverError<E>> {
    match bytes_read(added[0]) {
        Err(e) => Err(e),
        Ok(first) => if !at_risk(first) {
            Ok(first)
        } else {
            match bytes_read(added[1]) {
                Err(e) => Err(e),
                Ok(second) => Ok(settled(first, second)),
            }
        },
    }
}

/// The outcome of a time read: the reading kept, decoded, or the error of
/// the burst read that failed.
pub open spec fn time_read_result<E>(added: Seq<Transaction<E>>) -> Result<
    Seq<u8>,
    DriverError<E>,
> {
    match time_read_raw(added) {
        Ok(raw) => Ok(decoded(raw)),
        Err(e) => Err(e),
    }
}

/// Tells whether a raw reading calls for a second one.
pub fn needs_second_reading(raw: &[u8; TIME_ARRAY_LENGTH]) -> (again: bool)
    ensures
        again == at_risk(raw@),
{
    bcd_to_dec(raw[0]) == 99 || bcd_to_dec(raw[1]) == 59
}

/// Tells whether the hundredths wrapped between two raw readings.
pub fn has_rolled_over(
    first: &[u8; TIME_ARRAY_LENGTH],
    second: &[u8; TIME_ARRAY_LENGTH],
) -> (wrapped: bool)
    ensures
        wrapped == rolled_over(first@, second@),
{
    bcd_to_dec(second[0]) < bcd_to_dec(first[0])
}

/// Picks, out of two raw readings, the one to keep.
pub fn settle(
    first: [u8; TIME_ARRAY_LENGTH],
    second: [u8; TIME_ARRAY_LENGTH],
) -> (kept: [u8; TIME_ARRAY_LENGTH])
    ensures
        kept@ == settled(first@, second@),
{
    if has_rolled_over(&first, &second) {
        second
    } else {
        first
    }
}

/// Converts a raw reading to decimal, all but the weekday.
pub fn decode(raw: &[u8; TIME_ARRAY_LENGTH]) -> (buf: [u8; TIME_ARRAY_LENGTH])
    ensures
        buf@ == decoded(raw@),
{
    let mut buf: [u8; TIME_ARRAY_LENGTH] = [0; TIME_ARRAY_LENGTH];
    let mut i: usize = 0;
    while i < TIME_ARRAY_LENGTH
        invariant
            i <= TIME_ARRAY_LENGTH,
            forall|j: int| 0 <= j < i ==> buf@[j] == decoded(raw@)[j],
        decreases TIME_ARRAY_LENGTH - i,
    {
        // The weekday is a bit mask, not a number.
        if i == WEEKDAY_INDEX {
            buf[i] = raw[i];
        } else {
            buf[i] = bcd_to_dec(raw[i]);
        }
        i = i + 1;
    }
    buf
}

/// Builds the clock data from a decoded reading.
pub fn clock_data(bytes: &[u8; TIME_ARRAY_LENGTH]) -> (data: ClockData)
    ensures
        data == reading(bytes@),
{
    ClockData {
        hundredths: bytes[0],
        seconds: bytes[1],
        minutes: bytes[2],
        hours: bytes[3],
        weekday: bytes[4],
        date: bytes[5],
        month: bytes[6],
        year: bytes[7],
    }
}

/// Reads the time of the chip at `addr` into `dest`, in decimal.
///
/// Burst-reads the eight time registers. If the reading is at risk it reads
/// them once more and keeps the second reading when the hundredths have
/// wrapped in between, else the first. The reading kept is decoded, all but
/// the weekday, and stored in `dest`. Returns `true` then.
///
/// # Errors
///
/// Returns the transport's error as soon as a burst read fails. `dest` is
/// then left as it was.
pub fn update_time<T: BusTrait>(
    i2c: &mut Bus<T>,
    addr: u8,
    dest: &mut [u8; TIME_ARRAY_LENGTH],
) -> (result: Result<bool, DriverError<T::Error>>)
    ensures
        continues(old(i2c).trace(), final(i2c).trace()),
        is_time_read(appended(old(i2c).trace(), final(i2c).trace()), addr),
        match time_read_result(appended(old(i2c).trace(), final(i2c).trace())) {
            Ok(bytes) => result == Ok::<bool, DriverError<T::Error>>(true) && final(dest)@
                == bytes,
            Err(e) => result == Err::<bool, DriverError<T::Error>>(e) && *final(dest) == *old(
                dest,
            ),
        },
{
    let ghost before = i2c.trace();
    let mut registers = new(addr);
    let mut first: [u8; TIME_ARRAY_LENGTH] = [0; TIME_ARRAY_LENGTH];
    match registers.read_multiple_registers(i2c, Register::Hundredths.address(), &mut first) {
        Ok(true) => {},
        // A reading that reports failure ends the read, as an error does.
        Ok(false) => {
            return Ok(false);
        },
        Err(e) => {
            return Err(e);
        },
    }
    // A reading taken at 99 hundredths or at 59 seconds may straddle a wrap.
    if needs_second_reading(&first) {
        let ghost between = i2c.trace();
        let mut second: [u8; TIME_ARRAY_LENGTH] = [0; TIME_ARRAY_LENGTH];
        let outcome = registers.read_multiple_registers(
            i2c,
            Register::Hundredths.address(),
            &mut second,
        );
        proof {
            lemma_continues_chain(before, between, i2c.trace());
        }
        match outcome {
            Ok(true) => {},
            Ok(false) => {
                return Ok(false);
            },
            Err(e) => {
                return Err(e);
            },
        }
        first = settle(first, second);
    }
    *dest = decode(&first);
    Ok(true)
}

/// Trait to read from I2C periph
pub trait Readable: core::fmt::Debug + Copy + Clone {
    /// Fetch the latest date and time.
    ///
    /// Reads the time of the chip at `addr` as [`update_time`] does and
    /// stores it in `data`.
    ///
    /// # Errors
    ///
    /// Returns a [`DriverError`]; `data` is then left as it was.
    fn now<T: BusTrait>(
        &mut self,
        i2c: &mut Bus<T>,
        addr: u8,
        data: &mut ClockData,
    ) -> (result: Result<(), DriverError<T::Error>>)
        ensures
            *final(self) == *old(self),
            continues(old(i2c).trace(), final(i2c).trace()),
            is_time_read(appended(old(i2c).trace(), final(i2c).trace()), addr),
            match time_read_result(appended(old(i2c).trace(), final(i2c).trace())) {
                Ok(bytes) => result == Ok::<(), DriverError<T::Error>>(()) && *final(data)
                    == reading(bytes),
                Err(e) => result == Err::<(), DriverError<T::Error>>(e) && *final(data) == *old(
                    data,
                ),
            },
    ;
}

impl Readable for ClockData {
    fn now<T: BusTrait>(
        &mut self,
        i2c: &mut Bus<T>,
        addr: u8,
        data: &mut ClockData,
    ) -> (result: Result<(), DriverError<T::Error>>) {
        let mut buf: [u8; TIME_ARRAY_LENGTH] = [0; TIME_ARRAY_LENGTH];
        match update_time(i2c, addr, &mut buf) {
            Ok(_) => {
                *data = clock_data(&buf);
                Ok(())
            },
            Err(e) => Err(e),
        }
    }
}

/// When the first reading shows 99 hundredths and the second shows fewer,
/// the counter has wrapped and the read yields the second reading, decoded.
pub proof fn lemma_rollover_takes_second<E>(added: Seq<Transaction<E>>, device: u8)
    requires
        is_time_read(added, device),
        bytes_read(added[0]) matches Ok(first) && spec_bcd_to_dec(first[0]) == 99,
        added.len() == 2 ==> (bytes_read(added[1]) matches Ok(second) && spec_bcd_to_dec(second[0])
            < 99),
    ensures
        added.len() == 2,
        time_read_result(added) == Ok::<Seq<u8>, DriverError<E>>(
            decoded(bytes_read(added[1])->Ok_0),
        ),
{
}

/// When the first reading is at risk and the hundredths of the second are not
/// lower than those of the first, nothing has wrapped and the read yields the
/// first reading, decoded.
pub proof fn lemma_no_rollover_keeps_first<E>(added: Seq<Transaction<E>>, device: u8)
    requires
        is_time_read(added, device),
        bytes_read(added[0]) matches Ok(first) && at_risk(first),
        added.len() == 2 ==> (bytes_read(added[1]) matches Ok(second) && spec_bcd_to_dec(second[0])
            >= spec_bcd_to_dec(bytes_read(added[0])->Ok_0[0])),
    ensures
        added.len() == 2,
        time_read_result(added) == Ok::<Seq<u8>, DriverError<E>>(
            decoded(bytes_read(added[0])->Ok_0),
        ),
{
}

/// A reading that is not at risk is taken as it is, after one burst read.
pub proof fn lemma_safe_reading_is_final<E>(added: Seq<Transaction<E>>, device: u8)
    requires
        is_time_read(added, device),
        bytes_read(added[0]) matches Ok(first) && !at_risk(first),
    ensures
        added.len() == 1,
        time_read_result(added) == Ok::<Seq<u8>, DriverError<E>>(
            decoded(bytes_read(added[0])->Ok_0),
        ),
{
}

/// When the first burst read fails, the time read fails with its error after
/// that one transaction.
pub proof fn lemma_first_failure_aborts<E>(added: Seq<Transaction<E>>, device: u8)
    requires
        is_time_read(added, device),
        bytes_read(added[0]) is Err,
    ensures
        added.len() == 1,
        time_read_result(added) == Err::<Seq<u8>, DriverError<E>>(bytes_read(added[0])->Err_0),
{
}

/// A time read hands the weekday on as the chip gave it, whatever byte that
/// is, and decodes every other field from BCD.
pub proof fn lemma_weekday_passes_through<E>(added: Seq<Transaction<E>>, device: u8)
    requires
        is_time_read(added, device),
        time_read_raw(added) is Ok,
    ensures
        time_read_result(added) is Ok,
        reading(time_read_result(added)->Ok_0).weekday == time_read_raw(added)->Ok_0[4],
        reading(time_read_result(added)->Ok_0).hundredths == spec_bcd_to_dec(
            time_read_raw(added)->Ok_0[0],
        ),
        reading(time_read_result(added)->Ok_0).seconds == spec_bcd_to_dec(
            time_read_raw(added)->Ok_0[1],
        ),
        reading(time_read_result(added)->Ok_0).minutes == spec_bcd_to_dec(
            time_read_raw(added)->Ok_0[2],
        ),
        reading(time_read_result(added)->Ok_0).hours == spec_bcd_to_dec(
            time_read_raw(added)->Ok_0[3],
        ),
        reading(time_read_result(added)->Ok_0).date == spec_bcd_to_dec(
            time_read_raw(added)->Ok_0[5],
        ),
        reading(time_read_result(added)->Ok_0).month == spec_bcd_to_dec(
            time_read_raw(added)->Ok_0[6],
        ),
        reading(time_read_result(added)->Ok_0).year == spec_bcd_to_dec(
            time_read_raw(added)->Ok_0[7],
        ),
{
    // Every burst read that succeeded returned eight bytes, and the reading
    // kept is one of them.
    assert(time_read_raw(added)->Ok_0.len() == 8);
}

} // verus!
