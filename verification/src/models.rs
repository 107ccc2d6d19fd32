//! Clock readings and calendar names.
use crate::formatter::{fitted, lemma_ascii_is_utf8, lemma_fitted_twice, ByteMutWriter};
use vstd::prelude::*;
use vstd::string::StringSliceAdditionalSpecFns;

pub mod misc;

verus! {

/// Holds the clock data.
///
/// Seconds, minutes, hours, date, month and year are plain decimal numbers.
/// The weekday is the chip's own encoding, one bit per day, see [`Weekday`].
/// The year counts from the start of its century.
#[derive(Debug, Copy, Clone, Default, PartialEq, Eq)]
pub struct ClockData {
    /// Hundredths.
    pub hundredths: u8,
    /// Seconds.
    pub seconds: u8,
    /// Minutes.
    pub minutes: u8,
    /// Hours.
    pub hours: u8,
    /// Weekday.
    pub weekday: u8,
    /// Date.
    pub date: u8,
    /// Month.
    pub month: u8,
    /// Year.
    pub year: u8,
}

impl ClockData {
    /// The reading with every field zero.
    pub open spec fn zero() -> ClockData {
        ClockData {
            hundredths: 0,
            seconds: 0,
            minutes: 0,
            hours: 0,
            weekday: 0,
            date: 0,
            month: 0,
            year: 0,
        }
    }

    /// Creates a [`ClockData`].
    #[must_use]
    pub fn new() -> (data: ClockData)
        ensures
            data == ClockData::zero(),
    {
        ClockData {
            hundredths: 0,
            seconds: 0,
            minutes: 0,
            hours: 0,
            weekday: 0,
            date: 0,
            month: 0,
            year: 0,
        }
    }

    /// Hundredths.
    #[must_use]
    pub fn hundredths(&self) -> (hundredths: u8)
        ensures
            hundredths == self.hundredths,
    {
        self.hundredths
    }

    /// Seconds.
    #[must_use]
    pub fn seconds(&self) -> (seconds: u8)
        ensures
            seconds == self.seconds,
    {
        self.seconds
    }

    /// Minutes.
    #[must_use]
    pub fn minutes(&self) -> (minutes: u8)
        ensures
            minutes == self.minutes,
    {
        self.minutes
    }

    /// Hours.
    #[must_use]
    pub fn hours(&self) -> (hours: u8)
        ensures
            hours == self.hours,
    {
        self.hours
    }

    /// Weekday.
    #[must_use]
    pub fn weekday(&self) -> (weekday: u8)
        ensures
            weekday == self.weekday,
    {
        self.weekday
    }

    /// Day. The rtc module refers to this as "date".
    #[must_use]
    pub fn day(&self) -> (day: u8)
        ensures
            day == self.date,
    {
        self.date
    }

    /// Month.
    #[must_use]
    pub fn month(&self) -> (month: u8)
        ensures
            month == self.month,
    {
        self.month
    }

    /// Year.
    #[must_use]
    pub fn year(&self) -> (year: u8)
        ensures
            year == self.year,
    {
        self.year
    }

    /// Set the date and time.  Hundredths is set to 0.
    ///
    /// The tuple holds hours, minutes, seconds, weekday, day, month and year,
    /// in that order.
    pub fn set(&mut self, value: (u8, u8, u8, Weekday, u8, Month, CurrentYear))
        ensures
            *final(self) == (ClockData {
                hundredths: 0,
                seconds: value.2,
                minutes: value.1,
                hours: value.0,
                weekday: value.3.mask(),
                date: value.4,
                month: value.5.number(),
                year: value.6.offset(),
            }),
    {
        let (hours, minutes, seconds, weekday, day, month, year) = value;

        self.hundredths = 0;
        self.hours = hours;
        self.minutes = minutes;
        self.seconds = seconds;
        self.weekday = weekday.value();
        self.date = day;
        self.month = month.value();
        self.year = year.0;
    }
}

/// Creates a tuple to hold the current year.
pub struct CurrentYear(u8);

impl CurrentYear {
    /// The year as the chip stores it: counted from 1900 before 2000, from
    /// 2000 after.
    pub open spec fn offset_of(value: u16) -> int {
        if value < 2000 {
            value - 1900
        } else {
            value - 2000
        }
    }

    /// The year counted from the start of its century.
    pub closed spec fn offset(self) -> u8 {
        self.0
    }

    /// Provides the current year as a [`u8`].
    ///
    /// A year from 1970 to 1999 is counted from 1900, a later one from 2000.
    /// The year must lie from 1970 to 2255: from 2256 on the count from 2000
    /// does not fit in a byte. [`CurrentYear::try_new`] takes any year and
    /// refuses those.
    pub fn new(value: u16) -> (year: Self)
        requires
            1970 <= value < 2256,
        ensures
            year.offset() == Self::offset_of(value),
            value < 2000 ==> year.offset() == value - 1900,
            value >= 2000 ==> year.offset() == value - 2000,
    {
        if value < 2000 {
            let offset: u16 = value - 1900;
            Self(offset as u8)
        } else {
            let offset: u16 = value - 2000;
            Self(offset as u8)
        }
    }

    /// Provides the year as [`CurrentYear::new`] does, and refuses a year
    /// that cannot be held: one before 1970, or one from 2256 on, whose count
    /// from 2000 does not fit in a byte.
    pub fn try_new(value: u16) -> (year: Option<Self>)
        ensures
            year is Some <==> 1970 <= value < 2256,
            year matches Some(y) ==> y.offset() == Self::offset_of(value),
    {
        if value < 1970 || value >= 2256 {
            None
        } else {
            Some(Self::new(value))
        }
    }

    /// The year counted from the start of its century.
    pub fn value(&self) -> (offset: u8)
        ensures
            offset == self.offset(),
    {
        self.0
    }
}

/// Enumerated type values for the weekday register.
///
/// The chip stores the weekday as a byte with a single bit set: bit 0 for
/// Sunday up to bit 6 for Saturday.
#[derive(Debug, Copy, Clone, PartialEq, Eq)]
pub enum Weekday {
    /// Sunday
    Sunday,
    /// Monday
    Monday,
    /// Tuesday
    Tuesday,
    /// Wednesday
    Wednesday,
    /// Thursday
    Thursday,
    /// Friday
    Friday,
    /// Saturday
    Saturday,
}

impl Weekday {
    /// The byte that the weekday register holds for this day.
    pub open spec fn mask(self) -> u8 {
        match self {
            Weekday::Sunday => 1,
            Weekday::Monday => 2,
            Weekday::Tuesday => 4,
            Weekday::Wednesday => 8,
            Weekday::Thursday => 16,
            Weekday::Friday => 32,
            Weekday::Saturday => 64,
        }
    }

    /// The day that a register byte stands for: the day whose bit is the only
    /// one set, and Sunday for every other byte.
    pub open spec fn of_mask(val: u8) -> Weekday {
        if val == 2 {
            Weekday::Monday
        } else if val == 4 {
            Weekday::Tuesday
        } else if val == 8 {
            Weekday::Wednesday
        } else if val == 16 {
            Weekday::Thursday
        } else if val == 32 {
            Weekday::Friday
        } else if val == 64 {
            Weekday::Saturday
        } else {
            Weekday::Sunday
        }
    }

    /// The English name of the day.
    pub open spec fn spec_name(self) -> Seq<char> {
        match self {
            Weekday::Sunday => "Sunday"@,
            Weekday::Monday => "Monday"@,
            Weekday::Tuesday => "Tuesday"@,
            Weekday::Wednesday => "Wednesday"@,
            Weekday::Thursday => "Thursday"@,
            Weekday::Friday => "Friday"@,
            Weekday::Saturday => "Saturday"@,
        }
    }

    /// Get variant from a provided value.
    ///
    /// A byte that is no weekday falls back to Sunday.
    #[must_use]
    pub fn from(val: u8) -> (day: Self)
        ensures
            day == Self::of_mask(val),
    {
        match val {
            1 => Self::Sunday,
            2 => Self::Monday,
            4 => Self::Tuesday,
            8 => Self::Wednesday,
            16 => Self::Thursday,
            32 => Self::Friday,
            64 => Self::Saturday,
            _ => Self::Sunday,
        }
    }

    /// The byte that the weekday register holds for this day.
    #[must_use]
    pub fn value(&self) -> (mask: u8)
        ensures
            mask == self.mask(),
    {
        match self {
            Self::Sunday => 1,
            Self::Monday => 2,
            Self::Tuesday => 4,
            Self::Wednesday => 8,
            Self::Thursday => 16,
            Self::Friday => 32,
            Self::Saturday => 64,
        }
    }

    /// The English name of the day.
    #[must_use]
    pub fn name(&self) -> (name: &'static str)
        ensures
            name@ == self.spec_name(),
    {
        match self {
            Self::Sunday => "Sunday",
            Self::Monday => "Monday",
            Self::Tuesday => "Tuesday",
            Self::Wednesday => "Wednesday",
            Self::Thursday => "Thursday",
            Self::Friday => "Friday",
            Self::Saturday => "Saturday",
        }
    }
}

/// Reading back the register byte of a day gives that day.
pub proof fn lemma_weekday_round_trip(day: Weekday)
    ensures
        Weekday::of_mask(day.mask()) == day,
{
}

/// Enumerated type values for the month register.
#[derive(Debug, Copy, Clone, PartialEq, Eq)]
pub enum Month {
    /// January
    January,
    /// February
    February,
    /// March
    March,
    /// April
    April,
    /// May
    May,
    /// June
    June,
    /// July
    July,
    /// August
    August,
    /// September
    September,
    /// October
    October,
    /// November
    November,
    /// December
    December,
}

impl Month {
    /// The number of the month, January being 1.
    pub open spec fn number(self) -> u8 {
        match self {
            Month::January => 1,
            Month::February => 2,
            Month::March => 3,
            Month::April => 4,
            Month::May => 5,
            Month::June => 6,
            Month::July => 7,
            Month::August => 8,
            Month::September => 9,
            Month::October => 10,
            Month::November => 11,
            Month::December => 12,
        }
    }

    /// The month with the number `val`, and January for every number that is
    /// not one of 1 to 12.
    pub open spec fn of_number(val: u8) -> Month {
        if val == 2 {
            Month::February
        } else if val == 3 {
            Month::March
        } else if val == 4 {
            Month::April
        } else if val == 5 {
            Month::May
        } else if val == 6 {
            Month::June
        } else if val == 7 {
            Month::July
        } else if val == 8 {
            Month::August
        } else if val == 9 {
            Month::September
        } else if val == 10 {
            Month::October
        } else if val == 11 {
            Month::November
        } else if val == 12 {
            Month::December
        } else {
            Month::January
        }
    }

    /// The English name of the month.
    pub open spec fn spec_name(self) -> Seq<char> {
        match self {
            Month::January => "January"@,
            Month::February => "February"@,
            Month::March => "March"@,
            Month::April => "April"@,
            Month::May => "May"@,
            Month::June => "June"@,
            Month::July => "July"@,
            Month::August => "August"@,
            Month::September => "September"@,
            Month::October => "October"@,
            Month::November => "November"@,
            Month::December => "December"@,
        }
    }

    /// Get variant from a provided value.
    ///
    /// A number that is no month falls back to January.
    #[must_use]
    pub fn from(val: u8) -> (month: Self)
        ensures
            month == Self::of_number(val),
    {
        match val {
            1 => Self::January,
            2 => Self::February,
            3 => Self::March,
            4 => Self::April,
            5 => Self::May,
            6 => Self::June,
            7 => Self::July,
            8 => Self::August,
            9 => Self::September,
            10 => Self::October,
            11 => Self::November,
            12 => Self::December,
            _ => Self::January,
        }
    }

    /// The number of the month, January being 1.
    #[must_use]
    pub fn value(&self) -> (number: u8)
        ensures
            number == self.number(),
    {
        match self {
            Self::January => 1,
            Self::February => 2,
            Self::March => 3,
            Self::April => 4,
            Self::May => 5,
            Self::June => 6,
            Self::July => 7,
            Self::August => 8,
            Self::September => 9,
            Self::October => 10,
            Self::November => 11,
            Self::December => 12,
        }
    }

    /// The English name of the month.
    #[must_use]
    pub fn name(&self) -> (name: &'static str)
        ensures
            name@ == self.spec_name(),
    {
        match self {
            Self::January => "January",
            Self::February => "February",
            Self::March => "March",
            Self::April => "April",
            Self::May => "May",
            Self::June => "June",
            Self::July => "July",
            Self::August => "August",
            Self::September => "September",
            Self::October => "October",
            Self::November => "November",
            Self::December => "December",
        }
    }
}

/// Reading back the number of a month gives that month.
pub proof fn lemma_month_round_trip(month: Month)
    ensures
        Month::of_number(month.number()) == month,
{
}

/// Enumerated type values for the year.
#[derive(Debug, Copy, Clone)]
pub enum Year {
    /// A year of the twentieth century.
    TwentiethCentury(u8),
    /// A year of the twenty-first century.
    TwentyFirstCentury(u8),
}

impl Default for Year {
    fn default() -> (year: Self)
        ensures
            year == Year::TwentyFirstCentury(20),
    {
        Self::TwentyFirstCentury(20)
    }
}

/// The ASCII digits of `value` in decimal, without leading zeros.
pub open spec fn decimal(value: u8) -> Seq<u8> {
    if value < 10 {
        seq![(48 + value) as u8]
    } else if value < 100 {
        seq![(48 + value / 10) as u8, (48 + value % 10) as u8]
    } else {
        seq![(48 + value / 100) as u8, (48 + (value / 10) % 10) as u8, (48 + value % 10) as u8]
    }
}

/// The padding that goes before `value`: one zero digit before a single
/// digit, nothing before a longer number.
pub open spec fn pad_of(value: u8) -> Seq<u8> {
    if value < 10 {
        seq![48u8]
    } else {
        Seq::empty()
    }
}

/// `value` in decimal, at least two digits long.
pub open spec fn padded(value: u8) -> Seq<u8> {
    pad_of(value) + decimal(value)
}

/// The two digits that a year of `century` begins with.
pub open spec fn century_digits(century: Year) -> Seq<u8> {
    match century {
        Year::TwentiethCentury(_) => seq![49u8, 57u8],
        Year::TwentyFirstCentury(_) => seq![50u8, 48u8],
    }
}

/// The year `value` of `century` in full.
pub open spec fn padded_year(value: u8, century: Year) -> Seq<u8> {
    century_digits(century) + padded(value)
}

/// Writes `value` in decimal.
fn write_decimal(buf: &mut ByteMutWriter<'_>, value: u8)
    ensures
        final(buf).bytes().len() == old(buf).bytes().len(),
        final(buf).written() == fitted(old(buf).written() + decimal(value), old(buf).bytes().len()),
{
    let ghost cap = buf.bytes().len();
    let ghost start = buf.written();
    let hundreds: u8 = 48 + value / 100;
    let tens: u8 = 48 + (value / 10) % 10;
    let units: u8 = 48 + value % 10;
    if value >= 100 {
        buf.write_byte(hundreds);
    }
    let ghost high = if value >= 100 {
        start + seq![hundreds]
    } else {
        start
    };
    if value >= 10 {
        buf.write_byte(tens);
        proof {
            lemma_fitted_twice(high, seq![tens], cap);
        }
    }
    let ghost middle = if value >= 10 {
        high + seq![tens]
    } else {
        high
    };
    buf.write_byte(units);
    proof {
        lemma_fitted_twice(middle, seq![units], cap);
        assert(middle + seq![units] =~= start + decimal(value));
    }
}

/// The padding that goes before `value` to make it two digits long.
pub fn common_padding(value: u8) -> (padding: &'static str)
    ensures
        padding.spec_bytes() == pad_of(value),
{
    if value < 10 {
        proof {
            reveal_strlit("0");
            vstd::string::is_ascii_spec_bytes("0");
        }
        "0"
    } else {
        proof {
            reveal_strlit("");
            vstd::string::is_ascii_spec_bytes("");
        }
        ""
    }
}

/// Writes `value` into `buf`, from its start, as two digits, and returns the
/// text. A buffer that is too small gets the digits that fit.
pub fn left_pad<'a>(buf: &'a mut ByteMutWriter<'_>, value: u8) -> (text: &'a str)
    ensures
        final(buf).bytes().len() == old(buf).bytes().len(),
        final(buf).written() == fitted(padded(value), old(buf).bytes().len()),
        text.spec_bytes() == fitted(padded(value), old(buf).bytes().len()),
{
    let ghost cap = buf.bytes().len();
    buf.clear();
    buf.write_str(common_padding(value));
    write_decimal(buf, value);
    proof {
        lemma_fitted_twice(pad_of(value), decimal(value), cap);
        lemma_ascii_is_utf8(padded(value), cap);
    }
    buf.as_str()
}

/// Writes the year `value` of `century` into `buf`, from its start, in full,
/// and returns the text. A buffer that is too small gets the digits that fit.
pub fn pad_year<'a>(buf: &'a mut ByteMutWriter<'_>, value: u8, century: Year) -> (text: &'a str)
    ensures
        final(buf).bytes().len() == old(buf).bytes().len(),
        final(buf).written() == fitted(padded_year(value, century), old(buf).bytes().len()),
        text.spec_bytes() == fitted(padded_year(value, century), old(buf).bytes().len()),
{
    let ghost cap = buf.bytes().len();
    buf.clear();
    match century {
        Year::TwentiethCentury(_) => {
            proof {
                reveal_strlit("19");
                vstd::string::is_ascii_spec_bytes("19");
                assert("19".spec_bytes() =~= seq![49u8, 57u8]);
            }
            buf.write_str("19");
        },
        Year::TwentyFirstCentury(_) => {
            proof {
                reveal_strlit("20");
                vstd::string::is_ascii_spec_bytes("20");
                assert("20".spec_bytes() =~= seq![50u8, 48u8]);
            }
            buf.write_str("20");
        },
    }
    let ghost head = century_digits(century);
    buf.write_str(common_padding(value));
    proof {
        lemma_fitted_twice(head, pad_of(value), cap);
    }
    write_decimal(buf, value);
    proof {
        lemma_fitted_twice(head + pad_of(value), decimal(value), cap);
        assert(head + pad_of(value) + decimal(value) =~= padded_year(value, century));
        lemma_ascii_is_utf8(padded_year(value, century), cap);
    }
    buf.as_str()
}

} // verus!
