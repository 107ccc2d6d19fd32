//! What a chip that keeps its registers answers.
//!
//! The driver cannot look into the chip: all it has is what it sent and what
//! came back. The laws in this file say what comes back from a chip that
//! behaves as a register file, one that answers every read with the bytes
//! last written to the registers read. They tie the writing half of the
//! driver to its reading half.
use crate::bus::{appended, continues, Transaction};
use crate::error::DriverError;
use crate::models::misc::{lemma_dec_round_trip, spec_dec_to_bcd};
use crate::models::ClockData;
use crate::rtc::now::{at_risk, is_time_read, reading, settled, time_read_raw, time_read_result};
use crate::rtc::registers::{bit_of, byte_read, bytes_read, content_or_zero, with_bit};
use crate::rtc::registers::{is_bit_exchange, is_register_read, lemma_with_bit, Register};
use crate::rtc::update::{is_time_write, time_frames, time_write_result};
use vstd::prelude::*;

verus! {

/// The byte that the transaction `t` leaves in register `reg` of `device`, if
/// it is a write to that register that succeeded.
pub open spec fn stores<E>(t: Transaction<E>, device: u8, reg: u8) -> Option<u8> {
    match t {
        Transaction::Write { address, bytes, outcome } => if address == device && bytes.len() == 2
            && bytes[0] == reg && outcome is Ok {
            Some(bytes[1])
        } else {
            None
        },
        _ => None,
    }
}

/// What register `reg` of `device` holds after the transactions of `trace`:
/// the byte of the last write to that register that succeeded, if there was
/// one.
pub open spec fn last_written<E>(trace: Seq<Transaction<E>>, device: u8, reg: u8) -> Option<u8>
    decreases trace.len(),
{
    if trace.len() == 0 {
        None
    } else {
        match stores(trace.last(), device, reg) {
            Some(value) => Some(value),
            None => last_written(trace.drop_last(), device, reg),
        }
    }
}

/// Whether the read `t`, made after the transactions of `trace`, returned
/// what the registers held: its byte `i` is the byte last written to the
/// register `i` places after the one it started at, for every such register
/// that was written at all.
pub open spec fn answers_from_registers<E>(trace: Seq<Transaction<E>>, t: Transaction<E>) -> bool {
    match t {
        Transaction::WriteRead { address, request, response: Ok(data), .. } => {
            &&& request.len() == 1
            &&& forall|i: int|
                #![trigger data[i]]
                0 <= i < data.len() && request[0] + i < 256 ==> (last_written(
                    trace,
                    address,
                    (request[0] + i) as u8,
                ) matches Some(value) ==> data[i] == value)
        },
        _ => true,
    }
}

/// The last transaction that stores into a register decides what it holds.
pub proof fn lemma_last_written_at<E>(trace: Seq<Transaction<E>>, k: int, device: u8, reg: u8)
    requires
        0 <= k < trace.len(),
        stores(trace[k], device, reg) is Some,
        forall|j: int| k < j < trace.len() ==> stores(#[trigger] trace[j], device, reg) is None,
    ensures
        last_written(trace, device, reg) == stores(trace[k], device, reg),
    decreases trace.len(),
{
    if k < trace.len() - 1 {
        let shorter = trace.drop_last();
        assert(stores(trace[trace.len() - 1], device, reg) is None);
        assert forall|j: int| k < j < shorter.len() implies stores(
            #[trigger] shorter[j],
            device,
            reg,
        ) is None by {
            assert(shorter[j] == trace[j]);
        }
        lemma_last_written_at(shorter, k, device, reg);
    }
}

/// Changing a bit and reading the register back, on a chip that keeps its
/// registers, yields the content that the change started from with that one
/// bit replaced: the bit has its new value and the other seven are as they
/// were.
///
/// `before`, `changed` and `read` are the traces before the change, after it
/// and after the read.
pub proof fn lemma_write_bit_read_back<E>(
    before: Seq<Transaction<E>>,
    changed: Seq<Transaction<E>>,
    read: Seq<Transaction<E>>,
    device: u8,
    reg: u8,
    bit: u8,
    on: bool,
)
    requires
        bit < 8,
        continues(before, changed),
        is_bit_exchange(appended(before, changed), device, reg, bit, on),
        appended(before, changed)[1].succeeded(),
        continues(changed, read),
        appended(changed, read).len() == 1,
        is_register_read(appended(changed, read)[0], device, reg),
        appended(changed, read)[0].succeeded(),
        answers_from_registers(changed, appended(changed, read)[0]),
    ensures
        byte_read(appended(changed, read)[0]) == Ok::<u8, DriverError<E>>(
            with_bit(content_or_zero(appended(before, changed)[0]), bit, on),
        ),
        bit_of(byte_read(appended(changed, read)[0])->Ok_0, bit) == on,
        forall|other: u8|
            other < 8 && other != bit ==> bit_of(
                byte_read(appended(changed, read)[0])->Ok_0,
                other,
            ) == bit_of(content_or_zero(appended(before, changed)[0]), other),
{
    let added = appended(before, changed);
    let start = content_or_zero(added[0]);
    // The write of the exchange is the last transaction before the read, so
    // the register holds what it wrote.
    assert(changed.last() == added[1]);
    assert(last_written(changed, device, reg) == Some(with_bit(start, bit, on)));
    lemma_with_bit(start, bit, on, bit);
    assert forall|other: u8| other < 8 && other != bit implies bit_of(
        with_bit(start, bit, on),
        other,
    ) == bit_of(start, other) by {
        lemma_with_bit(start, bit, on, other);
    }
}

/// After the time was set, each time register holds the byte that was
/// written to it.
///
/// `before` and `set` are the traces before and after the time was set.
pub proof fn lemma_time_write_stores<E>(
    before: Seq<Transaction<E>>,
    set: Seq<Transaction<E>>,
    device: u8,
    data: ClockData,
)
    requires
        continues(before, set),
        is_time_write(appended(before, set), device, data),
        time_write_result(appended(before, set)) is Ok,
    ensures
        forall|k: int|
            0 <= k < 7 ==> last_written(set, device, #[trigger] time_frames(data)[k].0) == Some(
                time_frames(data)[k].1,
            ),
{
    let added = appended(before, set);
    let frames = time_frames(data);
    let base = before.len() as int;
    // All nine transactions were made: seven writes, then the bit change.
    assert(added.len() == 9);
    let writes = added.subrange(0, 7);
    assert forall|k: int| 0 <= k < 7 implies last_written(set, device, #[trigger] frames[k].0)
        == Some(frames[k].1) by {
        // Write `k` stores into its register, and nothing after it does:
        // the later writes go to other registers.
        assert(set[base + k] == writes[k]);
        assert(writes[k].succeeded());
        assert forall|j: int| base + k < j < set.len() implies stores(
            #[trigger] set[j],
            device,
            frames[k].0,
        ) is None by {
            if j < base + 7 {
                assert(set[j] == writes[j - base]);
            } else {
                assert(set[j] == added.subrange(7, 9)[j - base - 7]);
            }
        }
        lemma_last_written_at(set, base + k, device, frames[k].0);
    }
}

/// Setting the time and reading it, on a chip that keeps its registers,
/// gives back the time that was set: every field from the seconds to the
/// year, as long as the decimal fields are below 100, which is all that BCD
/// can hold. The hundredths are not set and may read as anything.
///
/// `before`, `set` and `read` are the traces before the time was set, after
/// it and after the read.
pub proof fn lemma_time_set_is_time_read<E>(
    before: Seq<Transaction<E>>,
    set: Seq<Transaction<E>>,
    read: Seq<Transaction<E>>,
    device: u8,
    data: ClockData,
)
    requires
        continues(before, set),
        is_time_write(appended(before, set), device, data),
        time_write_result(appended(before, set)) is Ok,
        continues(set, read),
        is_time_read(appended(set, read), device),
        time_read_result(appended(set, read)) is Ok,
        forall|i: int|
            0 <= i < appended(set, read).len() ==> answers_from_registers(
                set,
                #[trigger] appended(set, read)[i],
            ),
        data.seconds <= 99,
        data.minutes <= 99,
        data.hours <= 99,
        data.date <= 99,
        data.month <= 99,
        data.year <= 99,
    ensures
        reading(time_read_result(appended(set, read))->Ok_0).seconds == data.seconds,
        reading(time_read_result(appended(set, read))->Ok_0).minutes == data.minutes,
        reading(time_read_result(appended(set, read))->Ok_0).hours == data.hours,
        reading(time_read_result(appended(set, read))->Ok_0).weekday == data.weekday,
        reading(time_read_result(appended(set, read))->Ok_0).date == data.date,
        reading(time_read_result(appended(set, read))->Ok_0).month == data.month,
        reading(time_read_result(appended(set, read))->Ok_0).year == data.year,
{
    let bursts = appended(set, read);
    let frames = time_frames(data);
    lemma_time_write_stores(before, set, device, data);
    // The seven registers written are those that follow the hundredths.
    assert(frames[0].0 == 0x11 && frames[1].0 == 0x12 && frames[2].0 == 0x13);
    assert(frames[3].0 == 0x15 && frames[4].0 == 0x16 && frames[5].0 == 0x17);
    assert(frames[6].0 == 0x14);
    // What the registers hold, in burst order. The hundredths were not set.
    let held = seq![
        0u8,
        frames[0].1,
        frames[1].1,
        frames[2].1,
        frames[6].1,
        frames[3].1,
        frames[4].1,
        frames[5].1,
    ];
    assert forall|i: int, j: int|
        0 <= i < bursts.len() && bytes_read(bursts[i]) is Ok && 1 <= j < 8 implies (
    #[trigger] bytes_read(bursts[i])->Ok_0[j]) == held[j] by {
        assert(answers_from_registers(set, bursts[i]));
        assert(last_written(set, device, (0x10 + j) as u8) == Some(held[j]));
    }
    // Whichever reading was kept, it is one of the burst reads.
    let first = bytes_read(bursts[0])->Ok_0;
    let raw = time_read_raw(bursts)->Ok_0;
    assert(raw == first || raw == bytes_read(bursts[1])->Ok_0);
    assert(forall|j: int| 1 <= j < 8 ==> raw[j] == held[j]);
    assert(raw.len() == 8);
    lemma_dec_round_trip(data.seconds);
    lemma_dec_round_trip(data.minutes);
    lemma_dec_round_trip(data.hours);
    lemma_dec_round_trip(data.date);
    lemma_dec_round_trip(data.month);
    lemma_dec_round_trip(data.year);
}

} // verus!
