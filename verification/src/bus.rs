//! The transport that the driver talks through.
//!
//! The chip sits on a serial bus behind a one-byte device address. The driver
//! needs two operations from a transport: write some bytes to a device, and
//! write some bytes then read an answer back in the same transaction.
//! [`BusTrait`] is that capability. [`Bus`] wraps a transport and keeps the
//! trace, the list of transactions made so far, each with what was sent and
//! what came back. Contracts speak of the bus through its trace.
use vstd::prelude::*;

verus! {

/// One transaction on the bus: what was asked and how it ended.
pub enum Transaction<E> {
    /// `bytes` were written to the device at `address`.
    Write {
        /// The device that was addressed.
        address: u8,
        /// The bytes that were sent.
        bytes: Seq<u8>,
        /// Whether the transport completed the write.
        outcome: Result<(), E>,
    },
    /// `request` was written to the device at `address`, then `len` bytes were
    /// read back.
    WriteRead {
        /// The device that was addressed.
        address: u8,
        /// The bytes that were sent.
        request: Seq<u8>,
        /// How many bytes were asked for.
        len: nat,
        /// The bytes that came back, or the transport's error.
        response: Result<Seq<u8>, E>,
    },
}

impl<E> Transaction<E> {
    /// Whether the transport completed the transaction.
    pub open spec fn succeeded(self) -> bool {
        match self {
            Transaction::Write { outcome, .. } => outcome is Ok,
            Transaction::WriteRead { response, .. } => response is Ok,
        }
    }

    /// The record of a write followed by a read that ended in `outcome` and
    /// left `data` in the buffer.
    pub open spec fn read_back(
        address: u8,
        request: Seq<u8>,
        len: nat,
        outcome: Result<(), E>,
        data: Seq<u8>,
    ) -> Transaction<E> {
        Transaction::WriteRead {
            address,
            request,
            len,
            response: match outcome {
                Ok(_) => Ok(data),
                Err(e) => Err(e),
            },
        }
    }
}

/// Whether the trace `after` begins with all of the trace `before`.
pub open spec fn continues<E>(before: Seq<Transaction<E>>, after: Seq<Transaction<E>>) -> bool {
    before.len() <= after.len() && after.subrange(0, before.len() as int) == before
}

/// The transactions that `after` holds beyond `before`.
pub open spec fn appended<E>(before: Seq<Transaction<E>>, after: Seq<Transaction<E>>) -> Seq<
    Transaction<E>,
> {
    after.subrange(before.len() as int, after.len() as int)
}

/// A transport that carries bytes to and from addressed devices.
///
/// This is the capability that the driver needs from the outside: an I2C
/// peripheral, or anything that behaves as one. Nothing is assumed of an
/// implementation: a transaction may fail, and a read may return any bytes.
pub trait BusTrait {
    /// Bus error.
    type Error;

    /// Writes `bytes` to the device at `address`, in one transaction.
    ///
    /// # Errors
    ///
    /// Will return [`BusTrait::Error`] if the write attempt fails.
    fn write(&mut self, address: u8, bytes: &[u8]) -> Result<(), Self::Error>;

    /// Writes `bytes` to the device at `address`, then reads as many bytes as
    /// `buffer` holds, in one transaction.
    ///
    /// # Errors
    ///
    /// Will return [`BusTrait::Error`] if the attempt fails; `buffer` then
    /// holds nothing of use.
    fn write_read(&mut self, address: u8, bytes: &[u8], buffer: &mut [u8]) -> Result<
        (),
        Self::Error,
    >;
}

/// A transport together with the record of what passed over it.
///
/// Every transaction of the driver goes through [`Bus::write`] or
/// [`Bus::write_read`], which hand it to the transport and add it to the
/// trace with its result. Nothing else can add to the trace or change it.
/// The trace is ghost: it costs nothing at run time and exists so that
/// contracts can say which transactions were made, in which order, and what
/// each of them returned.
pub struct Bus<I2C: BusTrait> {
    bus: I2C,
    log: Ghost<Seq<Transaction<I2C::Error>>>,
}

impl<I2C: BusTrait> Bus<I2C> {
    /// The transactions made on this bus so far, oldest first.
    pub closed spec fn trace(&self) -> Seq<Transaction<I2C::Error>> {
        self.log@
    }

    /// The transport underneath.
    pub closed spec fn transport(&self) -> I2C {
        self.bus
    }

    /// Creates a new [`Bus`] from an I2C peripheral. Its trace is empty.
    pub fn new(bus: I2C) -> (created: Self)
        ensures
            created.trace() == Seq::<Transaction<I2C::Error>>::empty(),
            created.transport() == bus,
    {
        Bus { bus, log: Ghost(Seq::empty()) }
    }

    /// Hands the transport back.
    pub fn free(self) -> (bus: I2C)
        ensures
            bus == self.transport(),
    {
        self.bus
    }

    /// Writes `bytes` to the device at `address`, in one transaction.
    ///
    /// # Errors
    ///
    /// Returns the transport's error if the write attempt fails.
    pub fn write(&mut self, address: u8, bytes: &[u8]) -> (outcome: Result<(), I2C::Error>)
        ensures
            final(self).trace() == old(self).trace().push(
                Transaction::Write { address, bytes: bytes@, outcome },
            ),
    {
        let outcome = self.bus.write(address, bytes);
        proof {
            self.log@ = self.log@.push(Transaction::Write { address, bytes: bytes@, outcome });
        }
        outcome
    }

    /// Writes `bytes` to the device at `address`, then reads as many bytes as
    /// `buffer` holds, in one transaction.
    ///
    /// # Errors
    ///
    /// Returns the transport's error if the attempt fails; `buffer` then
    /// holds nothing of use.
    pub fn write_read(&mut self, address: u8, bytes: &[u8], buffer: &mut [u8]) -> (outcome: Result<
        (),
        I2C::Error,
    >)
        ensures
            final(self).trace() == old(self).trace().push(
                Transaction::read_back(
                    address,
                    bytes@,
                    old(buffer)@.len(),
                    outcome,
                    final(buffer)@,
                ),
            ),
    {
        let outcome = self.bus.write_read(address, bytes, buffer);
        proof {
            self.log@ = self.log@.push(
                Transaction::read_back(address, bytes@, old(buffer)@.len(), outcome, buffer@),
            );
        }
        outcome
    }
}

/// Continuation is transitive, and what was appended adds up.
pub proof fn lemma_continues_chain<E>(
    a: Seq<Transaction<E>>,
    b: Seq<Transaction<E>>,
    c: Seq<Transaction<E>>,
)
    requires
        continues(a, b),
        continues(b, c),
    ensures
        continues(a, c),
        appended(a, c) == appended(a, b) + appended(b, c),
{
    // `c` agrees with `b` as far as `b` reaches, and `b` with `a`.
    assert(c.subrange(0, a.len() as int) =~= b.subrange(0, a.len() as int));
    assert(appended(a, c) =~= appended(a, b) + appended(b, c));
}

/// Pushing one transaction continues a trace by exactly that transaction.
pub proof fn lemma_push_continues<E>(a: Seq<Transaction<E>>, t: Transaction<E>)
    ensures
        continues(a, a.push(t)),
        appended(a, a.push(t)) == seq![t],
{
    assert(a.push(t).subrange(0, a.len() as int) =~= a);
}

/// A trace continues itself, by nothing.
pub proof fn lemma_continues_self<E>(a: Seq<Transaction<E>>)
    ensures
        continues(a, a),
        appended(a, a) == Seq::<Transaction<E>>::empty(),
{
    assert(a.subrange(0, a.len() as int) =~= a);
}

} // verus!
