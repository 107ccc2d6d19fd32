//! A register held in memory: where it lies in the chip, how many bytes it
//! has, and the bytes last read from it or next to be written.
use crate::bus::{appended, continues, lemma_push_continues};
use crate::bus::{Bus, BusTrait, Transaction};
use crate::error::DriverError;
use crate::rtc::registers::{bytes_read, is_burst_read, write_outcome};
use vstd::prelude::*;

verus! {

/// A register of one or two bytes.
#[derive(Debug, Copy, Clone)]
pub struct Register {
    /// points to a specific register in the sensor
    ptr: u8,
    /// register contents, either 1 or 2 bytes
    buf: [u8; 2],
    /// actual register size in bytes, either 1 or 2
    len: u8,
}

/// What is read out of `data` into the two bytes of a register: the bytes of
/// `data`, then zeros.
pub open spec fn filled(data: Seq<u8>) -> Seq<u8> {
    Seq::new(
        2,
        |i: int|
            if i < data.len() {
                data[i]
            } else {
                0u8
            },
    )
}

/// The frame that writes a register of `len` bytes: the first `len` bytes out
/// of the register's address and its content.
pub open spec fn write_frame(ptr: u8, buf: Seq<u8>, len: u8) -> Seq<u8> {
    seq![ptr, buf[0], buf[1]].take(len as int)
}

impl Register {
    #[verifier::type_invariant]
    spec fn well_formed(self) -> bool {
        self.len <= 2
    }

    /// Where the register lies in the chip.
    pub closed spec fn spec_ptr(self) -> u8 {
        self.ptr
    }

    /// The number of bytes of the register.
    pub closed spec fn spec_len(self) -> u8 {
        self.len
    }

    /// Both bytes of the content, used or not.
    pub closed spec fn content(self) -> Seq<u8> {
        self.buf@
    }

    /// A register of `len` bytes at `ptr`, its content zero.
    pub fn new(ptr: u8, len: u8) -> (register: Self)
        requires
            len <= 2,
        ensures
            register.spec_ptr() == ptr,
            register.spec_len() == len,
            register.content() == seq![0u8, 0u8],
    {
        let buf: [u8; 2] = [0u8, 0];
        Register { ptr, buf, len }
    }

    /// The bytes of the content that are in use.
    pub fn get_buf(&self) -> (bytes: &[u8])
        ensures
            bytes@ == self.content().take(self.spec_len() as int),
            bytes@.len() == self.spec_len(),
            self.content().len() == 2,
            self.spec_len() <= 2,
    {
        proof {
            use_type_invariant(self);
        }
        let len: usize = self.len as usize;
        let bytes = &self.buf[0..len];
        bytes
    }

    /// Replaces both bytes of the content.
    pub fn set_buf(&mut self, val: [u8; 2])
        ensures
            final(self).content() == val@,
            final(self).spec_ptr() == old(self).spec_ptr(),
            final(self).spec_len() == old(self).spec_len(),
    {
        proof {
            use_type_invariant(&*self);
        }
        self.buf = val;
    }

    /// Where the register lies in the chip.
    #[verifier::when_used_as_spec(spec_ptr)]
    pub fn get_ptr(self) -> (ptr: u8)
        ensures
            ptr == self.spec_ptr(),
    {
        self.ptr
    }

    /// The number of bytes of the register.
    #[verifier::when_used_as_spec(spec_len)]
    pub fn get_len(self) -> (len: u8)
        ensures
            len == self.spec_len(),
            len <= 2,
    {
        proof {
            use_type_invariant(self);
        }
        self.len
    }
}

/// trait for a register that can be read from an i2c device
pub trait Read: core::fmt::Debug + Copy + Clone {
    /// Reads the register from the device at `addr`.
    ///
    /// # Errors
    ///
    /// Returns a [`DriverError`]
    fn read_from_device<T: BusTrait>(
        &mut self,
        i2c: &mut Bus<T>,
        addr: u8,
    ) -> (result: Result<(), DriverError<T::Error>>)
        ensures
            continues(old(i2c).trace(), final(i2c).trace()),
            appended(old(i2c).trace(), final(i2c).trace()).len() == 1,
    ;
}

impl Read for Register {
    /// Writes the register's address to the device and reads its bytes back,
    /// in one transaction. The content becomes what was read, followed by
    /// zeros; if the transaction fails the register is left as it was.
    fn read_from_device<T: BusTrait>(
        &mut self,
        i2c: &mut Bus<T>,
        addr: u8,
    ) -> (result: Result<(), DriverError<T::Error>>)
        ensures
            final(self).spec_ptr() == old(self).spec_ptr(),
            final(self).spec_len() == old(self).spec_len(),
            is_burst_read(
                appended(old(i2c).trace(), final(i2c).trace())[0],
                addr,
                old(self).spec_ptr(),
                old(self).spec_len() as nat,
            ),
            match bytes_read(appended(old(i2c).trace(), final(i2c).trace())[0]) {
                Ok(data) => result == Ok::<(), DriverError<T::Error>>(()) && final(self).content()
                    == filled(data),
                Err(e) => result == Err::<(), DriverError<T::Error>>(e) && *final(self) == *old(
                    self,
                ),
            },
    {
        proof {
            use_type_invariant(&*self);
        }
        let ghost before = i2c.trace();
        let frame: [u8; 1] = [self.get_ptr()];
        let mut buf: [u8; 2] = [0u8; 2];
        let outcome = if self.len == 0 {
            let mut none: [u8; 0] = [];
            i2c.write_read(addr, &frame, &mut none)
        } else if self.len == 1 {
            let mut one: [u8; 1] = [0u8];
            let outcome = i2c.write_read(addr, &frame, &mut one);
            buf[0] = one[0];
            outcome
        } else {
            i2c.write_read(addr, &frame, &mut buf)
        };
        proof {
            lemma_push_continues(before, i2c.trace().last());
            assert(frame@ =~= seq![self.spec_ptr()]);
        }
        match outcome {
            Ok(_) => {
                self.set_buf(buf);
                Ok(())
            },
            Err(e) => Err(DriverError::I2c(e)),
        }
    }
}

/// trait for a register that can be written to an i2c device
pub trait Write: Read {
    /// Writes the register to the device at `addr`.
    ///
    /// # Errors
    ///
    /// Returns a [`DriverError`]
    fn write_to_device<T: BusTrait>(
        &self,
        i2c: &mut Bus<T>,
        addr: u8,
    ) -> (result: Result<(), DriverError<T::Error>>)
        ensures
            continues(old(i2c).trace(), final(i2c).trace()),
            appended(old(i2c).trace(), final(i2c).trace()).len() == 1,
            result == write_outcome(appended(old(i2c).trace(), final(i2c).trace())[0]),
    ;
}

impl Write for Register {
    /// Writes one frame to the device: as many bytes as the register has,
    /// taken from its address followed by its content.
    fn write_to_device<T: BusTrait>(
        &self,
        i2c: &mut Bus<T>,
        addr: u8,
    ) -> (result: Result<(), DriverError<T::Error>>)
        ensures
            appended(old(i2c).trace(), final(i2c).trace())[0] matches Transaction::Write {
                address,
                bytes,
                ..
            } && address == addr && bytes == write_frame(
                self.spec_ptr(),
                self.content(),
                self.spec_len(),
            ),
    {
        let ghost before = i2c.trace();
        // reg ptr + 1 or 2 bytes
        let ptr: u8 = self.get_ptr();
        let mut buf: [u8; 3] = [ptr; 3];
        let used = self.get_buf();
        let mut i: usize = 0;
        while i < used.len()
            invariant
                i <= used.len() <= 2,
                used@ == self.content().take(self.spec_len() as int),
                buf@[0] == ptr,
                forall|j: int| 0 <= j < i ==> buf@[j + 1] == used@[j],
                forall|j: int| i < j < 3 ==> buf@[j] == ptr,
            decreases used.len() - i,
        {
            buf[i + 1] = used[i];
            i = i + 1;
        }
        let len: usize = self.get_len() as usize;
        let frame = &buf[0..len];
        proof {
            // The frame starts with the address; what follows was copied from
            // the content.
            let content = self.content();
            assert forall|j: int| 0 <= j < len implies frame@[j] == seq![
                ptr,
                content[0],
                content[1],
            ][j] by {
                if j > 0 {
                    assert(used@[j - 1] == content[j - 1]);
                }
            }
            assert(frame@ =~= write_frame(self.spec_ptr(), self.content(), self.spec_len()));
        }
        let outcome = i2c.write(addr, frame);
        proof {
            lemma_push_continues(before, i2c.trace().last());
        }
        match outcome {
            Ok(_) => Ok(()),
            Err(e) => Err(DriverError::I2c(e)),
        }
    }
}

} // verus!
