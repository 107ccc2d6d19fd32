//! Format bytes using a formatter.
//!
//! [`ByteMutWriter`] writes text into a byte buffer that it was lent. It
//! never grows the buffer: what does not fit is dropped.
use vstd::prelude::*;
use vstd::string::StringSliceAdditionalSpecFns;
use vstd::utf8::valid_utf8;

verus! {

/// The text that `bytes` hold, if they are valid UTF-8.
///
/// States of `core::str::from_utf8` what its documentation says: it succeeds
/// exactly on valid UTF-8, and the text it returns is made of the very bytes
/// it was given.
#[verifier::external_body]
fn utf8_text(bytes: &[u8]) -> (text: Option<&str>)
    ensures
        text is Some <==> valid_utf8(bytes@),
        text matches Some(s) ==> s.spec_bytes() == bytes@,
{
    core::str::from_utf8(bytes).ok()
}

/// What a buffer holds after `text` was written at `cursor`: the bytes of
/// `text` from `cursor` on, as far as the buffer reaches, and the old bytes
/// everywhere else.
pub open spec fn overwritten(bytes: Seq<u8>, cursor: nat, text: Seq<u8>) -> Seq<u8> {
    Seq::new(
        bytes.len(),
        |i: int|
            if cursor <= i < cursor + text.len() {
                text[i - cursor]
            } else {
                bytes[i]
            },
    )
}

/// Where the cursor stands after `count` bytes were written at `cursor` into
/// a buffer of `capacity` bytes.
pub open spec fn advanced(capacity: nat, cursor: nat, count: nat) -> nat {
    if cursor + count < capacity {
        cursor + count
    } else {
        capacity
    }
}

/// `text` cut down to what fits in `capacity` bytes.
pub open spec fn fitted(text: Seq<u8>, capacity: nat) -> Seq<u8> {
    if text.len() <= capacity {
        text
    } else {
        text.take(capacity as int)
    }
}

/// Cutting a text, adding to it and cutting again gives what cutting the
/// whole would give.
pub proof fn lemma_fitted_twice(first: Seq<u8>, second: Seq<u8>, capacity: nat)
    ensures
        fitted(fitted(first, capacity) + second, capacity) == fitted(first + second, capacity),
{
    assert(fitted(fitted(first, capacity) + second, capacity) =~= fitted(
        first + second,
        capacity,
    ));
}

/// Text made of ASCII bytes alone is valid UTF-8, and stays so when cut.
pub proof fn lemma_ascii_is_utf8(text: Seq<u8>, capacity: nat)
    requires
        forall|i: int| 0 <= i < text.len() ==> text[i] < 128,
    ensures
        valid_utf8(text),
        valid_utf8(fitted(text, capacity)),
{
    vstd::utf8::partial_valid_utf8_extend_ascii_block(text, 0, text.len() as int);
    assert(text.subrange(0, text.len() as int) =~= text);
    let cut = fitted(text, capacity);
    vstd::utf8::partial_valid_utf8_extend_ascii_block(cut, 0, cut.len() as int);
    assert(cut.subrange(0, cut.len() as int) =~= cut);
}

/// A writer into a fixed byte buffer.
pub struct ByteMutWriter<'a> {
    buf: &'a mut [u8],
    cursor: usize,
}

impl<'a> ByteMutWriter<'a> {
    #[verifier::type_invariant]
    spec fn well_formed(self) -> bool {
        self.cursor <= self.buf@.len()
    }

    /// The whole buffer, written or not.
    pub closed spec fn bytes(&self) -> Seq<u8> {
        self.buf@
    }

    /// The number of bytes written so far.
    pub closed spec fn spec_len(&self) -> nat {
        self.cursor as nat
    }

    /// The bytes written so far.
    pub open spec fn written(&self) -> Seq<u8> {
        self.bytes().take(self.spec_len() as int)
    }

    /// A writer at the start of `buf`.
    pub fn new(buf: &'a mut [u8]) -> (writer: Self)
        ensures
            writer.bytes() == old(buf)@,
            writer.spec_len() == 0,
    {
        ByteMutWriter { buf, cursor: 0 }
    }

    /// The text written so far.
    ///
    /// The bytes written so far must be valid UTF-8, which they are when
    /// only whole texts were written and none was cut short in the middle of
    /// a character.
    pub fn as_str(&self) -> (text: &str)
        requires
            valid_utf8(self.written()),
        ensures
            text.spec_bytes() == self.written(),
    {
        proof {
            use_type_invariant(self);
        }
        let used = &self.buf[0..self.cursor];
        match utf8_text(used) {
            Some(text) => text,
            None => vstd::pervasive::unreached(),
        }
    }

    /// The size of the buffer.
    #[inline]
    pub fn capacity(&self) -> (capacity: usize)
        ensures
            capacity == self.bytes().len(),
            self.spec_len() <= capacity,
    {
        proof {
            use_type_invariant(self);
        }
        self.buf.len()
    }

    /// Forgets what was written: the next write starts at the beginning.
    pub fn clear(&mut self)
        ensures
            final(self).spec_len() == 0,
            final(self).bytes() == old(self).bytes(),
    {
        self.cursor = 0;
    }

    /// The number of bytes written so far.
    pub fn len(&self) -> (len: usize)
        ensures
            len == self.spec_len(),
            len <= self.bytes().len(),
    {
        proof {
            use_type_invariant(self);
        }
        self.cursor
    }

    /// Whether nothing was written.
    pub fn empty(&self) -> (empty: bool)
        ensures
            empty == (self.spec_len() == 0),
    {
        self.cursor == 0
    }

    /// Whether the buffer is used up.
    pub fn full(&self) -> (full: bool)
        ensures
            full == (self.spec_len() == self.bytes().len()),
    {
        self.capacity() == self.cursor
    }

    /// Writes one byte, unless the buffer is full.
    pub fn write_byte(&mut self, byte: u8)
        ensures
            final(self).bytes() == overwritten(old(self).bytes(), old(self).spec_len(), seq![byte]),
            final(self).spec_len() == advanced(old(self).bytes().len(), old(self).spec_len(), 1),
            final(self).written() == fitted(
                old(self).written() + seq![byte],
                old(self).bytes().len(),
            ),
    {
        proof {
            use_type_invariant(&*self);
        }
        if self.cursor < self.buf.len() {
            self.buf[self.cursor] = byte;
            self.cursor = self.cursor + 1;
        }
        assert(self.written() =~= fitted(
            old(self).written() + seq![byte],
            old(self).bytes().len(),
        ));
    }

    /// Writes the bytes of `s` after what was written before, as far as the
    /// buffer reaches, and moves on by as many bytes.
    pub fn write_str(&mut self, s: &str)
        ensures
            final(self).bytes() == overwritten(
                old(self).bytes(),
                old(self).spec_len(),
                s.spec_bytes(),
            ),
            final(self).spec_len() == advanced(
                old(self).bytes().len(),
                old(self).spec_len(),
                s.spec_bytes().len(),
            ),
            final(self).written() == fitted(
                old(self).written() + s.spec_bytes(),
                old(self).bytes().len(),
            ),
    {
        proof {
            use_type_invariant(&*self);
        }
        let text = s.as_bytes();
        let cap: usize = self.buf.len();
        let start: usize = self.cursor;
        let mut i: usize = 0;
        while i < text.len() && self.cursor < cap
            invariant
                cap == self.buf@.len(),
                cap == old(self).bytes().len(),
                start == old(self).spec_len(),
                start <= cap,
                i <= text.len(),
                self.cursor == start + i,
                self.cursor <= cap,
                text@ == s.spec_bytes(),
                forall|j: int|
                    0 <= j < cap ==> self.buf@[j] == if start <= j < start + i {
                        text@[j - start]
                    } else {
                        old(self).bytes()[j]
                    },
            decreases text.len() - i,
        {
            self.buf[self.cursor] = text[i];
            self.cursor = self.cursor + 1;
            i = i + 1;
        }
        assert(self.written() =~= fitted(
            old(self).written() + s.spec_bytes(),
            old(self).bytes().len(),
        ));
    }
}

} // verus!
