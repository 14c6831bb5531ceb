use vstd::prelude::*;

use crate::vm::class_file::JvmError;
use crate::class_file::bytes::{spec_be_u16, spec_be_u32};

verus! {

/// A forward-only reader over the bytes of a class file.
///
/// Every read either takes the bytes it needs from the front, or, when too few
/// remain, consumes all that remain and fails with `UnexpectedEof`.
pub struct Cursor<'a> {
    rest: &'a [u8],
}

impl<'a> View for Cursor<'a> {
    type V = Seq<u8>;

    /// The bytes not yet read.
    closed spec fn view(&self) -> Seq<u8> {
        self.rest@
    }
}

impl<'a> Cursor<'a> {
    /// A cursor at the first byte of `data`.
    pub fn new(data: &'a [u8]) -> (c: Self)
        ensures
            c@ == data@,
    {
        Self { rest: data }
    }

    /// Takes the next `n` bytes, or consumes everything when fewer remain.
    fn take(&mut self, n: usize) -> (res: Option<&'a [u8]>)
        ensures
            old(self)@.len() >= n ==> (res matches Some(b) && b@ == old(self)@.take(n as int)
                && final(self)@ == old(self)@.skip(n as int)),
            old(self)@.len() < n ==> res is None && final(self)@ == Seq::<u8>::empty(),
    {
        let len = self.rest.len();
        if len >= n {
            let taken = vstd::slice::slice_subrange(self.rest, 0, n);
            self.rest = vstd::slice::slice_subrange(self.rest, n, len);
            Some(taken)
        } else {
            self.rest = vstd::slice::slice_subrange(self.rest, len, len);
            None
        }
    }

    /// Reads a big-endian `u32`.
    pub fn u32(&mut self) -> (res: Result<u32, JvmError>)
        ensures
            old(self)@.len() >= 4 ==> res == Ok::<u32, JvmError>(spec_be_u32(old(self)@))
                && final(self)@ == old(self)@.skip(4),
            old(self)@.len() < 4 ==> res == Err::<u32, JvmError>(JvmError::UnexpectedEof)
                && final(self)@ == Seq::<u8>::empty(),
    {
        match self.take(4) {
            Some(b) => Ok(crate::class_file::bytes::be_u32(b[0], b[1], b[2], b[3])),
            None => Err(JvmError::UnexpectedEof),
        }
    }

    /// Reads a big-endian `u16`.
    pub fn u16(&mut self) -> (res: Result<u16, JvmError>)
        ensures
            old(self)@.len() >= 2 ==> res == Ok::<u16, JvmError>(spec_be_u16(old(self)@))
                && final(self)@ == old(self)@.skip(2),
            old(self)@.len() < 2 ==> res == Err::<u16, JvmError>(JvmError::UnexpectedEof)
                && final(self)@ == Seq::<u8>::empty(),
    {
        match self.take(2) {
            Some(b) => Ok(crate::class_file::bytes::be_u16(b[0], b[1])),
            None => Err(JvmError::UnexpectedEof),
        }
    }

    /// Reads one byte.
    pub fn u8(&mut self) -> (res: Result<u8, JvmError>)
        ensures
            old(self)@.len() >= 1 ==> res == Ok::<u8, JvmError>(old(self)@[0]) && final(self)@
                == old(self)@.skip(1),
            old(self)@.len() < 1 ==> res == Err::<u8, JvmError>(JvmError::UnexpectedEof)
                && final(self)@ == Seq::<u8>::empty(),
    {
        match self.take(1) {
            Some(b) => Ok(b[0]),
            None => Err(JvmError::UnexpectedEof),
        }
    }

    /// Reads one byte, if any remains.
    pub fn try_u8(&mut self) -> (res: Option<u8>)
        ensures
            old(self)@.len() >= 1 ==> res == Some(old(self)@[0]) && final(self)@ == old(
                self,
            )@.skip(1),
            old(self)@.len() < 1 ==> res is None && final(self)@ == Seq::<u8>::empty(),
    {
        match self.take(1) {
            Some(b) => Some(b[0]),
            None => None,
        }
    }

    /// Reads the next `n` bytes into a new vector.
    pub fn bytes(&mut self, n: usize) -> (res: Result<Vec<u8>, JvmError>)
        ensures
            old(self)@.len() >= n ==> (res matches Ok(v) && v@ == old(self)@.take(n as int)
                && final(self)@ == old(self)@.skip(n as int)),
            old(self)@.len() < n ==> (res matches Err(e) && e == JvmError::UnexpectedEof
                && final(self)@ == Seq::<u8>::empty()),
    {
        match self.take(n) {
            Some(b) => {
                let mut v: Vec<u8> = Vec::new();
                for i in 0..b.len()
                    invariant
                        v@ == b@.take(i as int),
                {
                    v.push(b[i]);
                }
                assert(v@ == b@);
                Ok(v)
            },
            None => Err(JvmError::UnexpectedEof),
        }
    }

    /// Fills `buf` from the front of the input. When fewer bytes remain than
    /// `buf` holds, the remaining bytes are written to its front and the read fails.
    pub fn read_exact(&mut self, buf: &mut [u8]) -> (res: Result<(), JvmError>)
        ensures
            final(buf)@.len() == old(buf)@.len(),
            old(self)@.len() >= old(buf)@.len() ==> res is Ok && final(buf)@ == old(self)@.take(
                old(buf)@.len() as int,
            ) && final(self)@ == old(self)@.skip(old(buf)@.len() as int),
            old(self)@.len() < old(buf)@.len() ==> res == Err::<(), JvmError>(
                JvmError::UnexpectedEof,
            ) && final(buf)@ == old(self)@ + old(buf)@.skip(old(self)@.len() as int)
                && final(self)@ == Seq::<u8>::empty(),
    {
        let n = buf.len();
        let avail = self.rest.len();
        let m = if avail < n {
            avail
        } else {
            n
        };
        for i in 0..m
            invariant
                m <= n,
                m <= avail,
                n == buf@.len(),
                n == old(buf)@.len(),
                avail == self.rest@.len(),
                self.rest@ == old(self)@,
                buf@ == old(self)@.take(i as int) + old(buf)@.skip(i as int),
        {
            let ghost prev = buf@;
            let b = self.rest[i];
            buf[i] = b;
            assert(buf@ == prev.update(i as int, b));
            assert(b == old(self)@[i as int]);
            assert(buf@ =~= old(self)@.take(i + 1) + old(buf)@.skip(i + 1));
        }
        if avail < n {
            self.rest = vstd::slice::slice_subrange(self.rest, avail, avail);
            assert(old(self)@.take(avail as int) == old(self)@);
            Err(JvmError::UnexpectedEof)
        } else {
            self.rest = vstd::slice::slice_subrange(self.rest, n, avail);
            assert(old(buf)@.skip(n as int) == Seq::<u8>::empty());
            assert(buf@ == old(self)@.take(n as int));
            Ok(())
        }
    }
}

} // verus!
