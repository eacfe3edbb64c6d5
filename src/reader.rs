//! A forward-only reader of little-endian fields over a byte buffer.
use vstd::prelude::*;

use crate::error::DecodeError;

verus! {

/// The value of the first two bytes of `s`, little-endian.
pub open spec fn le16(s: Seq<u8>) -> nat {
    s[0] as nat + 256 * (s[1] as nat)
}

/// The value of the first four bytes of `s`, little-endian.
pub open spec fn le32(s: Seq<u8>) -> nat {
    s[0] as nat + 256 * (s[1] as nat) + 65536 * (s[2] as nat) + 16777216 * (s[3] as nat)
}

/// A byte source read from the front. Its view is the bytes not yet read.
pub struct ByteReader {
    data: Vec<u8>,
    pos: usize,
}

impl View for ByteReader {
    type V = Seq<u8>;

    closed spec fn view(&self) -> Seq<u8> {
        self.data@.subrange(self.pos as int, self.data@.len() as int)
    }
}

impl ByteReader {
    #[verifier::type_invariant]
    spec fn inv(&self) -> bool {
        self.pos <= self.data.len()
    }

    pub fn new(data: Vec<u8>) -> (r: ByteReader)
        ensures
            r@ == data@,
    {
        let r = ByteReader { data, pos: 0 };
        assert(r@ =~= r.data@);
        r
    }

    /// The number of bytes not yet read.
    pub fn remaining(&self) -> (n: usize)
        ensures
            n == self@.len(),
    {
        proof { use_type_invariant(self); }
        self.data.len() - self.pos
    }

    /// Takes the next `n` bytes; fails, reading nothing, where fewer remain.
    pub fn read_exact(&mut self, n: usize) -> (r: Result<Vec<u8>, DecodeError>)
        ensures
            old(self)@.len() >= n ==> r is Ok && r->Ok_0@ == old(self)@.take(n as int)
                && final(self)@ == old(self)@.skip(n as int),
            old(self)@.len() < n ==> r == Err::<Vec<u8>, DecodeError>(
                DecodeError::UnexpectedEndOfInput,
            ) && final(self)@ == old(self)@,
    {
        proof { use_type_invariant(&*self); }
        if self.data.len() - self.pos < n {
            return Err(DecodeError::UnexpectedEndOfInput);
        }
        let mut out: Vec<u8> = Vec::new();
        let mut i: usize = 0;
        while i < n
            invariant
                i <= n,
                self.pos + n <= self.data.len(),
                out@ == self.data@.subrange(self.pos as int, self.pos + i),
            decreases n - i,
        {
            out.push(self.data[self.pos + i]);
            proof {
                assert(out@ =~= self.data@.subrange(self.pos as int, self.pos + i + 1));
            }
            i = i + 1;
        }
        self.pos = self.pos + n;
        proof {
            assert(out@ =~= old(self)@.take(n as int));
            assert(self@ =~= old(self)@.skip(n as int));
        }
        Ok(out)
    }

    pub fn read_u8(&mut self) -> (r: Result<u8, DecodeError>)
        ensures
            old(self)@.len() >= 1 ==> r == Ok::<u8, DecodeError>(old(self)@[0])
                && final(self)@ == old(self)@.skip(1),
            old(self)@.len() < 1 ==> r == Err::<u8, DecodeError>(DecodeError::UnexpectedEndOfInput)
                && final(self)@ == old(self)@,
    {
        proof { use_type_invariant(&*self); }
        if self.pos >= self.data.len() {
            return Err(DecodeError::UnexpectedEndOfInput);
        }
        let b = self.data[self.pos];
        self.pos = self.pos + 1;
        proof {
            assert(self@ =~= old(self)@.skip(1));
        }
        Ok(b)
    }

    pub fn read_u16_le(&mut self) -> (r: Result<u16, DecodeError>)
        ensures
            old(self)@.len() >= 2 ==> r is Ok && r->Ok_0 as nat == le16(old(self)@)
                && final(self)@ == old(self)@.skip(2),
            old(self)@.len() < 2 ==> r == Err::<u16, DecodeError>(DecodeError::UnexpectedEndOfInput)
                && final(self)@ == old(self)@,
    {
        proof { use_type_invariant(&*self); }
        if self.data.len() - self.pos < 2 {
            return Err(DecodeError::UnexpectedEndOfInput);
        }
        let b0 = self.data[self.pos] as u16;
        let b1 = self.data[self.pos + 1] as u16;
        self.pos = self.pos + 2;
        proof {
            assert(self@ =~= old(self)@.skip(2));
        }
        Ok(b0 + 256 * b1)
    }

    pub fn read_u32_le(&mut self) -> (r: Result<u32, DecodeError>)
        ensures
            old(self)@.len() >= 4 ==> r is Ok && r->Ok_0 as nat == le32(old(self)@)
                && final(self)@ == old(self)@.skip(4),
            old(self)@.len() < 4 ==> r == Err::<u32, DecodeError>(DecodeError::UnexpectedEndOfInput)
                && final(self)@ == old(self)@,
    {
        proof { use_type_invariant(&*self); }
        if self.data.len() - self.pos < 4 {
            return Err(DecodeError::UnexpectedEndOfInput);
        }
        let b0 = self.data[self.pos] as u32;
        let b1 = self.data[self.pos + 1] as u32;
        let b2 = self.data[self.pos + 2] as u32;
        let b3 = self.data[self.pos + 3] as u32;
        self.pos = self.pos + 4;
        proof {
            assert(self@ =~= old(self)@.skip(4));
        }
        Ok(b0 + 256 * b1 + 65536 * b2 + 16777216 * b3)
    }
}

} // verus!
