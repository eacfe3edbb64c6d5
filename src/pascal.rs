//! Length-prefixed text fields whose bytes carry a high bit to be cleared.
use vstd::prelude::*;

use crate::error::DecodeError;
use crate::reader::ByteReader;
use crate::text::{all_ascii, byte_chars, string_from_utf8};

verus! {

/// Each byte with bit 7 cleared.
pub open spec fn strip_high(b: Seq<u8>) -> Seq<u8> {
    b.map_values(|x: u8| x & 0x7f)
}

/// The text of stored bytes: bit 7 cleared, then one character per byte.
pub open spec fn apple_text(b: Seq<u8>) -> Seq<char> {
    byte_chars(strip_high(b))
}

/// What a pascal string field of declared length `n` decodes to at the
/// front of `s`, and how many bytes that reads (also where it fails).
pub open spec fn pascal_spec(s: Seq<u8>, n: u8) -> (Result<Seq<char>, DecodeError>, nat) {
    if n == 0 {
        (Ok(Seq::empty()), 0)
    } else if s.len() < 1 {
        (Err(DecodeError::UnexpectedEndOfInput), 0)
    } else if s[0] != n {
        (Err(DecodeError::LengthMismatch { expected: n, got: s[0] }), 1)
    } else if s.len() < 1 + n {
        (Err(DecodeError::UnexpectedEndOfInput), 1)
    } else {
        (Ok(apple_text(s.subrange(1, 1 + n))), (1 + n) as nat)
    }
}

/// Whether a result holds the given text, or the given error.
pub open spec fn text_result(r: Result<String, DecodeError>, spec_r: Result<Seq<char>, DecodeError>) -> bool {
    match spec_r {
        Ok(t) => r is Ok && r->Ok_0@ == t,
        Err(e) => r == Err::<String, DecodeError>(e),
    }
}

/// Clears bit 7 of every byte and reads the result as text.
pub fn apple_to_ascii(data: &[u8]) -> (r: Result<String, DecodeError>)
    ensures
        r is Ok,
        r->Ok_0@ == apple_text(data@),
{
    let mut stripped: Vec<u8> = Vec::new();
    let mut i: usize = 0;
    while i < data.len()
        invariant
            i <= data@.len(),
            stripped@ == strip_high(data@.take(i as int)),
            all_ascii(stripped@),
        decreases data@.len() - i,
    {
        let x = data[i];
        let b = x & 0x7f;
        assert(b < 128) by (bit_vector)
            requires b == x & 0x7f;
        stripped.push(b);
        proof {
            assert(strip_high(data@.take(i as int)).push(b) =~= strip_high(data@.take(i + 1)));
        }
        i = i + 1;
    }
    proof {
        assert(data@.take(data@.len() as int) =~= data@);
    }
    match string_from_utf8(stripped) {
        Some(s) => Ok(s),
        None => Err(DecodeError::InvalidText),
    }
}

/// Reads a pascal string field whose record declares length `len`: nothing
/// when `len` is zero, else a length byte that must equal `len` and then
/// `len` stored bytes.
pub fn read_pascal_string(r: &mut ByteReader, len: u8) -> (res: Result<String, DecodeError>)
    ensures
        text_result(res, pascal_spec(old(r)@, len).0),
        final(r)@ == old(r)@.skip(pascal_spec(old(r)@, len).1 as int),
        len == 0 ==> res is Ok && res->Ok_0@.len() == 0 && final(r)@ == old(r)@,
        len != 0 && old(r)@.len() >= 1 && old(r)@[0] != len ==> res == Err::<String, DecodeError>(
            DecodeError::LengthMismatch { expected: len, got: old(r)@[0] },
        ) && final(r)@ == old(r)@.skip(1),
{
    if len == 0 {
        proof { assert(old(r)@.skip(0) =~= old(r)@); }
        return Ok(String::new());
    }
    let got_len = match r.read_u8() {
        Ok(b) => b,
        Err(e) => {
            proof { assert(old(r)@.skip(0) =~= old(r)@); }
            return Err(e);
        }
    };
    if got_len != len {
        return Err(DecodeError::LengthMismatch { expected: len, got: got_len });
    }
    let payload = match r.read_exact(len as usize) {
        Ok(v) => v,
        Err(e) => return Err(e),
    };
    proof {
        assert(payload@ =~= old(r)@.subrange(1, 1 + len));
        assert(r@ =~= old(r)@.skip(1 + len));
    }
    apple_to_ascii(payload.as_slice())
}

} // verus!
