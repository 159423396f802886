//! Values that can be written to and read from the wire, each in its own
//! encoding: integers of 16 and 32 bits as variable length quantities, a
//! byte as itself, a byte buffer as its length byte and its bytes.
use vstd::prelude::*;
use crate::error::IOError;
use crate::reader::ByteReader;
use crate::vlq::{encode_int_to, lemma_parse_encode_int, parse_int, spec_encode_int, spec_parse_int, vlq_int_size};

verus! {

/// A value with a wire encoding. `EncodeArg` and `DecodeArg` are what the
/// encoding needs besides the value (such as a dictionary).
pub trait Binary: Sized {
    type EncodeArg;
    type DecodeArg;

    /// Appends the value's bytes to `writer`.
    fn encode(&self, writer: &mut Vec<u8>, arg: &Self::EncodeArg) -> Result<(), IOError>;

    /// Reads one value from `reader`.
    fn decode(reader: &mut ByteReader, arg: &Self::DecodeArg) -> Result<Self, IOError>;

    /// The number of bytes `encode` appends.
    fn size(&self, arg: &Self::EncodeArg) -> usize;
}

/// What reading a variable length quantity gives, read as the type `T`
/// by truncation (`f`), and how many bytes it takes.
pub open spec fn spec_decode_vlq<T>(s: Seq<u8>, f: spec_fn(u32) -> T) -> (Result<T, IOError>, int) {
    match spec_parse_int(s) {
        Some((v, n)) => (Ok(f(v)), n),
        None => (Err(IOError::UnexpectedEof), s.len() as int),
    }
}

impl Binary for u32 {
    type EncodeArg = ();
    type DecodeArg = ();

    fn encode(&self, writer: &mut Vec<u8>, _arg: &()) -> (r: Result<(), IOError>)
        ensures
            r is Ok,
            final(writer)@ == old(writer)@ + spec_encode_int(*self),
    {
        encode_int_to(*self, writer)
    }

    fn decode(reader: &mut ByteReader, _arg: &()) -> (r: Result<u32, IOError>)
        ensures
            ({
                let (res, n) = spec_decode_vlq(old(reader)@, |v: u32| v);
                &&& r == res
                &&& final(reader)@ == old(reader)@.subrange(n, old(reader)@.len() as int)
            }),
    {
        parse_int(reader)
    }

    fn size(&self, _arg: &()) -> (n: usize)
        ensures
            n == spec_encode_int(*self).len(),
    {
        vlq_int_size(*self)
    }
}

impl Binary for u16 {
    type EncodeArg = ();
    type DecodeArg = ();

    fn encode(&self, writer: &mut Vec<u8>, _arg: &()) -> (r: Result<(), IOError>)
        ensures
            r is Ok,
            final(writer)@ == old(writer)@ + spec_encode_int(*self as u32),
    {
        encode_int_to(*self as u32, writer)
    }

    fn decode(reader: &mut ByteReader, _arg: &()) -> (r: Result<u16, IOError>)
        ensures
            ({
                let (res, n) = spec_decode_vlq(old(reader)@, |v: u32| v as u16);
                &&& r == res
                &&& final(reader)@ == old(reader)@.subrange(n, old(reader)@.len() as int)
            }),
    {
        let v = parse_int(reader)?;
        #[verifier::truncate]
        let r = v as u16;
        Ok(r)
    }

    fn size(&self, _arg: &()) -> (n: usize)
        ensures
            n == spec_encode_int(*self as u32).len(),
    {
        vlq_int_size(*self as u32)
    }
}

impl Binary for i32 {
    type EncodeArg = ();
    type DecodeArg = ();

    fn encode(&self, writer: &mut Vec<u8>, _arg: &()) -> (r: Result<(), IOError>)
        ensures
            r is Ok,
            final(writer)@ == old(writer)@ + spec_encode_int(*self as u32),
    {
        #[verifier::truncate]
        let v = *self as u32;
        encode_int_to(v, writer)
    }

    fn decode(reader: &mut ByteReader, _arg: &()) -> (r: Result<i32, IOError>)
        ensures
            ({
                let (res, n) = spec_decode_vlq(old(reader)@, |v: u32| v as i32);
                &&& r == res
                &&& final(reader)@ == old(reader)@.subrange(n, old(reader)@.len() as int)
            }),
    {
        let v = parse_int(reader)?;
        #[verifier::truncate]
        let r = v as i32;
        Ok(r)
    }

    fn size(&self, _arg: &()) -> (n: usize)
        ensures
            n == spec_encode_int(*self as u32).len(),
    {
        #[verifier::truncate]
        let v = *self as u32;
        vlq_int_size(v)
    }
}

impl Binary for i16 {
    type EncodeArg = ();
    type DecodeArg = ();

    fn encode(&self, writer: &mut Vec<u8>, _arg: &()) -> (r: Result<(), IOError>)
        ensures
            r is Ok,
            final(writer)@ == old(writer)@ + spec_encode_int(*self as u32),
    {
        #[verifier::truncate]
        let v = *self as u32;
        encode_int_to(v, writer)
    }

    fn decode(reader: &mut ByteReader, _arg: &()) -> (r: Result<i16, IOError>)
        ensures
            ({
                let (res, n) = spec_decode_vlq(old(reader)@, |v: u32| v as i16);
                &&& r == res
                &&& final(reader)@ == old(reader)@.subrange(n, old(reader)@.len() as int)
            }),
    {
        let v = parse_int(reader)?;
        #[verifier::truncate]
        let r = v as i16;
        Ok(r)
    }

    fn size(&self, _arg: &()) -> (n: usize)
        ensures
            n == spec_encode_int(*self as u32).len(),
    {
        #[verifier::truncate]
        let v = *self as u32;
        vlq_int_size(v)
    }
}

impl Binary for u8 {
    type EncodeArg = ();
    type DecodeArg = ();

    fn encode(&self, writer: &mut Vec<u8>, _arg: &()) -> (r: Result<(), IOError>)
        ensures
            r is Ok,
            final(writer)@ == old(writer)@.push(*self),
    {
        writer.push(*self);
        Ok(())
    }

    fn decode(reader: &mut ByteReader, _arg: &()) -> (r: Result<u8, IOError>)
        ensures
            old(reader)@.len() == 0 ==> r == Err::<u8, IOError>(IOError::UnexpectedEof) && final(reader)@ == old(reader)@,
            old(reader)@.len() > 0 ==> r == Ok::<u8, IOError>(old(reader)@[0])
                && final(reader)@ == old(reader)@.subrange(1, old(reader)@.len() as int),
    {
        reader.read_byte()
    }

    fn size(&self, _arg: &()) -> (n: usize)
        ensures
            n == 1,
    {
        1
    }
}

impl Binary for Vec<u8> {
    type EncodeArg = ();
    type DecodeArg = ();

    fn encode(&self, writer: &mut Vec<u8>, _arg: &()) -> (r: Result<(), IOError>)
        ensures
            r is Ok,
            final(writer)@ == old(writer)@ + seq![(self@.len() % 256) as u8] + self@,
    {
        writer.push((self.len() % 256) as u8);
        let ghost mid = writer@;
        let mut i: usize = 0;
        while i < self.len()
            invariant
                i <= self@.len(),
                writer@ == mid + self@.subrange(0, i as int),
            decreases self.len() - i,
        {
            writer.push(self[i]);
            i += 1;
            assert(writer@ =~= mid + self@.subrange(0, i as int));
        }
        assert(self@.subrange(0, self@.len() as int) =~= self@);
        assert(writer@ =~= old(writer)@ + seq![(self@.len() % 256) as u8] + self@);
        Ok(())
    }

    fn decode(reader: &mut ByteReader, _arg: &()) -> (r: Result<Vec<u8>, IOError>)
        ensures
            old(reader)@.len() == 0 ==> r == Err::<Vec<u8>, IOError>(IOError::UnexpectedEof),
            old(reader)@.len() > 0 && old(reader)@.len() < 1 + old(reader)@[0] ==>
                r == Err::<Vec<u8>, IOError>(IOError::UnexpectedEof) && final(reader)@.len() == 0,
            old(reader)@.len() > 0 && old(reader)@.len() >= 1 + old(reader)@[0] ==>
                (r matches Ok(v) && v@ == old(reader)@.subrange(1, 1 + old(reader)@[0]))
                && final(reader)@ == old(reader)@.subrange(1 + old(reader)@[0], old(reader)@.len() as int),
    {
        let len = reader.read_byte()?;
        let r = reader.read_exact(len as usize);
        proof {
            if old(reader)@.len() >= 1 + len {
                assert(old(reader)@.subrange(1, old(reader)@.len() as int).subrange(0, len as int)
                    =~= old(reader)@.subrange(1, 1 + len));
                assert(final(reader)@ =~= old(reader)@.subrange(1 + len, old(reader)@.len() as int));
            }
        }
        r
    }

    fn size(&self, _arg: &()) -> (n: usize)
        ensures
            self@.len() < usize::MAX ==> n == self@.len() + 1,
    {
        self.len().wrapping_add(1)
    }
}

/// Reading back what `encode` wrote gives the value again, for the
/// integers of 16 and 32 bits, and takes exactly the bytes written.
pub proof fn lemma_binary_int_roundtrip(a: u32, b: u16, c: i32, d: i16, rest: Seq<u8>)
    ensures
        spec_decode_vlq(spec_encode_int(a) + rest, |v: u32| v) == (Ok::<u32, IOError>(a), spec_encode_int(a).len() as int),
        spec_decode_vlq(spec_encode_int(b as u32) + rest, |v: u32| v as u16)
            == (Ok::<u16, IOError>(b), spec_encode_int(b as u32).len() as int),
        spec_decode_vlq(spec_encode_int(c as u32) + rest, |v: u32| v as i32)
            == (Ok::<i32, IOError>(c), spec_encode_int(c as u32).len() as int),
        spec_decode_vlq(spec_encode_int(d as u32) + rest, |v: u32| v as i16)
            == (Ok::<i16, IOError>(d), spec_encode_int(d as u32).len() as int),
{
    lemma_parse_encode_int(a, rest);
    lemma_parse_encode_int(b as u32, rest);
    lemma_parse_encode_int(c as u32, rest);
    lemma_parse_encode_int(d as u32, rest);
    assert((b as u32) as u16 == b) by (bit_vector);
    assert((c as u32) as i32 == c) by (bit_vector);
    assert((d as u32) as i16 == d) by (bit_vector);
}

} // verus!
