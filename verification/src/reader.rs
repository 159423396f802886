//! A reader over an in-memory byte buffer, consumed from the front.
use vstd::prelude::*;
use crate::error::IOError;

verus! {

/// Reads bytes from the front of an owned buffer. Its view is the sequence of
/// bytes that have not been read yet.
pub struct ByteReader {
    data: Vec<u8>,
    pos: usize,
}

impl View for ByteReader {
    type V = Seq<u8>;

    closed spec fn view(&self) -> Seq<u8> {
        self.data@.subrange(self.pos as int, self.data@.len() as int)
    }
}

impl ByteReader {
    #[verifier::type_invariant]
    spec fn inv(self) -> bool {
        self.pos <= self.data@.len()
    }

    /// A reader that will yield exactly `data`.
    pub fn new(data: Vec<u8>) -> (r: ByteReader)
        ensures
            r@ == data@,
    {
        let r = ByteReader { data, pos: 0 };
        assert(r@ =~= r.data@);
        r
    }

    /// A reader that will yield a copy of `data`.
    pub fn from_slice(data: &[u8]) -> (r: ByteReader)
        ensures
            r@ == data@,
    {
        let mut v: Vec<u8> = Vec::new();
        let mut i: usize = 0;
        while i < data.len()
            invariant
                i <= data.len(),
                v@ == data@.subrange(0, i as int),
            decreases data.len() - i,
        {
            v.push(data[i]);
            i += 1;
            assert(v@ =~= data@.subrange(0, i as int));
        }
        assert(v@ =~= data@);
        ByteReader::new(v)
    }

    /// Number of bytes not read yet.
    pub fn remaining(&self) -> (n: usize)
        ensures
            n == self@.len(),
    {
        proof { use_type_invariant(self); }
        self.data.len() - self.pos
    }

    /// Reads one byte; fails with `UnexpectedEof` when nothing is left, in
    /// which case the reader is unchanged.
    pub fn read_byte(&mut self) -> (r: Result<u8, IOError>)
        ensures
            old(self)@.len() == 0 ==> r == Err::<u8, IOError>(IOError::UnexpectedEof) && final(self)@ == old(self)@,
            old(self)@.len() > 0 ==> r == Ok::<u8, IOError>(old(self)@[0]) && final(self)@ == old(self)@.subrange(1, old(self)@.len() as int),
    {
        proof { use_type_invariant(&*self); }
        if self.pos >= self.data.len() {
            return Err(IOError::UnexpectedEof);
        }
        let b = self.data[self.pos];
        self.pos = self.pos + 1;
        proof {
            assert(self@ =~= old(self)@.subrange(1, old(self)@.len() as int));
        }
        Ok(b)
    }

    /// Reads up to `max` bytes: as many as are left, but no more than `max`.
    pub fn read(&mut self, max: usize) -> (out: Vec<u8>)
        ensures
            out@.len() == if old(self)@.len() < max { old(self)@.len() } else { max as nat },
            out@ == old(self)@.subrange(0, out@.len() as int),
            final(self)@ == old(self)@.subrange(out@.len() as int, old(self)@.len() as int),
    {
        proof { use_type_invariant(&*self); }
        let avail = self.data.len() - self.pos;
        let n = if avail < max { avail } else { max };
        let mut out: Vec<u8> = Vec::new();
        let mut k: usize = 0;
        let start = self.pos;
        while k < n
            invariant
                k <= n,
                n <= avail,
                avail == self.data@.len() - start,
                start + n <= self.data.len(),
                out@ == self.data@.subrange(start as int, start + k),
            decreases n - k,
        {
            out.push(self.data[start + k]);
            k += 1;
            assert(out@ =~= self.data@.subrange(start as int, start + k));
        }
        self.pos = start + n;
        proof {
            assert(out@ =~= old(self)@.subrange(0, n as int));
            assert(self@ =~= old(self)@.subrange(n as int, old(self)@.len() as int));
        }
        out
    }

    /// Reads exactly `n` bytes. When fewer are left, everything that is left
    /// is consumed and `UnexpectedEof` is returned, as a reader over a slice
    /// does when a buffer cannot be filled.
    pub fn read_exact(&mut self, n: usize) -> (r: Result<Vec<u8>, IOError>)
        ensures
            old(self)@.len() < n ==> r == Err::<Vec<u8>, IOError>(IOError::UnexpectedEof) && final(self)@.len() == 0,
            old(self)@.len() >= n ==> r is Ok && r->Ok_0@ == old(self)@.subrange(0, n as int)
                && final(self)@ == old(self)@.subrange(n as int, old(self)@.len() as int),
    {
        proof { use_type_invariant(&*self); }
        let avail = self.data.len() - self.pos;
        let out = self.read(n);
        if avail < n {
            return Err(IOError::UnexpectedEof);
        }
        Ok(out)
    }
}

} // verus!
