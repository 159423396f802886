//! CRC-16 checksums: the CCITT variant that Klipper frames carry, a writer
//! that computes it on the fly, and the XMODEM variant of the Elegoo
//! bootloader protocol.
use vstd::prelude::*;
use crate::error::IOError;

verus! {

/// One step of Klipper's CRC-16/CCITT over a byte.
pub open spec fn spec_crc16_update(crc: u16, byte: u8) -> u16 {
    let d0 = (byte as u16) ^ (crc & 0xff);
    let d = d0 ^ ((d0 & 0x0f) << 4u16);
    ((d << 8u16) | (crc >> 8u16)) ^ (d >> 4u16) ^ (d << 3u16)
}

/// The CRC register after feeding `s` into a register holding `crc`.
pub open spec fn spec_crc16_fold(crc: u16, s: Seq<u8>) -> u16
    decreases s.len(),
{
    if s.len() == 0 {
        crc
    } else {
        spec_crc16_update(spec_crc16_fold(crc, s.drop_last()), s.last())
    }
}

/// The two checksum bytes (high byte first) of a register value.
pub open spec fn spec_crc_bytes(crc: u16) -> Seq<u8> {
    seq![(crc >> 8u16) as u8, (crc & 0xff) as u8]
}

/// Klipper's CRC-16/CCITT of `s`, as the two bytes a frame carries.
pub open spec fn spec_crc16_ccitt(s: Seq<u8>) -> Seq<u8> {
    spec_crc_bytes(spec_crc16_fold(0xffff, s))
}

/// Feeds one byte into the CRC register.
pub fn crc16_update(crc: u16, byte: u8) -> (r: u16)
    ensures
        r == spec_crc16_update(crc, byte),
        r == spec_mcrf4xx_update(crc, byte),
{
    let mut data: u16 = byte as u16;
    data ^= crc & 0xff;
    data ^= (data & 0x0f) << 4;
    proof { lemma_crc16_update_is_mcrf4xx(crc, byte); }
    ((data << 8) | (crc >> 8)) ^ (data >> 4) ^ (data << 3)
}

/// Feeds every byte of `buf` into a register holding `crc`.
pub fn crc16_fold(crc: u16, buf: &[u8]) -> (r: u16)
    ensures
        r == spec_crc16_fold(crc, buf@),
{
    let mut c = crc;
    let mut i: usize = 0;
    while i < buf.len()
        invariant
            i <= buf@.len(),
            c == spec_crc16_fold(crc, buf@.subrange(0, i as int)),
        decreases buf.len() - i,
    {
        assert(buf@.subrange(0, i + 1).drop_last() =~= buf@.subrange(0, i as int));
        c = crc16_update(c, buf[i]);
        i += 1;
    }
    assert(buf@.subrange(0, i as int) =~= buf@);
    c
}

/// Klipper's CRC-16/CCITT of `buf`: `[high byte, low byte]`.
pub fn crc16_ccitt(buf: &[u8]) -> (r: [u8; 2])
    ensures
        r@ == spec_crc16_ccitt(buf@),
{
    let crc = crc16_fold(0xffff, buf);
    let r = [(crc >> 8) as u8, (crc & 0xff) as u8];
    assert(r@ =~= spec_crc16_ccitt(buf@));
    r
}

/// Feeding `a` and then `b` leaves the register as feeding `a + b` does: a
/// checksum can be computed piece by piece.
pub proof fn lemma_crc16_fold_concat(crc: u16, a: Seq<u8>, b: Seq<u8>)
    ensures
        spec_crc16_fold(crc, a + b) == spec_crc16_fold(spec_crc16_fold(crc, a), b),
    decreases b.len(),
{
    if b.len() == 0 {
        assert(a + b =~= a);
    } else {
        lemma_crc16_fold_concat(crc, a, b.drop_last());
        assert((a + b).drop_last() =~= a + b.drop_last());
        assert((a + b).last() == b.last());
    }
}

/// One bit step of the reflected polynomial 0x8408 (0x1021 read backwards):
/// shift right, and fold the polynomial in when a one bit falls out.
pub open spec fn mcrf4xx_bit(x: u16) -> u16 {
    if x & 1 == 1 {
        (x >> 1u16) ^ 0x8408
    } else {
        x >> 1u16
    }
}

/// CRC-16/MCRF4XX of one byte, bit by bit: the whole byte is xored into the
/// low end of the register, then eight bit steps.
pub open spec fn spec_mcrf4xx_update(crc: u16, byte: u8) -> u16 {
    mcrf4xx_bit(mcrf4xx_bit(mcrf4xx_bit(mcrf4xx_bit(
        mcrf4xx_bit(mcrf4xx_bit(mcrf4xx_bit(mcrf4xx_bit(crc ^ (byte as u16)))))))))
}

/// The CRC-16/MCRF4XX register after feeding `s`, bit by bit, into `crc`.
pub open spec fn spec_mcrf4xx_fold(crc: u16, s: Seq<u8>) -> u16
    decreases s.len(),
{
    if s.len() == 0 {
        crc
    } else {
        spec_mcrf4xx_update(spec_mcrf4xx_fold(crc, s.drop_last()), s.last())
    }
}

/// The byte-at-a-time update of the frame checksum is the bitwise
/// CRC-16/MCRF4XX step: every bit of the byte enters the register.
pub proof fn lemma_crc16_update_is_mcrf4xx(crc: u16, byte: u8)
    ensures
        spec_crc16_update(crc, byte) == spec_mcrf4xx_update(crc, byte),
{
    assert(spec_crc16_update(crc, byte) == spec_mcrf4xx_update(crc, byte)) by (bit_vector);
}

/// The frame checksum of any bytes is CRC-16/MCRF4XX: the register starts at
/// `0xffff`, every byte goes through the bitwise reflected 0x8408 step, and
/// the register is sent high byte first.
pub proof fn lemma_crc16_ccitt_is_mcrf4xx(s: Seq<u8>)
    ensures
        spec_crc16_ccitt(s) == spec_crc_bytes(spec_mcrf4xx_fold(0xffff, s)),
{
    lemma_crc16_fold_is_mcrf4xx(0xffff, s);
}

proof fn lemma_crc16_fold_is_mcrf4xx(crc: u16, s: Seq<u8>)
    ensures
        spec_crc16_fold(crc, s) == spec_mcrf4xx_fold(crc, s),
    decreases s.len(),
{
    if s.len() > 0 {
        lemma_crc16_fold_is_mcrf4xx(crc, s.drop_last());
        lemma_crc16_update_is_mcrf4xx(spec_crc16_fold(crc, s.drop_last()), s.last());
    }
}

/// Two different bytes fed into the same register leave different registers:
/// no bit of a byte is lost to the frame checksum.
pub proof fn lemma_crc16_update_injective(crc: u16, b1: u8, b2: u8)
    requires
        b1 != b2,
    ensures
        spec_crc16_update(crc, b1) != spec_crc16_update(crc, b2),
{
    assert(b1 != b2 ==> spec_crc16_update(crc, b1) != spec_crc16_update(crc, b2)) by (bit_vector);
}

/// A writer that appends to an owned buffer and keeps the CRC-16/CCITT of
/// every byte written through it.
pub struct CrcWriter {
    inner: Vec<u8>,
    crc: u16,
    written: Ghost<Seq<u8>>,
}

impl CrcWriter {
    /// Bytes the inner writer holds.
    pub closed spec fn contents(&self) -> Seq<u8> {
        self.inner@
    }

    /// Bytes written through this writer since it was made.
    pub closed spec fn written(&self) -> Seq<u8> {
        self.written@
    }

    /// The current value of the CRC register.
    pub closed spec fn register(&self) -> u16 {
        self.crc
    }

    /// The register always holds the CRC of what was written through it.
    pub closed spec fn wf(&self) -> bool {
        self.crc == spec_crc16_fold(0xffff, self.written@)
    }

    /// Wraps `inner`; the CRC register starts at `0xffff`.
    pub fn new(inner: Vec<u8>) -> (w: CrcWriter)
        ensures
            w.wf(),
            w.contents() == inner@,
            w.written() == Seq::<u8>::empty(),
            w.register() == 0xffff,
    {
        CrcWriter { inner, crc: 0xffff, written: Ghost(Seq::empty()) }
    }

    /// Writes all of `buf`, updating the CRC; returns the number of bytes written.
    pub fn write(&mut self, buf: &[u8]) -> (r: Result<usize, IOError>)
        requires
            old(self).wf(),
        ensures
            final(self).wf(),
            r == Ok::<usize, IOError>(buf@.len() as usize),
            final(self).contents() == old(self).contents() + buf@,
            final(self).written() == old(self).written() + buf@,
    {
        let ghost w0 = self.written@;
        let mut i: usize = 0;
        while i < buf.len()
            invariant
                i <= buf@.len(),
                self.written@ == w0 + buf@.subrange(0, i as int),
                self.crc == spec_crc16_fold(0xffff, self.written@),
                self.inner@ == old(self).inner@ + buf@.subrange(0, i as int),
            decreases buf.len() - i,
        {
            let b = buf[i];
            self.crc = crc16_update(self.crc, b);
            self.inner.push(b);
            proof {
                let nw = w0 + buf@.subrange(0, i + 1);
                assert(nw.drop_last() =~= self.written@);
                assert(nw.last() == b);
                self.written = Ghost(nw);
            }
            i += 1;
            assert(self.inner@ =~= old(self).inner@ + buf@.subrange(0, i as int));
        }
        assert(buf@.subrange(0, i as int) =~= buf@);
        Ok(buf.len())
    }

    /// Nothing is buffered, so flushing always succeeds.
    pub fn flush(&mut self) -> (r: Result<(), IOError>)
        ensures
            r is Ok,
            *final(self) == *old(self),
    {
        Ok(())
    }

    /// Hands back the inner writer and the CRC of everything written through
    /// this writer, high byte first.
    pub fn finish(self) -> (r: (Vec<u8>, [u8; 2]))
        requires
            self.wf(),
        ensures
            r.0@ == self.contents(),
            r.1@ == spec_crc16_ccitt(self.written()),
    {
        let out = [(self.crc >> 8) as u8, (self.crc & 0xff) as u8];
        assert(out@ =~= spec_crc16_ccitt(self.written@));
        (self.inner, out)
    }
}

/// One bit step of the MSB-first polynomial 0x1021.
pub open spec fn xmodem_bit(crc: u16) -> u16 {
    if crc & 0x8000 != 0 {
        (crc << 1u16) ^ 0x1021
    } else {
        crc << 1u16
    }
}

/// `n` bit steps.
pub open spec fn xmodem_bits(crc: u16, n: nat) -> u16
    decreases n,
{
    if n == 0 {
        crc
    } else {
        xmodem_bits(xmodem_bit(crc), (n - 1) as nat)
    }
}

/// One byte of CRC-16/XMODEM.
pub open spec fn spec_xmodem_update(crc: u16, byte: u8) -> u16 {
    xmodem_bits(crc ^ ((byte as u16) << 8u16), 8)
}

/// The CRC-16/XMODEM register after feeding `s` into `crc`.
pub open spec fn spec_xmodem_fold(crc: u16, s: Seq<u8>) -> u16
    decreases s.len(),
{
    if s.len() == 0 {
        crc
    } else {
        spec_xmodem_update(spec_xmodem_fold(crc, s.drop_last()), s.last())
    }
}

/// CRC-16/XMODEM (initial value 0, polynomial 0x1021) of `s`, high byte first.
pub open spec fn spec_crc16_xmodem(s: Seq<u8>) -> Seq<u8> {
    spec_crc_bytes(spec_xmodem_fold(0, s))
}

/// CRC-16/XMODEM of `buf`, as `[high byte, low byte]`.
pub fn crc16_xmodem(buf: &[u8]) -> (r: [u8; 2])
    ensures
        r@ == spec_crc16_xmodem(buf@),
{
    let mut crc: u16 = 0;
    let mut i: usize = 0;
    while i < buf.len()
        invariant
            i <= buf@.len(),
            crc == spec_xmodem_fold(0, buf@.subrange(0, i as int)),
        decreases buf.len() - i,
    {
        assert(buf@.subrange(0, i + 1).drop_last() =~= buf@.subrange(0, i as int));
        let ghost start = crc ^ ((buf[i as int] as u16) << 8u16);
        crc = crc ^ ((buf[i] as u16) << 8);
        let mut k: usize = 0;
        while k < 8
            invariant
                k <= 8,
                xmodem_bits(crc, (8 - k) as nat) == xmodem_bits(start, 8),
            decreases 8 - k,
        {
            if crc & 0x8000 != 0 {
                crc = (crc << 1) ^ 0x1021;
            } else {
                crc = crc << 1;
            }
            k += 1;
        }
        i += 1;
    }
    assert(buf@.subrange(0, i as int) =~= buf@);
    let r = [(crc >> 8) as u8, (crc & 0xff) as u8];
    assert(r@ =~= spec_crc16_xmodem(buf@));
    r
}

/// One step of the MSB-first shift register of polynomial 0x1021 fed with
/// one data bit: the bit is xored with the bit shifted out of the top, and
/// the polynomial folded in when that gives one.
pub open spec fn xmodem_serial_step(crc: u16, bit: u16) -> u16 {
    if ((crc >> 15u16) ^ bit) & 1 == 1 {
        (crc << 1u16) ^ 0x1021
    } else {
        crc << 1u16
    }
}

/// CRC-16/XMODEM of one byte, fed bit by bit, most significant bit first.
pub open spec fn spec_xmodem_serial(crc: u16, byte: u8) -> u16 {
    let b = byte as u16;
    xmodem_serial_step(xmodem_serial_step(xmodem_serial_step(xmodem_serial_step(
        xmodem_serial_step(xmodem_serial_step(xmodem_serial_step(xmodem_serial_step(crc,
        (b >> 7u16) & 1), (b >> 6u16) & 1), (b >> 5u16) & 1), (b >> 4u16) & 1),
        (b >> 3u16) & 1), (b >> 2u16) & 1), (b >> 1u16) & 1), b & 1)
}

/// The CRC-16/XMODEM register after feeding `s`, bit by bit, into `crc`.
pub open spec fn spec_xmodem_serial_fold(crc: u16, s: Seq<u8>) -> u16
    decreases s.len(),
{
    if s.len() == 0 {
        crc
    } else {
        spec_xmodem_serial(spec_xmodem_serial_fold(crc, s.drop_last()), s.last())
    }
}

/// Eight bit steps, written out.
pub open spec fn xmodem_eight_bits(x: u16) -> u16 {
    xmodem_bit(xmodem_bit(xmodem_bit(xmodem_bit(xmodem_bit(xmodem_bit(xmodem_bit(xmodem_bit(x))))))))
}

/// The byte-wise XMODEM update is the bit-serial one: every bit of the byte,
/// most significant first, goes through the 0x1021 shift register.
pub proof fn lemma_xmodem_update_is_serial(crc: u16, byte: u8)
    ensures
        spec_xmodem_update(crc, byte) == spec_xmodem_serial(crc, byte),
{
    let x = crc ^ ((byte as u16) << 8u16);
    reveal_with_fuel(xmodem_bits, 9);
    assert(xmodem_bits(x, 8) == xmodem_eight_bits(x));
    assert(xmodem_eight_bits(crc ^ ((byte as u16) << 8u16)) == spec_xmodem_serial(crc, byte)) by (bit_vector);
}

/// The bootloader checksum of any bytes is CRC-16/XMODEM fed bit by bit:
/// the register starts at zero, each byte enters most significant bit first
/// through the 0x1021 shift register, and the register is sent high byte first.
pub proof fn lemma_crc16_xmodem_is_serial(s: Seq<u8>)
    ensures
        spec_crc16_xmodem(s) == spec_crc_bytes(spec_xmodem_serial_fold(0, s)),
{
    lemma_xmodem_fold_is_serial(0, s);
}

proof fn lemma_xmodem_fold_is_serial(crc: u16, s: Seq<u8>)
    ensures
        spec_xmodem_fold(crc, s) == spec_xmodem_serial_fold(crc, s),
    decreases s.len(),
{
    if s.len() > 0 {
        lemma_xmodem_fold_is_serial(crc, s.drop_last());
        lemma_xmodem_update_is_serial(spec_xmodem_fold(crc, s.drop_last()), s.last());
    }
}

/// Two different bytes fed into the same register leave different registers:
/// no bit of a byte is lost to the bootloader checksum.
pub proof fn lemma_xmodem_update_injective(crc: u16, b1: u8, b2: u8)
    requires
        b1 != b2,
    ensures
        spec_xmodem_update(crc, b1) != spec_xmodem_update(crc, b2),
{
    lemma_xmodem_update_is_serial(crc, b1);
    lemma_xmodem_update_is_serial(crc, b2);
    assert(b1 != b2 ==> spec_xmodem_serial(crc, b1) != spec_xmodem_serial(crc, b2)) by (bit_vector);
}

} // verus!
