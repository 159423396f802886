//! The Elegoo 0xA55A bootloader protocol. Each command is framed as
//! `[0xA5, 0x5A] [command byte] [payload length, u16 big-endian] [payload]
//! [CRC-16/XMODEM of the payload, big-endian]`.
use vstd::prelude::*;
use crate::crc::{crc16_xmodem, spec_crc16_xmodem};
use crate::error::IOError;
use crate::gpio::{checked_pin_name_to_int, spec_checked_pin_int};
use vstd::string::StringSliceAdditionalSpecFns;
use crate::reader::ByteReader;

verus! {

/// Commands of the bootloader protocol.
#[derive(Debug, Clone, PartialEq)]
pub enum BootloaderCmd {
    /// Host to bootloader: is the bootloader alive? Carries a magic value
    /// that the reply echoes; also keeps the bootloader from jumping to the
    /// application.
    Ping(u32),
    /// Bootloader to host: reply to `Ping`, echoing its value.
    Pong(u32),
    /// Host to bootloader: erase the flash sector at this address.
    Erase(u32),
    /// Bootloader to host: the sector at this address was erased.
    EraseAck(u32),
    /// Host to bootloader: program a chunk of flash. `offset` is where the
    /// chunk goes, `length` the total firmware size, `size` the bytes of this
    /// chunk (padding in `data` is ignored).
    Program { offset: u32, length: u32, size: u32, data: Vec<u8> },
    /// Bootloader to host: the chunk at `offset` of a firmware of `length` bytes was written.
    ProgramAck { length: u32, offset: u32 },
    /// Host to bootloader: jump to the application; no reply is sent.
    Jump,
}

/// The mathematical value of a bootloader command.
pub enum BootCmdView {
    Ping(u32),
    Pong(u32),
    Erase(u32),
    EraseAck(u32),
    Program { offset: u32, length: u32, size: u32, data: Seq<u8> },
    ProgramAck { length: u32, offset: u32 },
    Jump,
}

impl View for BootloaderCmd {
    type V = BootCmdView;

    open spec fn view(&self) -> BootCmdView {
        match self {
            BootloaderCmd::Ping(v) => BootCmdView::Ping(*v),
            BootloaderCmd::Pong(v) => BootCmdView::Pong(*v),
            BootloaderCmd::Erase(v) => BootCmdView::Erase(*v),
            BootloaderCmd::EraseAck(v) => BootCmdView::EraseAck(*v),
            BootloaderCmd::Program { offset, length, size, data } => BootCmdView::Program {
                offset: *offset,
                length: *length,
                size: *size,
                data: data@,
            },
            BootloaderCmd::ProgramAck { length, offset } => BootCmdView::ProgramAck {
                length: *length,
                offset: *offset,
            },
            BootloaderCmd::Jump => BootCmdView::Jump,
        }
    }
}

/// Big-endian bytes of a 32-bit value.
pub open spec fn spec_be32(v: u32) -> Seq<u8> {
    seq![((v >> 24u32) & 0xff) as u8, ((v >> 16u32) & 0xff) as u8, ((v >> 8u32) & 0xff) as u8, (v & 0xff) as u8]
}

/// The 32-bit value of four big-endian bytes.
pub open spec fn spec_from_be32(b0: u8, b1: u8, b2: u8, b3: u8) -> u32 {
    ((b0 as u32) << 24u32) | ((b1 as u32) << 16u32) | ((b2 as u32) << 8u32) | (b3 as u32)
}

/// The 32-bit value of the big-endian bytes at `i` in `s`.
pub open spec fn spec_be32_at(s: Seq<u8>, i: int) -> u32 {
    spec_from_be32(s[i], s[i + 1], s[i + 2], s[i + 3])
}

/// The command byte of a command.
pub open spec fn spec_command_byte(c: BootCmdView) -> u8 {
    match c {
        BootCmdView::Ping(_) | BootCmdView::Pong(_) => 0x03,
        BootCmdView::Erase(_) | BootCmdView::EraseAck(_) => 0x00,
        BootCmdView::Program { .. } | BootCmdView::ProgramAck { .. } => 0x01,
        BootCmdView::Jump => 0x02,
    }
}

/// The payload of a command.
pub open spec fn spec_boot_payload(c: BootCmdView) -> Seq<u8> {
    match c {
        BootCmdView::Ping(v) | BootCmdView::Pong(v) => spec_be32(v),
        BootCmdView::Erase(v) | BootCmdView::EraseAck(v) => spec_be32(v),
        BootCmdView::Program { offset, length, size, data } =>
            spec_be32(offset) + spec_be32(length) + spec_be32(size) + data,
        BootCmdView::ProgramAck { length, offset } => spec_be32(length) + spec_be32(offset),
        BootCmdView::Jump => Seq::empty(),
    }
}

/// What a command byte and payload decode to.
pub open spec fn spec_from_payload(cmd: u8, p: Seq<u8>) -> Result<BootCmdView, IOError> {
    if cmd == 0x03 {
        if p.len() != 4 {
            Err(IOError::InvalidHeader { header: 0x0300u16 | (p.len() as u16) })
        } else {
            Ok(BootCmdView::Pong(spec_be32_at(p, 0)))
        }
    } else if cmd == 0x00 {
        if p.len() != 4 {
            Err(IOError::InvalidHeader { header: 0x0000u16 | (p.len() as u16) })
        } else {
            Ok(BootCmdView::EraseAck(spec_be32_at(p, 0)))
        }
    } else if cmd == 0x01 && p.len() == 8 {
        Ok(BootCmdView::ProgramAck { length: spec_be32_at(p, 0), offset: spec_be32_at(p, 4) })
    } else if cmd == 0x01 && p.len() >= 12 {
        Ok(BootCmdView::Program {
            offset: spec_be32_at(p, 0),
            length: spec_be32_at(p, 4),
            size: spec_be32_at(p, 8),
            data: p.subrange(12, p.len() as int),
        })
    } else if cmd == 0x02 {
        if p.len() != 0 {
            Err(IOError::InvalidHeader { header: 0x0200u16 | (p.len() as u16) })
        } else {
            Ok(BootCmdView::Jump)
        }
    } else {
        Err(IOError::UnknownVariant { id: cmd as i16 })
    }
}

/// The bytes of a command on the wire.
pub open spec fn spec_boot_bytes(c: BootCmdView) -> Seq<u8> {
    let p = spec_boot_payload(c);
    seq![0xA5u8, 0x5Au8, spec_command_byte(c), ((p.len() as u16) >> 8u16) as u8, ((p.len() as u16) & 0xff) as u8]
        + p + spec_crc16_xmodem(p)
}

/// How a command reads back once sent: the bootloader protocol shares
/// command bytes between requests and replies, so a request decodes as the
/// reply of its kind.
pub open spec fn spec_reply_form(c: BootCmdView) -> BootCmdView {
    match c {
        BootCmdView::Ping(v) => BootCmdView::Pong(v),
        BootCmdView::Erase(v) => BootCmdView::EraseAck(v),
        _ => c,
    }
}

/// Position just past the first `0xA5 0x5A` pair at or after `i`, where a
/// frame starts; `None` when the input has none.
pub open spec fn spec_magic_from(s: Seq<u8>, i: int) -> Option<int>
    decreases s.len() - i,
{
    if i < 0 || i >= s.len() {
        None
    } else if s[i] != 0xA5 {
        spec_magic_from(s, i + 1)
    } else if i + 1 >= s.len() {
        None
    } else if s[i + 1] == 0x5A {
        Some(i + 2)
    } else {
        spec_magic_from(s, i + 1)
    }
}

/// What decoding a command from the front of `s` yields, with the number
/// of bytes consumed (everything, when the input ends early).
pub open spec fn spec_decode_boot(s: Seq<u8>) -> (Result<BootCmdView, IOError>, int) {
    match spec_magic_from(s, 0) {
        None => (Err(IOError::UnexpectedEof), s.len() as int),
        Some(m) => if s.len() < m + 3 {
            (Err(IOError::UnexpectedEof), s.len() as int)
        } else {
            let cmd = s[m];
            let plen = ((s[m + 1] as u16) << 8u16 | (s[m + 2] as u16)) as int;
            let p0 = m + 3;
            if s.len() < p0 + plen + 2 {
                (Err(IOError::UnexpectedEof), s.len() as int)
            } else {
                let p = s.subrange(p0, p0 + plen);
                let crc = s.subrange(p0 + plen, p0 + plen + 2);
                if crc != spec_crc16_xmodem(p) {
                    (Err(IOError::InvalidHeader { header: ((crc[0] as u16) << 8u16) | (crc[1] as u16) }), p0 + plen + 2)
                } else {
                    (spec_from_payload(cmd, p), p0 + plen + 2)
                }
            }
        },
    }
}

fn push_be32(out: &mut Vec<u8>, v: u32)
    ensures
        final(out)@ == old(out)@ + spec_be32(v),
{
    out.push(((v >> 24) & 0xff) as u8);
    out.push(((v >> 16) & 0xff) as u8);
    out.push(((v >> 8) & 0xff) as u8);
    out.push((v & 0xff) as u8);
    assert(out@ =~= old(out)@ + spec_be32(v));
}

fn be32_at(p: &[u8], i: usize) -> (r: u32)
    requires
        i + 4 <= p@.len(),
    ensures
        r == spec_be32_at(p@, i as int),
{
    ((p[i] as u32) << 24) | ((p[i + 1] as u32) << 16) | ((p[i + 2] as u32) << 8) | (p[i + 3] as u32)
}

fn push_all(out: &mut Vec<u8>, b: &[u8])
    ensures
        final(out)@ == old(out)@ + b@,
{
    let mut i: usize = 0;
    while i < b.len()
        invariant
            i <= b@.len(),
            out@ == old(out)@ + b@.subrange(0, i as int),
        decreases b.len() - i,
    {
        out.push(b[i]);
        i += 1;
        assert(out@ =~= old(out)@ + b@.subrange(0, i as int));
    }
    assert(b@.subrange(0, i as int) =~= b@);
}

impl BootloaderCmd {
    /// The command byte on the wire: requests and their replies share one.
    pub fn command_byte(&self) -> (r: u8)
        ensures
            r == spec_command_byte(self@),
    {
        match self {
            Self::Ping(_) | Self::Pong(_) => 0x03,
            Self::Erase(_) | Self::EraseAck(_) => 0x00,
            Self::Program { .. } | Self::ProgramAck { .. } => 0x01,
            Self::Jump => 0x02,
        }
    }

    /// The payload on the wire: each `u32` field in big-endian order, then,
    /// for `Program`, the data.
    pub fn payload(&self) -> (buf: Vec<u8>)
        ensures
            buf@ == spec_boot_payload(self@),
    {
        let mut buf: Vec<u8> = Vec::new();
        match self {
            Self::Ping(v) | Self::Pong(v) => {
                push_be32(&mut buf, *v);
            },
            Self::Erase(v) | Self::EraseAck(v) => {
                push_be32(&mut buf, *v);
            },
            Self::Program { offset, length, size, data } => {
                push_be32(&mut buf, *offset);
                push_be32(&mut buf, *length);
                push_be32(&mut buf, *size);
                push_all(&mut buf, data.as_slice());
            },
            Self::ProgramAck { length, offset } => {
                push_be32(&mut buf, *length);
                push_be32(&mut buf, *offset);
            },
            Self::Jump => {},
        }
        assert(buf@ =~= spec_boot_payload(self@));
        buf
    }

    /// Reads a command from its command byte and payload. Command bytes are
    /// read as replies (`0x03` as `Pong`, `0x00` as `EraseAck`); `0x01` is a
    /// `ProgramAck` with eight bytes and a `Program` with twelve or more. A
    /// payload of the wrong length is `InvalidHeader` carrying the command
    /// byte and the length, an unknown command byte `UnknownVariant`.
    pub fn from_payload(cmd: u8, payload: &[u8]) -> (r: Result<BootloaderCmd, IOError>)
        ensures
            match spec_from_payload(cmd, payload@) {
                Ok(c) => r matches Ok(v) && v@ == c,
                Err(e) => r matches Err(e2) && e2 == e,
            },
    {
        let len = payload.len();
        match cmd {
            0x03 => {
                if len != 4 {
                    return Err(IOError::InvalidHeader { header: 0x0300 | (len as u16) });
                }
                Ok(Self::Pong(be32_at(payload, 0)))
            },
            0x00 => {
                if len != 4 {
                    return Err(IOError::InvalidHeader { header: 0x0000 | (len as u16) });
                }
                Ok(Self::EraseAck(be32_at(payload, 0)))
            },
            0x01 if len == 8 => {
                Ok(Self::ProgramAck { length: be32_at(payload, 0), offset: be32_at(payload, 4) })
            },
            0x01 if len >= 12 => {
                let mut data: Vec<u8> = Vec::new();
                push_all(&mut data, vstd::slice::slice_subrange(payload, 12, len));
                assert(data@ =~= payload@.subrange(12, len as int));
                Ok(Self::Program {
                    offset: be32_at(payload, 0),
                    length: be32_at(payload, 4),
                    size: be32_at(payload, 8),
                    data,
                })
            },
            0x02 => {
                if len != 0 {
                    return Err(IOError::InvalidHeader { header: 0x0200 | (len as u16) });
                }
                Ok(Self::Jump)
            },
            _ => Err(IOError::UnknownVariant { id: cmd as i16 }),
        }
    }

    /// Writes the framed command: magic, command byte, payload length (as
    /// sixteen bits), payload, CRC-16/XMODEM of the payload.
    pub fn encode(&self, writer: &mut Vec<u8>) -> (r: Result<(), IOError>)
        ensures
            r is Ok,
            final(writer)@ == old(writer)@ + spec_boot_bytes(self@),
    {
        let payload = self.payload();
        let crc = crc16_xmodem(payload.as_slice());
        let plen = payload.len() as u16;
        writer.push(0xA5);
        writer.push(0x5A);
        writer.push(self.command_byte());
        writer.push((plen >> 8) as u8);
        writer.push((plen & 0xff) as u8);
        push_all(writer, payload.as_slice());
        writer.push(crc[0]);
        writer.push(crc[1]);
        assert(writer@ =~= old(writer)@ + spec_boot_bytes(self@));
        Ok(())
    }

    /// Scans for the magic, then reads the command byte, the payload length,
    /// the payload and its CRC; a CRC mismatch is reported as
    /// `InvalidHeader` carrying the CRC that was received.
    pub fn decode(reader: &mut ByteReader) -> (r: Result<BootloaderCmd, IOError>)
        ensures
            ({
                let (res, n) = spec_decode_boot(old(reader)@);
                &&& final(reader)@ == old(reader)@.subrange(n, old(reader)@.len() as int)
                &&& match res {
                    Ok(c) => r matches Ok(v) && v@ == c,
                    Err(e) => r matches Err(e2) && e2 == e,
                }
            }),
    {
        let ghost s = reader@;
        scan_for_magic(reader)?;
        let ghost m = spec_magic_from(s, 0)->Some_0;
        proof { lemma_magic_bounds(s, 0); }
        let cmd_r = reader.read_exact(1);
        let cmd_byte = match cmd_r {
            Ok(b) => b,
            Err(e) => {
                assert(reader@ =~= s.subrange(s.len() as int, s.len() as int));
                return Err(e);
            },
        };
        let len_r = reader.read_exact(2);
        let len_bytes = match len_r {
            Ok(b) => b,
            Err(e) => {
                assert(reader@ =~= s.subrange(s.len() as int, s.len() as int));
                return Err(e);
            },
        };
        let payload_len = (((len_bytes[0] as u16) << 8) | (len_bytes[1] as u16)) as usize;
        let mut payload: Vec<u8> = Vec::new();
        if payload_len > 0 {
            let p_r = reader.read_exact(payload_len);
            payload = match p_r {
                Ok(b) => b,
                Err(e) => {
                    assert(reader@ =~= s.subrange(s.len() as int, s.len() as int));
                    return Err(e);
                },
            };
        }
        let crc_r = reader.read_exact(2);
        let crc_bytes = match crc_r {
            Ok(b) => b,
            Err(e) => {
                assert(reader@ =~= s.subrange(s.len() as int, s.len() as int));
                return Err(e);
            },
        };
        proof {
            let p0 = m + 3;
            assert(s.len() >= p0 + payload_len + 2);
            assert(payload@ =~= s.subrange(p0, p0 + payload_len));
            assert(crc_bytes@ =~= s.subrange(p0 + payload_len, p0 + payload_len + 2));
            assert(reader@ =~= s.subrange(p0 + payload_len + 2, s.len() as int));
        }
        let crc_computed = crc16_xmodem(payload.as_slice());
        if crc_bytes[0] != crc_computed[0] || crc_bytes[1] != crc_computed[1] {
            proof {
                if crc_bytes@ == spec_crc16_xmodem(payload@) {
                    assert(crc_bytes@[0] == crc_computed@[0]);
                }
            }
            return Err(IOError::InvalidHeader { header: ((crc_bytes[0] as u16) << 8) | (crc_bytes[1] as u16) });
        }
        assert(crc_bytes@ =~= crc_computed@);
        Self::from_payload(cmd_byte[0], payload.as_slice())
    }

    /// Size of the framed command: seven bytes of framing plus the payload.
    pub fn size(&self) -> (n: usize)
        requires
            spec_boot_payload(self@).len() + 7 <= usize::MAX,
        ensures
            n == spec_boot_payload(self@).len() + 7,
    {
        let payload_len: usize = match self {
            Self::Ping(_) | Self::Pong(_) => 4,
            Self::Erase(_) | Self::EraseAck(_) => 4,
            Self::Program { data, .. } => 12 + data.len(),
            Self::ProgramAck { .. } => 8,
            Self::Jump => 0,
        };
        7 + payload_len
    }
}

/// Consumes input up to and including the first `0xA5 0x5A` pair.
fn scan_for_magic(reader: &mut ByteReader) -> (r: Result<(), IOError>)
    ensures
        match spec_magic_from(old(reader)@, 0) {
            Some(m) => r is Ok && final(reader)@ == old(reader)@.subrange(m, old(reader)@.len() as int),
            None => r == Err::<(), IOError>(IOError::UnexpectedEof) && final(reader)@.len() == 0,
        },
{
    let ghost s = reader@;
    let ghost mut i: int = 0;
    let mut after_a5 = false;
    assert(reader@ =~= s.subrange(0, s.len() as int));
    loop
        invariant
            s == old(reader)@,
            0 <= i <= s.len(),
            reader@ == s.subrange(i, s.len() as int),
            after_a5 ==> i >= 1 && s[i - 1] == 0xA5,
            spec_magic_from(s, 0) == if after_a5 { spec_magic_from(s, i - 1) } else { spec_magic_from(s, i) },
        decreases reader@.len(),
    {
        let b = reader.read_byte()?;
        proof {
            i = i + 1;
            assert(reader@ =~= s.subrange(i, s.len() as int));
        }
        if after_a5 && b == 0x5A {
            return Ok(());
        }
        after_a5 = b == 0xA5;
    }
}

proof fn lemma_magic_bounds(s: Seq<u8>, i: int)
    requires
        0 <= i,
    ensures
        spec_magic_from(s, i) matches Some(m) ==> i + 2 <= m <= s.len(),
    decreases s.len() - i,
{
    if i < s.len() {
        if s[i] != 0xA5 {
            lemma_magic_bounds(s, i + 1);
        } else if i + 1 < s.len() && s[i + 1] != 0x5A {
            lemma_magic_bounds(s, i + 1);
        }
    }
}

proof fn lemma_be32_roundtrip(v: u32)
    ensures
        spec_from_be32(((v >> 24u32) & 0xff) as u8, ((v >> 16u32) & 0xff) as u8, ((v >> 8u32) & 0xff) as u8, (v & 0xff) as u8) == v,
{
    assert(((((((v >> 24u32) & 0xff) as u8) as u32) << 24u32) | (((((v >> 16u32) & 0xff) as u8) as u32) << 16u32)
        | (((((v >> 8u32) & 0xff) as u8) as u32) << 8u32) | (((v & 0xff) as u8) as u32)) == v) by (bit_vector);
}

/// Bytes without `0xA5` before position `j` hold no frame start.
proof fn lemma_magic_skips_junk(s: Seq<u8>, i: int, j: int)
    requires
        0 <= i <= j <= s.len(),
        forall|k: int| i <= k < j ==> s[k] != 0xA5,
    ensures
        spec_magic_from(s, i) == spec_magic_from(s, j),
    decreases j - i,
{
    if i < j {
        lemma_magic_skips_junk(s, i + 1, j);
    }
}

/// Decoding from a frame start at `j` where the bytes of `c` stand.
proof fn lemma_decode_at(s: Seq<u8>, j: int, c: BootCmdView)
    requires
        spec_boot_payload(c).len() <= 0xffff,
        0 <= j,
        j + spec_boot_bytes(c).len() <= s.len(),
        s.subrange(j, j + spec_boot_bytes(c).len()) == spec_boot_bytes(c),
        spec_magic_from(s, 0) == Some(j + 2),
    ensures
        spec_decode_boot(s) == (Ok::<BootCmdView, IOError>(spec_reply_form(c)), j + spec_boot_bytes(c).len()),
{
    let p = spec_boot_payload(c);
    let f = spec_boot_bytes(c);
    let plen = p.len() as int;
    assert(f.len() == plen + 7);
    assert(s[j + 2] == f[2]);
    assert(s[j + 3] == f[3]);
    assert(s[j + 4] == f[4]);
    let pl16 = plen as u16;
    assert(((((pl16 >> 8u16) as u8) as u16) << 8u16 | (((pl16 & 0xff) as u8) as u16)) == pl16) by (bit_vector);
    assert(f.subrange(5, 5 + plen) =~= p);
    assert(f.subrange(5 + plen, 5 + plen + 2) =~= spec_crc16_xmodem(p));
    assert(s.subrange(j + 5, j + 5 + plen) =~= f.subrange(5, 5 + plen));
    assert(s.subrange(j + 5 + plen, j + 5 + plen + 2) =~= f.subrange(5 + plen, 5 + plen + 2));
    lemma_payload_roundtrip(c);
}

/// A command sent on the wire, after bytes that hold no `0xA5`, reads back
/// whatever follows it as the reply of its kind (`Ping` as `Pong`, `Erase`
/// as `EraseAck`, anything else as itself), when its payload length fits in
/// sixteen bits; the junk and the command are consumed, the rest is not.
pub proof fn lemma_boot_decode_after_junk(junk: Seq<u8>, c: BootCmdView, rest: Seq<u8>)
    requires
        spec_boot_payload(c).len() <= 0xffff,
        forall|k: int| 0 <= k < junk.len() ==> junk[k] != 0xA5,
    ensures
        spec_decode_boot(junk + spec_boot_bytes(c) + rest) == (
            Ok::<BootCmdView, IOError>(spec_reply_form(c)),
            (junk.len() + spec_boot_bytes(c).len()) as int,
        ),
{
    let j = junk.len() as int;
    let f = spec_boot_bytes(c);
    let s = junk + f + rest;
    assert forall|k: int| 0 <= k < j implies s[k] != 0xA5 by {
        assert(s[k] == junk[k]);
    }
    lemma_magic_skips_junk(s, 0, j);
    assert(s[j] == f[0] && s[j + 1] == f[1]);
    assert(spec_magic_from(s, j) == Some(j + 2));
    assert(s.subrange(j, j + f.len()) =~= f);
    lemma_decode_at(s, j, c);
}

/// A command sent on the wire reads back, whatever follows it, as the reply
/// of its kind (`Ping` as `Pong`, `Erase` as `EraseAck`, anything else as
/// itself), when its payload length fits in sixteen bits.
pub proof fn lemma_boot_roundtrip(c: BootCmdView, rest: Seq<u8>)
    requires
        spec_boot_payload(c).len() <= 0xffff,
    ensures
        spec_decode_boot(spec_boot_bytes(c) + rest) == (
            Ok::<BootCmdView, IOError>(spec_reply_form(c)),
            spec_boot_bytes(c).len() as int,
        ),
{
    let junk = Seq::<u8>::empty();
    lemma_boot_decode_after_junk(junk, c, rest);
    assert(junk + spec_boot_bytes(c) + rest =~= spec_boot_bytes(c) + rest);
}

/// For every command (a `Program` with data of any length included), reading
/// its payload with its command byte gives the reply of its kind (`Ping` as
/// `Pong`, `Erase` as `EraseAck`, anything else as itself): stated over the
/// spec functions that `BootloaderCmd::command_byte`, `BootloaderCmd::payload`
/// and `BootloaderCmd::from_payload` are proved to compute, so
/// `from_payload(c.command_byte(), &c.payload())` is `Ok` of that reply.
pub proof fn lemma_payload_roundtrip(c: BootCmdView)
    ensures
        spec_from_payload(spec_command_byte(c), spec_boot_payload(c)) == Ok::<BootCmdView, IOError>(spec_reply_form(c)),
{
    let p = spec_boot_payload(c);
    match c {
        BootCmdView::Ping(v) => {
            lemma_be32_roundtrip(v);
        },
        BootCmdView::Pong(v) => {
            lemma_be32_roundtrip(v);
        },
        BootCmdView::Erase(v) => {
            lemma_be32_roundtrip(v);
        },
        BootCmdView::EraseAck(v) => {
            lemma_be32_roundtrip(v);
        },
        BootCmdView::Program { offset, length, size, data } => {
            lemma_be32_roundtrip(offset);
            lemma_be32_roundtrip(length);
            lemma_be32_roundtrip(size);
            assert(p.subrange(12, p.len() as int) =~= data);
        },
        BootCmdView::ProgramAck { length, offset } => {
            lemma_be32_roundtrip(length);
            lemma_be32_roundtrip(offset);
        },
        BootCmdView::Jump => {},
    }
}

/// The size of a command is the number of bytes it is sent as.
pub proof fn lemma_boot_size(c: BootCmdView)
    ensures
        spec_boot_bytes(c).len() == spec_boot_payload(c).len() + 7,
{
}

/// The value a ping carries, which the bootloader's pong must echo.
pub const PING_MAGIC: u32 = 0x1234_5678;
/// How many pings are sent before giving up.
pub const PING_TRIES: u32 = 5;
/// How long the reset pin is held low, in milliseconds.
pub const RESET_PULSE_MS: u32 = 200;
/// How long the bootloader takes to start, in milliseconds.
pub const BOOT_WAIT_MS: u32 = 50;
/// How long the application takes to start after the jump, in milliseconds.
pub const APP_WAIT_MS: u32 = 200;

/// What the host does next while bringing the MCU up through its bootloader.
pub enum ElegooAction {
    /// Drive the reset pin to this level.
    SetPin(bool),
    /// Wait this many milliseconds.
    Sleep(u32),
    /// Open the connection to the MCU.
    Connect,
    /// Send this command and read the reply.
    Exchange(BootloaderCmd),
    /// Send this command; no reply comes.
    Send(BootloaderCmd),
    /// Drop whatever input is pending.
    FlushInput,
    /// The MCU runs its application; the connection is ready.
    Finished,
    /// Bringing the MCU up failed with this error.
    Failed(IOError),
}

/// What happened to the last action.
pub enum ElegooEvent {
    /// The action was carried out.
    Done,
    /// The reply read after an `Exchange`.
    Reply(Result<BootloaderCmd, IOError>),
}

/// The mathematical value of an action.
pub enum ElegooActionView {
    SetPin(bool),
    Sleep(u32),
    Connect,
    Exchange(BootCmdView),
    Send(BootCmdView),
    FlushInput,
    Finished,
    Failed(IOError),
}

impl View for ElegooAction {
    type V = ElegooActionView;

    open spec fn view(&self) -> ElegooActionView {
        match self {
            ElegooAction::SetPin(b) => ElegooActionView::SetPin(*b),
            ElegooAction::Sleep(ms) => ElegooActionView::Sleep(*ms),
            ElegooAction::Connect => ElegooActionView::Connect,
            ElegooAction::Exchange(c) => ElegooActionView::Exchange(c@),
            ElegooAction::Send(c) => ElegooActionView::Send(c@),
            ElegooAction::FlushInput => ElegooActionView::FlushInput,
            ElegooAction::Finished => ElegooActionView::Finished,
            ElegooAction::Failed(e) => ElegooActionView::Failed(*e),
        }
    }
}

/// The mathematical value of an event: `None` for `Done`, else the reply.
pub open spec fn spec_event(e: ElegooEvent) -> Option<Result<BootCmdView, IOError>> {
    match e {
        ElegooEvent::Done => None,
        ElegooEvent::Reply(Ok(c)) => Some(Ok(c@)),
        ElegooEvent::Reply(Err(err)) => Some(Err(err)),
    }
}

/// One step of the bring-up, from the stage, the pings already answered by a
/// timeout, and what happened to the last action, to the next stage, count
/// and action. The sequence is: reset pin low, wait, pin high, wait for the
/// bootloader, connect, ping until the pong echoes the magic (a timeout is
/// retried until `PING_TRIES` pings timed out; any other reply fails with
/// `UnexpectedCommand`), jump to the application, wait, flush the input.
pub open spec fn spec_elegoo_step(stage: u8, timeouts: u32, reply: Option<Result<BootCmdView, IOError>>)
    -> (u8, u32, ElegooActionView)
{
    if stage == 0 {
        (1, timeouts, ElegooActionView::SetPin(false))
    } else if stage == 1 {
        (2, timeouts, ElegooActionView::Sleep(RESET_PULSE_MS))
    } else if stage == 2 {
        (3, timeouts, ElegooActionView::SetPin(true))
    } else if stage == 3 {
        (4, timeouts, ElegooActionView::Sleep(BOOT_WAIT_MS))
    } else if stage == 4 {
        (5, timeouts, ElegooActionView::Connect)
    } else if stage == 5 {
        (6, 0, ElegooActionView::Exchange(BootCmdView::Ping(PING_MAGIC)))
    } else if stage == 6 {
        match reply {
            Some(Ok(BootCmdView::Pong(v))) if v == PING_MAGIC => (7, timeouts, ElegooActionView::Send(BootCmdView::Jump)),
            Some(Err(IOError::Timeout)) => if timeouts + 1 >= PING_TRIES {
                (10, timeouts, ElegooActionView::Failed(IOError::Timeout))
            } else {
                (6, (timeouts + 1) as u32, ElegooActionView::Exchange(BootCmdView::Ping(PING_MAGIC)))
            },
            _ => (10, timeouts, ElegooActionView::Failed(IOError::UnexpectedCommand)),
        }
    } else if stage == 7 {
        (8, timeouts, ElegooActionView::Sleep(APP_WAIT_MS))
    } else if stage == 8 {
        (9, timeouts, ElegooActionView::FlushInput)
    } else {
        (stage, timeouts, ElegooActionView::Finished)
    }
}

/// The bring-up of an Elegoo MCU through its 0xA55A bootloader, as a state
/// machine: each `step` takes what happened to the last action and says what
/// to do next.
pub struct Elegoo0xA55A {
    stage: u8,
    timeouts: u32,
    pin_int: u32,
}

impl Elegoo0xA55A {
    /// The current stage.
    pub closed spec fn stage(&self) -> u8 {
        self.stage
    }

    /// The pings that timed out so far.
    pub closed spec fn timeouts(&self) -> u32 {
        self.timeouts
    }

    /// The kernel GPIO number of the reset pin.
    pub closed spec fn pin_int(&self) -> u32 {
        self.pin_int
    }

    /// Well formed: a known stage, fewer timeouts than tries.
    pub closed spec fn wf(&self) -> bool {
        self.stage <= 10 && self.timeouts < PING_TRIES
    }

    /// Whether the machine is waiting for the reply of an `Exchange`.
    pub open spec fn awaits_reply(&self) -> bool {
        self.stage() == 6
    }

    /// Whether the bring-up is over (finished or failed).
    pub open spec fn is_over(&self) -> bool {
        self.stage() >= 9
    }

    /// The bring-up before its first action, resetting the MCU through the
    /// pin named `pin`. A name that is no pin is refused with `InvalidPin`
    /// before anything is done: no pin is driven, nothing is waited for and
    /// no connection is opened.
    pub fn new(pin: &str) -> (r: Result<Elegoo0xA55A, IOError>)
        ensures
            match spec_checked_pin_int(pin.spec_bytes()) {
                None => r == Err::<Elegoo0xA55A, IOError>(IOError::InvalidPin),
                Some(n) => r matches Ok(m) && m.wf() && m.stage() == 0 && m.timeouts() == 0 && m.pin_int() == n,
            },
    {
        match checked_pin_name_to_int(pin) {
            None => Err(IOError::InvalidPin),
            Some(pin_int) => Ok(Elegoo0xA55A { stage: 0, timeouts: 0, pin_int }),
        }
    }

    /// The kernel GPIO number of the reset pin.
    pub fn reset_pin(&self) -> (r: u32)
        ensures
            r == self.pin_int(),
    {
        self.pin_int
    }

    /// Takes what happened to the last action (`Done` before the first one)
    /// and gives the next action.
    pub fn step(&mut self, event: ElegooEvent) -> (a: ElegooAction)
        requires
            old(self).wf(),
            old(self).awaits_reply() <==> event is Reply,
        ensures
            final(self).wf(),
            (final(self).stage(), final(self).timeouts(), a@)
                == spec_elegoo_step(old(self).stage(), old(self).timeouts(), spec_event(event)),
    {
        if self.stage == 0 {
            self.stage = 1;
            ElegooAction::SetPin(false)
        } else if self.stage == 1 {
            self.stage = 2;
            ElegooAction::Sleep(RESET_PULSE_MS)
        } else if self.stage == 2 {
            self.stage = 3;
            ElegooAction::SetPin(true)
        } else if self.stage == 3 {
            self.stage = 4;
            ElegooAction::Sleep(BOOT_WAIT_MS)
        } else if self.stage == 4 {
            self.stage = 5;
            ElegooAction::Connect
        } else if self.stage == 5 {
            self.stage = 6;
            self.timeouts = 0;
            ElegooAction::Exchange(BootloaderCmd::Ping(PING_MAGIC))
        } else if self.stage == 6 {
            match event {
                ElegooEvent::Reply(Ok(BootloaderCmd::Pong(v))) => {
                    if v == PING_MAGIC {
                        self.stage = 7;
                        ElegooAction::Send(BootloaderCmd::Jump)
                    } else {
                        self.stage = 10;
                        ElegooAction::Failed(IOError::UnexpectedCommand)
                    }
                },
                ElegooEvent::Reply(Err(IOError::Timeout)) => {
                    if self.timeouts + 1 >= PING_TRIES {
                        self.stage = 10;
                        ElegooAction::Failed(IOError::Timeout)
                    } else {
                        self.timeouts = self.timeouts + 1;
                        ElegooAction::Exchange(BootloaderCmd::Ping(PING_MAGIC))
                    }
                },
                _ => {
                    self.stage = 10;
                    ElegooAction::Failed(IOError::UnexpectedCommand)
                },
            }
        } else if self.stage == 7 {
            self.stage = 8;
            ElegooAction::Sleep(APP_WAIT_MS)
        } else if self.stage == 8 {
            self.stage = 9;
            ElegooAction::FlushInput
        } else {
            ElegooAction::Finished
        }
    }
}

/// `n` ping replies from the stage after the first ping: `Timeout` for each
/// of the first `n - 1`, then `last`.
pub open spec fn spec_after_replies(timeouts: u32, n: nat, last: Result<BootCmdView, IOError>) -> (u8, u32, ElegooActionView)
    decreases n,
{
    if n <= 1 {
        spec_elegoo_step(6, timeouts, Some(last))
    } else {
        let (st, t, a) = spec_elegoo_step(6, timeouts, Some(Err(IOError::Timeout)));
        if st == 6 { spec_after_replies(t, (n - 1) as nat, last) } else { (st, t, a) }
    }
}

/// After the first ping, every timed-out ping is sent again until
/// `PING_TRIES` pings timed out, which fails with `Timeout`; a pong that
/// echoes the magic after fewer timeouts leads to the jump.
pub proof fn lemma_ping_retries(n: nat)
    requires
        1 <= n <= PING_TRIES,
    ensures
        spec_after_replies(0, n, Err(IOError::Timeout)).2 == if n == PING_TRIES {
            ElegooActionView::Failed(IOError::Timeout)
        } else {
            ElegooActionView::Exchange(BootCmdView::Ping(PING_MAGIC))
        },
        spec_after_replies(0, n, Ok(BootCmdView::Pong(PING_MAGIC))).2 == ElegooActionView::Send(BootCmdView::Jump),
{
    lemma_replies_from(0, n);
}

proof fn lemma_replies_from(t: u32, n: nat)
    requires
        1 <= n,
        t + n <= PING_TRIES,
    ensures
        spec_after_replies(t, n, Err(IOError::Timeout)).2 == if t + n == PING_TRIES {
            ElegooActionView::Failed(IOError::Timeout)
        } else {
            ElegooActionView::Exchange(BootCmdView::Ping(PING_MAGIC))
        },
        spec_after_replies(t, n, Ok(BootCmdView::Pong(PING_MAGIC))).2 == ElegooActionView::Send(BootCmdView::Jump),
    decreases n,
{
    if n > 1 {
        lemma_replies_from((t + 1) as u32, (n - 1) as nat);
    }
}

} // verus!
