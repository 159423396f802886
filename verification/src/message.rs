//! A Klipper message: `[length, 0x10 | sequence, payload.., crc_hi, crc_lo, 0x7e]`.
use vstd::prelude::*;
use crate::crc::{crc16_ccitt, spec_crc16_ccitt};
use crate::error::IOError;
use crate::reader::ByteReader;

verus! {

/// A Klipper message with its header fields and checksum.
pub struct Message {
    pub length: usize,
    /// The sequence number without the direction bit.
    pub sequence: u8,
    pub payload: Vec<u8>,
    pub crc: [u8; 2],
}

impl Message {
    /// Smallest message: a message with an empty payload.
    pub const MESSAGE_MIN: usize = 5;
    /// Largest message.
    pub const MESSAGE_MAX: usize = 64;
    /// The frame sync marker that ends every message.
    pub const MESSAGE_SYNC: u8 = 0x7e;
    /// Direction bit of the sequence byte.
    pub const MESSAGE_DEST: u8 = 0x10;
    /// Sequence number mask.
    pub const MESSAGE_SEQ_MASK: u8 = 0x0f;
}

/// The sequence byte on the wire for a sequence number.
pub open spec fn spec_compose_seq(num: u8) -> u8 {
    (num & 0x0f) | 0x10
}

/// The checksum a message with these header bytes and payload carries.
pub open spec fn spec_message_crc(length: u8, seq_byte: u8, payload: Seq<u8>) -> Seq<u8> {
    spec_crc16_ccitt(seq![length, seq_byte] + payload)
}

/// The bytes of a message on the wire.
pub open spec fn spec_message_bytes(length: usize, sequence: u8, payload: Seq<u8>, crc: Seq<u8>) -> Seq<u8> {
    seq![length as u8, spec_compose_seq(sequence)] + payload + crc + seq![0x7eu8]
}

/// What decoding the front of `s` yields: the header length byte, the raw
/// sequence byte, the payload and the checksum bytes, or the error, together
/// with the number of bytes consumed (everything, when the input ends early).
pub open spec fn spec_decode_message(s: Seq<u8>) -> (Result<(u8, u8, Seq<u8>, Seq<u8>), IOError>, int) {
    if s.len() == 0 {
        (Err(IOError::UnexpectedEof), 0)
    } else {
        let len = s[0];
        if len == 0 {
            (Err(IOError::NullPacket), 1)
        } else if len < 5 {
            (Err(IOError::PacketTooSmall), 1)
        } else if len > 64 {
            (Err(IOError::PacketTooLarge), 1)
        } else if s.len() < len {
            (Err(IOError::UnexpectedEof), s.len() as int)
        } else {
            let seq_byte = s[1];
            let payload = s.subrange(2, len - 3);
            let crc = s.subrange(len - 3, len - 1);
            if s[len - 1] != 0x7e {
                (Err(IOError::InvalidSync), len as int)
            } else if spec_message_crc(len, seq_byte, payload) != crc {
                (Err(IOError::InvalidCrc), len as int)
            } else {
                (Ok((len, seq_byte, payload, crc)), len as int)
            }
        }
    }
}

impl Message {
    /// Makes a message carrying `payload` with sequence number `seq & 0x0f`;
    /// `None` when the message would exceed `MESSAGE_MAX` bytes.
    pub fn new(payload: Vec<u8>, seq: u8) -> (r: Option<Message>)
        ensures
            payload@.len() + 5 > 64 ==> r is None,
            payload@.len() + 5 <= 64 ==> (r matches Some(m) && m.length == payload@.len() + 5
                && m.sequence == seq & 0x0f
                && m.payload@ == payload@
                && m.crc@ == spec_message_crc(m.length as u8, spec_compose_seq(m.sequence), payload@)),
    {
        if payload.len() > Self::MESSAGE_MAX - Self::MESSAGE_MIN {
            return None;
        }
        let length = payload.len() + Self::MESSAGE_MIN;
        let sequence = seq & Self::MESSAGE_SEQ_MASK;
        let composed_seq = Self::compose_sequence_number(sequence);
        let mut crc_buf: Vec<u8> = Vec::with_capacity(2 + payload.len());
        crc_buf.push(length as u8);
        crc_buf.push(composed_seq);
        let mut i: usize = 0;
        while i < payload.len()
            invariant
                i <= payload@.len(),
                crc_buf@ == seq![length as u8, composed_seq] + payload@.subrange(0, i as int),
            decreases payload.len() - i,
        {
            crc_buf.push(payload[i]);
            i += 1;
            assert(crc_buf@ =~= seq![length as u8, composed_seq] + payload@.subrange(0, i as int));
        }
        assert(payload@.subrange(0, i as int) =~= payload@);
        let crc = Self::crc16_ccitt(crc_buf.as_slice());
        Some(Message { length, sequence, payload, crc })
    }

    /// The checksum of `buf` (see `crate::crc::crc16_ccitt`).
    fn crc16_ccitt(buf: &[u8]) -> (r: [u8; 2])
        ensures
            r@ == spec_crc16_ccitt(buf@),
    {
        crc16_ccitt(buf)
    }

    fn compose_sequence_number(num: u8) -> (r: u8)
        ensures
            r == spec_compose_seq(num),
    {
        (num & Self::MESSAGE_SEQ_MASK) | Self::MESSAGE_DEST
    }

    fn decompose_sequence_number(composed: u8) -> (r: u8)
        ensures
            r == composed & 0xef,
    {
        let r = composed & !Self::MESSAGE_DEST;
        assert(composed & !0x10u8 == composed & 0xef) by (bit_vector);
        r
    }

    /// The message as it goes on the wire.
    pub fn encode(&self) -> (out: Vec<u8>)
        ensures
            out@ == spec_message_bytes(self.length, self.sequence, self.payload@, self.crc@),
    {
        let mut out: Vec<u8> = Vec::new();
        out.push(self.length as u8);
        out.push(Self::compose_sequence_number(self.sequence));
        let mut i: usize = 0;
        while i < self.payload.len()
            invariant
                i <= self.payload@.len(),
                out@ == seq![self.length as u8, spec_compose_seq(self.sequence)] + self.payload@.subrange(0, i as int),
            decreases self.payload.len() - i,
        {
            out.push(self.payload[i]);
            i += 1;
            assert(out@ =~= seq![self.length as u8, spec_compose_seq(self.sequence)] + self.payload@.subrange(0, i as int));
        }
        out.push(self.crc[0]);
        out.push(self.crc[1]);
        out.push(Self::MESSAGE_SYNC);
        assert(self.payload@.subrange(0, i as int) =~= self.payload@);
        assert(out@ =~= spec_message_bytes(self.length, self.sequence, self.payload@, self.crc@));
        out
    }

    /// Reads one message: the length byte is checked first, then the rest is
    /// read and the sync byte and checksum are checked.
    pub fn decode(reader: &mut ByteReader) -> (r: Result<Message, IOError>)
        ensures
            ({
                let (res, n) = spec_decode_message(old(reader)@);
                &&& final(reader)@ == old(reader)@.subrange(n, old(reader)@.len() as int)
                &&& match res {
                    Ok((len, seq_byte, payload, crc)) => (r matches Ok(m) && m.length == len
                        && m.sequence == seq_byte & 0xef && m.payload@ == payload && m.crc@ == crc),
                    Err(e) => r == Err::<Message, IOError>(e),
                }
            }),
    {
        let ghost s = reader@;
        let length_byte = reader.read_byte()?;
        let length = length_byte as usize;
        if length == 0 {
            return Err(IOError::NullPacket);
        } else if length < Self::MESSAGE_MIN {
            return Err(IOError::PacketTooSmall);
        } else if length > Self::MESSAGE_MAX {
            return Err(IOError::PacketTooLarge);
        }
        let ghost s1 = reader@;
        let seq_r = reader.read_exact(1);
        let seq_bytes = match seq_r {
            Ok(b) => b,
            Err(e) => {
                return Err(e);
            },
        };
        let payload_r = reader.read_exact(length - Self::MESSAGE_MIN);
        let payload_bytes = match payload_r {
            Ok(b) => b,
            Err(e) => {
                return Err(e);
            },
        };
        let crc_r = reader.read_exact(2);
        let crc_bytes = match crc_r {
            Ok(b) => b,
            Err(e) => {
                return Err(e);
            },
        };
        let sync_r = reader.read_exact(1);
        let sync_bytes = match sync_r {
            Ok(b) => b,
            Err(e) => {
                return Err(e);
            },
        };
        proof {
            assert(s.len() >= length);
            assert(reader@ =~= s.subrange(length as int, s.len() as int));
            assert(payload_bytes@ =~= s.subrange(2, length - 3));
            assert(crc_bytes@ =~= s.subrange(length - 3, length - 1));
        }
        let seq = Self::decompose_sequence_number(seq_bytes[0]);
        if sync_bytes[0] != Self::MESSAGE_SYNC {
            return Err(IOError::InvalidSync);
        }
        let mut crc_input: Vec<u8> = Vec::new();
        crc_input.push(length_byte);
        crc_input.push(seq_bytes[0]);
        let mut i: usize = 0;
        while i < payload_bytes.len()
            invariant
                i <= payload_bytes@.len(),
                crc_input@ == seq![length_byte, seq_bytes@[0]] + payload_bytes@.subrange(0, i as int),
            decreases payload_bytes.len() - i,
        {
            crc_input.push(payload_bytes[i]);
            i += 1;
            assert(crc_input@ =~= seq![length_byte, seq_bytes@[0]] + payload_bytes@.subrange(0, i as int));
        }
        assert(payload_bytes@.subrange(0, i as int) =~= payload_bytes@);
        let crc_actual = Self::crc16_ccitt(crc_input.as_slice());
        if crc_actual[0] != crc_bytes[0] || crc_actual[1] != crc_bytes[1] {
            proof {
                if spec_message_crc(length_byte, seq_bytes@[0], payload_bytes@) == crc_bytes@ {
                    assert(crc_actual@[0] == crc_bytes@[0]);
                }
            }
            return Err(IOError::InvalidCrc);
        }
        let crc: [u8; 2] = [crc_bytes[0], crc_bytes[1]];
        assert(crc@ =~= crc_bytes@);
        assert(crc_actual@ =~= crc_bytes@);
        Ok(Message { length, sequence: seq, payload: payload_bytes, crc })
    }
}

/// A message made by `Message::new` decodes, from its own encoding, to the
/// same length, sequence number, payload and checksum, whatever bytes follow.
pub proof fn lemma_message_roundtrip(length: usize, sequence: u8, payload: Seq<u8>, crc: Seq<u8>, rest: Seq<u8>)
    requires
        length == payload.len() + 5,
        length <= 64,
        sequence < 16,
        crc == spec_message_crc(length as u8, spec_compose_seq(sequence), payload),
    ensures
        ({
            let bytes = spec_message_bytes(length, sequence, payload, crc);
            spec_decode_message(bytes + rest) == (
                Ok::<(u8, u8, Seq<u8>, Seq<u8>), IOError>((length as u8, spec_compose_seq(sequence), payload, crc)),
                length as int,
            ) && spec_compose_seq(sequence) & 0xef == sequence
        }),
{
    let bytes = spec_message_bytes(length, sequence, payload, crc);
    let s = bytes + rest;
    assert(crc.len() == 2);
    assert(bytes.len() == length);
    assert(s[0] == length as u8);
    assert((length as u8) as int == length);
    assert(s.subrange(2, length - 3) =~= payload);
    assert(s.subrange(length - 3, length - 1) =~= crc);
    assert(s[length - 1] == 0x7e);
    assert(((sequence & 0x0f) | 0x10) & 0xef == sequence) by (bit_vector)
        requires sequence < 16;
}

} // verus!
