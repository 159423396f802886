//! Klipper frames on a byte stream: encoding a command into a frame, finding
//! a valid frame in received bytes, and assembling frames from a reader.
use vstd::prelude::*;
use crate::command::{
    spec_args_view, spec_command_size, spec_decode_recv_command, spec_send_command_bytes, ArgValue,
    CommandFilled, lemma_decode_recv_command_len,
};
use crate::crc::{crc16_ccitt, spec_crc16_ccitt, CrcWriter};
use crate::dictionary::{DictionaryRecv, DictionarySend};
use crate::error::IOError;
use crate::reader::ByteReader;

verus! {

pub const MESSAGE_MIN: usize = 5;
pub const MESSAGE_MAX: usize = 64;
pub const MESSAGE_SYNC: u8 = 0x7e;
pub const MESSAGE_DEST: u8 = 0x10;
pub const MESSAGE_SEQ_MASK: u8 = 0x0f;
pub const MESSAGE_HEADER_SIZE: usize = 2;
pub const MESSAGE_TRAILER_SIZE: usize = 3;

/// The sequence byte on the wire: the sequence number with the direction bit.
pub open spec fn spec_compose_sequence_number(seq: u8) -> u8 {
    (seq & 0x0f) | 0x10
}

/// The sequence number in a sequence byte.
pub open spec fn spec_decompose_sequence_number(composed: u8) -> u8 {
    composed & 0x0f
}

/// The sequence byte for `seq`.
pub fn compose_sequence_number(seq: u8) -> (r: u8)
    ensures
        r == spec_compose_sequence_number(seq),
{
    (seq & MESSAGE_SEQ_MASK) | MESSAGE_DEST
}

fn decompose_sequence_number(composed: u8) -> (r: u8)
    ensures
        r == spec_decompose_sequence_number(composed),
{
    composed & MESSAGE_SEQ_MASK
}

/// The sequence number sent in a sequence byte is read back from it, up to
/// its four bits.
pub proof fn lemma_sequence_roundtrip(seq: u8)
    ensures
        spec_decompose_sequence_number(spec_compose_sequence_number(seq)) == seq % 16,
        spec_compose_sequence_number(seq) & 0x10 == 0x10,
{
    assert(((seq & 0x0f) | 0x10) & 0x0f == seq % 16) by (bit_vector);
    assert(((seq & 0x0f) | 0x10) & 0x10 == 0x10) by (bit_vector);
}

/// A frame of `l` bytes starts at `i` in `buf`: its length byte says `l`,
/// it ends with the sync byte, and its checksum matches.
pub open spec fn frame_at(buf: Seq<u8>, i: int, l: int) -> bool {
    &&& 5 <= l <= 64
    &&& 0 <= i
    &&& i + l <= buf.len()
    &&& buf[i + l - 1] == 0x7e
    &&& buf[i] == l as u8
    &&& spec_crc16_ccitt(buf.subrange(i, i + l - 3)) == buf.subrange(i + l - 3, i + l - 1)
}

/// A frame of `l` bytes ends at index `j`.
pub open spec fn frame_ending_at(buf: Seq<u8>, j: int, l: int) -> bool {
    frame_at(buf, j + 1 - l, l)
}

/// The longest frame, of length at most `l`, that ends at index `j`.
pub open spec fn spec_find_len(buf: Seq<u8>, j: int, l: int) -> Option<(int, int)>
    decreases l,
{
    if l < 5 {
        None
    } else if frame_at(buf, j + 1 - l, l) {
        Some((j + 1 - l, l))
    } else {
        spec_find_len(buf, j, l - 1)
    }
}

/// The frame found when scanning end positions from `j` on: the first end
/// position holding the sync byte where some frame ends, and there the
/// longest such frame.
pub open spec fn spec_find_from(buf: Seq<u8>, j: int) -> Option<(int, int)>
    decreases buf.len() - j,
{
    if j < 0 || j >= buf.len() {
        None
    } else if buf[j] == 0x7e && spec_find_len(buf, j, if j + 1 < 64 { j + 1 } else { 64 }) is Some {
        spec_find_len(buf, j, if j + 1 < 64 { j + 1 } else { 64 })
    } else {
        spec_find_from(buf, j + 1)
    }
}

/// The frame that `find_frame` reports in `buf`: `(start, length)`.
pub open spec fn spec_find_frame(buf: Seq<u8>) -> Option<(int, int)> {
    spec_find_from(buf, 0)
}

proof fn lemma_find_len(buf: Seq<u8>, j: int, l: int)
    requires
        l <= 64,
        l <= j + 1,
    ensures
        match spec_find_len(buf, j, l) {
            Some((i, len)) => frame_at(buf, i, len) && i + len - 1 == j && len <= l
                && forall|l2: int| len < l2 <= l ==> !#[trigger] frame_ending_at(buf, j, l2),
            None => forall|l2: int| 5 <= l2 <= l ==> !#[trigger] frame_ending_at(buf, j, l2),
        },
    decreases l,
{
    if l >= 5 && !frame_at(buf, j + 1 - l, l) {
        lemma_find_len(buf, j, l - 1);
    }
}

proof fn lemma_find_from(buf: Seq<u8>, j: int)
    requires
        0 <= j,
    ensures
        match spec_find_from(buf, j) {
            Some((i, l)) => frame_at(buf, i, l) && j <= i + l - 1
                && forall|i2: int, l2: int| frame_at(buf, i2, l2) && i2 + l2 - 1 >= j
                    ==> (i2 + l2 > i + l || (i2 + l2 == i + l && l2 <= l)),
            None => forall|i2: int, l2: int| frame_at(buf, i2, l2) ==> i2 + l2 - 1 < j,
        },
    decreases buf.len() - j,
{
    if j < buf.len() {
        let max_l = if j + 1 < 64 { j + 1 } else { 64 };
        lemma_find_len(buf, j, max_l);
        lemma_find_from(buf, j + 1);
        assert forall|i2: int, l2: int| frame_at(buf, i2, l2) && i2 + l2 - 1 == j implies
            buf[j] == 0x7e && 5 <= l2 <= max_l && frame_ending_at(buf, j, l2) by {
            assert(i2 == j + 1 - l2);
        }
    }
}

/// `find_frame` reports a valid frame, the one that ends first and, among
/// those ending there, the longest; it reports none only when `buf` holds no
/// valid frame at all.
pub proof fn lemma_find_frame_sound(buf: Seq<u8>)
    ensures
        match spec_find_frame(buf) {
            Some((i, l)) => frame_at(buf, i, l)
                && forall|i2: int, l2: int| frame_at(buf, i2, l2)
                    ==> (i2 + l2 > i + l || (i2 + l2 == i + l && l2 <= l)),
            None => forall|i2: int, l2: int| !frame_at(buf, i2, l2),
        },
{
    lemma_find_from(buf, 0);
}

/// Scans `buf` for a valid Klipper frame, anchored on sync bytes; returns
/// `(start, length)` of the frame occupying `buf[start..start + length]`.
pub fn find_frame(buf: &[u8]) -> (r: Option<(usize, usize)>)
    ensures
        match r {
            Some((i, l)) => spec_find_frame(buf@) == Some((i as int, l as int)),
            None => spec_find_frame(buf@) is None,
        },
{
    let len = buf.len();
    let mut j: usize = 0;
    while j < len
        invariant
            j <= len,
            len == buf@.len(),
            spec_find_frame(buf@) == spec_find_from(buf@, j as int),
        decreases len - j,
    {
        if buf[j] == MESSAGE_SYNC {
            let max_l: usize = if j + 1 < MESSAGE_MAX { j + 1 } else { MESSAGE_MAX };
            let mut l: usize = max_l;
            while l >= MESSAGE_MIN
                invariant
                    j < len,
                    len == buf@.len(),
                    buf@[j as int] == 0x7e,
                    max_l == (if j + 1 < 64 { j + 1 } else { 64 }),
                    l <= max_l,
                    spec_find_frame(buf@) == spec_find_from(buf@, j as int),
                    spec_find_len(buf@, j as int, max_l as int) == spec_find_len(buf@, j as int, l as int),
                decreases l,
            {
                let i = j + 1 - l;
                if buf[i] == l as u8 {
                    let crc_slice = vstd::slice::slice_subrange(buf, i, i + l - MESSAGE_TRAILER_SIZE);
                    let computed = crc16_ccitt(crc_slice);
                    if computed[0] == buf[i + l - 3] && computed[1] == buf[i + l - 2] {
                        proof {
                            assert(buf@.subrange(i + l - 3, i + l - 1) =~= computed@);
                        }
                        return Some((i, l));
                    }
                    proof {
                        if frame_at(buf@, i as int, l as int) {
                            assert(computed@[0] == buf@.subrange(i + l - 3, i + l - 1)[0]);
                            assert(computed@[1] == buf@.subrange(i + l - 3, i + l - 1)[1]);
                        }
                    }
                }
                l -= 1;
            }
        }
        j += 1;
    }
    None
}

/// What a frame carries.
pub enum FramePayload {
    /// An acknowledgement (or NAK): no command.
    Empty,
    /// A command sent by the host.
    SendCommand(CommandFilled),
    /// A command received from the MCU.
    RecvCommand(CommandFilled),
}

/// A frame: a sequence number and a payload.
pub struct Frame {
    pub seq: u8,
    pub payload: FramePayload,
}

/// The bytes of a frame whose length byte is `size`: length, sequence byte,
/// command bytes, checksum of all of those, sync byte.
pub open spec fn spec_frame_bytes(size: u8, seq: u8, cmd: Seq<u8>) -> Seq<u8> {
    let body = seq![size, spec_compose_sequence_number(seq)] + cmd;
    body + spec_crc16_ccitt(body) + seq![0x7eu8]
}

/// The size counted for a payload, taken through the send table `t`.
pub open spec fn spec_payload_size(p: FramePayload, t: Seq<i16>) -> int {
    match p {
        FramePayload::Empty => 0,
        FramePayload::SendCommand(c) => spec_command_size(t, c.0, spec_args_view(c.1@)),
        FramePayload::RecvCommand(c) => spec_command_size(t, c.0, spec_args_view(c.1@)),
    }
}

impl FramePayload {
    fn size(&self, dict: &DictionarySend) -> (n: usize)
        requires
            dict.wf(),
            spec_payload_size(*self, dict@) <= usize::MAX,
        ensures
            n == spec_payload_size(*self, dict@),
    {
        match self {
            FramePayload::Empty => 0,
            FramePayload::SendCommand(send_command) => send_command.size(dict),
            FramePayload::RecvCommand(recv_command) => recv_command.size(dict),
        }
    }
}

impl Frame {
    /// A frame that sends `cmd` with sequence number `seq`.
    pub fn send(seq: u8, cmd: CommandFilled) -> (f: Frame)
        ensures
            f.seq == seq,
            f.payload == FramePayload::SendCommand(cmd),
    {
        Frame { seq, payload: FramePayload::SendCommand(cmd) }
    }

    /// Sequence number from the frame header.
    pub fn seq(&self) -> (r: u8)
        ensures
            r == self.seq,
    {
        self.seq
    }

    /// True if the payload is empty (an ACK/NAK).
    pub fn is_empty(&self) -> (r: bool)
        ensures
            r == (self.payload is Empty),
    {
        if let FramePayload::Empty = self.payload {
            true
        } else {
            false
        }
    }

    /// The frame's size counted through `dict`: its payload plus five bytes.
    pub fn size(&self, dict: &DictionarySend) -> (n: usize)
        requires
            dict.wf(),
            spec_payload_size(self.payload, dict@) + 5 <= usize::MAX,
        ensures
            n == spec_payload_size(self.payload, dict@) + 5,
    {
        self.payload.size(dict) + MESSAGE_MIN
    }

    /// Writes the frame of a command to send. The length byte is the frame's
    /// size truncated to eight bits. When the command's id is not registered,
    /// the length and sequence bytes have been written and
    /// `UnregisteredCommand` is returned.
    pub fn encode(&self, writer: &mut Vec<u8>, dict: &DictionarySend) -> (r: Result<(), IOError>)
        requires
            dict.wf(),
            self.payload is SendCommand,
            spec_payload_size(self.payload, dict@) + 5 <= usize::MAX,
        ensures
            ({
                let cmd = self.payload->SendCommand_0;
                let size = ((spec_payload_size(self.payload, dict@) + 5) % 256) as u8;
                match spec_send_command_bytes(dict@, cmd.0, spec_args_view(cmd.1@)) {
                    Some(bytes) => r is Ok
                        && final(writer)@ == old(writer)@ + spec_frame_bytes(size, self.seq, bytes),
                    None => r == Err::<(), IOError>(IOError::UnregisteredCommand { static_id: cmd.0 })
                        && final(writer)@ == old(writer)@ + seq![size, spec_compose_sequence_number(self.seq)],
                }
            }),
    {
        let cmd = match &self.payload {
            FramePayload::SendCommand(c) => c,
            _ => {
                return Ok(());
            },
        };
        let mut inner: Vec<u8> = Vec::new();
        std::mem::swap(&mut inner, writer);
        let mut crc_writer = CrcWriter::new(inner);
        let size = (self.size(dict) % 256) as u8;
        let mut head: Vec<u8> = Vec::new();
        head.push(size);
        head.push(compose_sequence_number(self.seq));
        let _ = crc_writer.write(head.as_slice());
        let mut cmd_bytes: Vec<u8> = Vec::new();
        match cmd.encode(&mut cmd_bytes, dict) {
            Ok(()) => {},
            Err(e) => {
                let (inner, _crc) = crc_writer.finish();
                *writer = inner;
                return Err(e);
            },
        }
        let _ = crc_writer.write(cmd_bytes.as_slice());
        let (mut inner, crc) = crc_writer.finish();
        inner.push(crc[0]);
        inner.push(crc[1]);
        inner.push(MESSAGE_SYNC);
        proof {
            let body = head@ + cmd_bytes@;
            assert(body =~= seq![size, spec_compose_sequence_number(self.seq)] + cmd_bytes@);
            assert(Seq::<u8>::empty() + head@ + cmd_bytes@ =~= body);
            assert(inner@ =~= old(writer)@ + spec_frame_bytes(size, self.seq, cmd_bytes@));
        }
        *writer = inner;
        Ok(())
    }

    /// Reads one frame. Bytes are read into a buffer of at most 64 bytes,
    /// which is scanned for a valid frame after each read; when it fills up
    /// without one, everything before its first sync byte is dropped (all of
    /// it when it has none). A read that yields nothing ends with
    /// `ConnectionClosed`. Bytes read past the frame are dropped.
    pub fn decode(reader: &mut ByteReader, dict: &DictionaryRecv) -> (r: Result<Frame, IOError>)
        requires
            dict.wf(),
        ensures
            ({
                let (found, c) = spec_scan(Seq::empty(), old(reader)@);
                &&& 0 <= c <= old(reader)@.len()
                &&& final(reader)@ == old(reader)@.subrange(c, old(reader)@.len() as int)
                &&& match found {
                    None => r == Err::<Frame, IOError>(IOError::ConnectionClosed),
                    Some((b, i, l)) => spec_frame_result(b, i, l, dict@, r),
                }
            }),
    {
        let mut fb = FrameBuffer::new();
        let ghost s = reader@;
        let ghost mut consumed: int = 0;
        proof {
            lemma_scan_len(Seq::empty(), s);
            assert(s.subrange(0, s.len() as int) =~= s);
        }
        loop
            invariant
                dict.wf(),
                fb.wf(),
                s == old(reader)@,
                0 <= consumed <= s.len(),
                reader@ == s.subrange(consumed, s.len() as int),
                ({
                    let (f0, c0) = spec_scan(Seq::empty(), s);
                    let (f1, c1) = spec_scan(fb@, reader@);
                    f0 == f1 && c0 == consumed + c1
                }),
            decreases reader@.len(),
        {
            match fb.find() {
                Some((start, frame_len)) => {
                    let r = fb.frame_at_found(start, frame_len, dict);
                    return r;
                },
                None => {},
            }
            let space = fb.space();
            let ghost before = reader@;
            let data = reader.read(space);
            if data.len() == 0 {
                return Err(IOError::ConnectionClosed);
            }
            let ghost n = data@.len() as int;
            proof {
                assert(data@ == before.take(n));
                assert(reader@ =~= before.skip(n));
            }
            fb.fill(data.as_slice());
            proof {
                assert(reader@ =~= s.subrange(consumed + n, s.len() as int));
                consumed = consumed + n;
            }
        }
    }
}

/// A frame written by `Frame::encode`, whose length byte is its true size
/// (at most 64 bytes), is a valid frame at the front of whatever stream it
/// starts; `find_frame` reports exactly it unless another valid frame ends
/// earlier; and its sequence number and payload are read back unchanged.
pub proof fn lemma_frame_roundtrip(seq: u8, cmd: Seq<u8>, rest: Seq<u8>)
    requires
        cmd.len() + 5 <= 64,
    ensures
        ({
            let size = (cmd.len() + 5) as u8;
            let b = spec_frame_bytes(size, seq, cmd) + rest;
            &&& frame_at(b, 0, size as int)
            &&& (forall|i2: int, l2: int| frame_at(b, i2, l2) ==> i2 + l2 >= size)
                ==> spec_find_frame(b) == Some((0int, size as int))
            &&& spec_decompose_sequence_number(b[1]) == seq & 0x0f
            &&& b.subrange(2, size - 3) == cmd
        }),
{
    let size = (cmd.len() + 5) as u8;
    let body = seq![size, spec_compose_sequence_number(seq)] + cmd;
    let b = spec_frame_bytes(size, seq, cmd) + rest;
    let crc = spec_crc16_ccitt(body);
    assert(crc.len() == 2);
    assert(b.subrange(0, size - 3) =~= body);
    assert(b.subrange(size - 3, size - 1) =~= crc);
    assert(b[size - 1] == 0x7e);
    assert(b[0] == size);
    assert(b.subrange(2, size - 3) =~= cmd);
    assert((((seq & 0x0f) | 0x10) & 0x0f) == seq & 0x0f) by (bit_vector);
    assert(b[1] == spec_compose_sequence_number(seq));
    assert(frame_at(b, 0, size as int));
    lemma_find_frame_sound(b);
    if forall|i2: int, l2: int| frame_at(b, i2, l2) ==> i2 + l2 >= size {
        match spec_find_frame(b) {
            Some((i, l)) => {
                assert(i + l <= size);
                assert(i + l >= size);
                assert(l >= size);
            },
            None => {
                assert(!frame_at(b, 0, size as int));
            },
        }
    }
}

/// What a frame found at `(i, l)` in `b` decodes to: an empty payload gives
/// an ACK frame; otherwise the payload is decoded as a received command.
pub open spec fn spec_frame_result(b: Seq<u8>, i: int, l: int, t: Seq<u8>, r: Result<Frame, IOError>) -> bool {
    let seq = spec_decompose_sequence_number(b[i + 1]);
    let payload = b.subrange(i + 2, i + l - 3);
    if payload.len() == 0 {
        r matches Ok(f) && f.seq == seq && f.payload is Empty
    } else {
        match spec_decode_recv_command(payload, t).0 {
            Ok((sid, args)) => r matches Ok(f) && f.seq == seq
                && (f.payload matches FramePayload::RecvCommand(c) && c.0 == sid && spec_args_view(c.1@) == args),
            Err(e) => r == Err::<Frame, IOError>(e),
        }
    }
}

/// Index of the first sync byte at or after `i` (the length when none).
pub open spec fn spec_first_sync(b: Seq<u8>, i: int) -> int
    decreases b.len() - i,
{
    if i < 0 || i >= b.len() {
        b.len() as int
    } else if b[i] == 0x7e {
        i
    } else {
        spec_first_sync(b, i + 1)
    }
}

/// A full buffer without a frame keeps only what follows its first sync byte.
pub open spec fn spec_compact(b: Seq<u8>) -> Seq<u8> {
    let p = spec_first_sync(b, 0);
    if p < b.len() {
        b.subrange(p, b.len() as int)
    } else {
        Seq::empty()
    }
}

/// The buffer after appending `data` (and compacting it when it is full).
pub open spec fn spec_fill(buf: Seq<u8>, data: Seq<u8>) -> Seq<u8> {
    let nb = buf + data;
    if nb.len() >= 64 {
        spec_compact(nb)
    } else {
        nb
    }
}

/// Scanning for a frame with buffer `buf` and bytes `input` still to read:
/// the buffer and position of the frame found (or `None` when a read yields
/// nothing first), and the number of input bytes read.
pub open spec fn spec_scan(buf: Seq<u8>, input: Seq<u8>) -> (Option<(Seq<u8>, int, int)>, int)
    decreases input.len(),
{
    match spec_find_frame(buf) {
        Some((i, l)) => (Some((buf, i, l)), 0),
        None => {
            let space = 64 - buf.len();
            let n = if input.len() < space { input.len() as int } else { space };
            if n <= 0 {
                (None, 0)
            } else {
                let (r, c) = spec_scan(spec_fill(buf, input.take(n)), input.skip(n));
                (r, n + c)
            }
        },
    }
}

proof fn lemma_first_sync_bounds(b: Seq<u8>, i: int)
    requires
        0 <= i <= b.len(),
    ensures
        i <= spec_first_sync(b, i) <= b.len(),
        spec_first_sync(b, i) < b.len() ==> b[spec_first_sync(b, i)] == 0x7e,
        forall|k: int| i <= k < spec_first_sync(b, i) ==> b[k] != 0x7e,
    decreases b.len() - i,
{
    if i < b.len() && b[i] != 0x7e {
        lemma_first_sync_bounds(b, i + 1);
    }
}

/// The scan consumes no more than the input.
pub proof fn lemma_scan_len(buf: Seq<u8>, input: Seq<u8>)
    ensures
        0 <= spec_scan(buf, input).1 <= input.len(),
    decreases input.len(),
{
    if spec_find_frame(buf) is None {
        let space = 64 - buf.len();
        let n = if input.len() < space { input.len() as int } else { space };
        if n > 0 {
            lemma_scan_len(spec_fill(buf, input.take(n)), input.skip(n));
        }
    }
}

/// The receive buffer in which frames are assembled from a byte stream.
pub struct FrameBuffer {
    buf: Vec<u8>,
}

impl View for FrameBuffer {
    type V = Seq<u8>;

    closed spec fn view(&self) -> Seq<u8> {
        self.buf@
    }
}

impl FrameBuffer {
    /// The buffer never holds more than 64 bytes.
    pub closed spec fn wf(&self) -> bool {
        self.buf@.len() <= 64
    }

    /// An empty buffer.
    pub fn new() -> (fb: FrameBuffer)
        ensures
            fb.wf(),
            fb@ == Seq::<u8>::empty(),
    {
        FrameBuffer { buf: Vec::new() }
    }

    /// How many bytes the next read may add.
    pub fn space(&self) -> (n: usize)
        requires
            self.wf(),
        ensures
            n == 64 - self@.len(),
    {
        MESSAGE_MAX - self.buf.len()
    }

    /// The frame in the buffer, if any: `(start, length)`.
    pub fn find(&self) -> (r: Option<(usize, usize)>)
        ensures
            match r {
                Some((i, l)) => spec_find_frame(self@) == Some((i as int, l as int)),
                None => spec_find_frame(self@) is None,
            },
    {
        find_frame(self.buf.as_slice())
    }

    /// Appends freshly read bytes; when the buffer is then full, drops
    /// everything before its first sync byte (everything, when it has none).
    pub fn fill(&mut self, data: &[u8])
        requires
            old(self).wf(),
            data@.len() <= 64 - old(self)@.len(),
        ensures
            final(self).wf(),
            final(self)@ == spec_fill(old(self)@, data@),
    {
        let mut k: usize = 0;
        while k < data.len()
            invariant
                k <= data@.len(),
                self.buf@ == old(self)@ + data@.subrange(0, k as int),
            decreases data.len() - k,
        {
            self.buf.push(data[k]);
            k += 1;
            assert(self.buf@ =~= old(self)@ + data@.subrange(0, k as int));
        }
        assert(data@.subrange(0, k as int) =~= data@);
        if self.buf.len() >= MESSAGE_MAX {
            let ghost nb = self.buf@;
            let mut p: usize = 0;
            while p < self.buf.len() && self.buf[p] != MESSAGE_SYNC
                invariant
                    p <= self.buf@.len(),
                    self.buf@ == nb,
                    spec_first_sync(nb, 0) == spec_first_sync(nb, p as int),
                decreases self.buf.len() - p,
            {
                p += 1;
            }
            let mut kept: Vec<u8> = Vec::new();
            let mut q: usize = p;
            while q < self.buf.len()
                invariant
                    p <= q <= self.buf@.len(),
                    self.buf@ == nb,
                    kept@ == nb.subrange(p as int, q as int),
                decreases self.buf.len() - q,
            {
                kept.push(self.buf[q]);
                q += 1;
                assert(kept@ =~= nb.subrange(p as int, q as int));
            }
            proof {
                if p >= nb.len() {
                    assert(kept@ =~= Seq::<u8>::empty());
                }
            }
            self.buf = kept;
        }
    }

    /// Decodes the frame found at `(start, frame_len)`.
    pub fn frame_at_found(&self, start: usize, frame_len: usize, dict: &DictionaryRecv) -> (r: Result<Frame, IOError>)
        requires
            self.wf(),
            dict.wf(),
            spec_find_frame(self@) == Some((start as int, frame_len as int)),
        ensures
            spec_frame_result(self@, start as int, frame_len as int, dict@, r),
    {
        proof { lemma_find_frame_sound(self@); }
        assert(frame_at(self@, start as int, frame_len as int));
        let seq = decompose_sequence_number(self.buf[start + 1]);
        let payload_start = start + MESSAGE_HEADER_SIZE;
        let payload_end = start + frame_len - MESSAGE_TRAILER_SIZE;
        if payload_start == payload_end {
            return Ok(Frame { seq, payload: FramePayload::Empty });
        }
        let payload = vstd::slice::slice_subrange(self.buf.as_slice(), payload_start, payload_end);
        let mut cursor = ByteReader::from_slice(payload);
        let cmd = CommandFilled::decode(&mut cursor, dict);
        match cmd {
            Ok(c) => Ok(Frame { seq, payload: FramePayload::RecvCommand(c) }),
            Err(e) => Err(e),
        }
    }
}

} // verus!
