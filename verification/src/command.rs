//! Command arguments and commands, and their encoding on the wire: integers
//! of 16 and 32 bits as variable length quantities, bytes as one raw byte,
//! strings and buffers as a length byte followed by their bytes.
use vstd::prelude::*;
use vstd::utf8::*;
use crate::commands::{recv_command_args, spec_recv_args, spec_recv_signature, lemma_recv_tables_agree, RECV_COMMAND_COUNT};
use crate::dictionary::{DictionaryRecv, DictionarySend, spec_dynamic_id, spec_static_id};
use crate::error::IOError;
use crate::reader::ByteReader;
use crate::vlq::{encode_int_to, parse_int, spec_encode_int, spec_parse_int, vlq_int_size, lemma_parse_encode_int, lemma_parse_int_len};

verus! {

/// The kind of one argument of a command.
#[allow(non_camel_case_types)]
#[derive(Clone, Copy, Debug, PartialEq, Eq, Structural)]
pub enum CommandArgOutline {
    uint32,
    int32,
    uint16,
    int16,
    byte,
    string,
    progmem_buffer,
    buffer,
}

/// One argument value of a command.
#[allow(non_camel_case_types)]
#[derive(Clone, Debug, PartialEq)]
pub enum CommandArgFilled {
    uint32(u32),
    int32(i32),
    uint16(u16),
    int16(i16),
    byte(u8),
    string(String),
    progmem_buffer(Vec<u8>),
    buffer(Vec<u8>),
}

/// The mathematical value of an argument.
pub enum ArgValue {
    Uint32(u32),
    Int32(i32),
    Uint16(u16),
    Int16(i16),
    Byte(u8),
    Str(Seq<char>),
    Progmem(Seq<u8>),
    Buffer(Seq<u8>),
}

impl View for CommandArgFilled {
    type V = ArgValue;

    open spec fn view(&self) -> ArgValue {
        match self {
            CommandArgFilled::uint32(n) => ArgValue::Uint32(*n),
            CommandArgFilled::int32(n) => ArgValue::Int32(*n),
            CommandArgFilled::uint16(n) => ArgValue::Uint16(*n),
            CommandArgFilled::int16(n) => ArgValue::Int16(*n),
            CommandArgFilled::byte(n) => ArgValue::Byte(*n),
            CommandArgFilled::string(s) => ArgValue::Str(s@),
            CommandArgFilled::progmem_buffer(b) => ArgValue::Progmem(b@),
            CommandArgFilled::buffer(b) => ArgValue::Buffer(b@),
        }
    }
}

/// The kind of an argument value.
pub open spec fn spec_outline_of(a: ArgValue) -> CommandArgOutline {
    match a {
        ArgValue::Uint32(_) => CommandArgOutline::uint32,
        ArgValue::Int32(_) => CommandArgOutline::int32,
        ArgValue::Uint16(_) => CommandArgOutline::uint16,
        ArgValue::Int16(_) => CommandArgOutline::int16,
        ArgValue::Byte(_) => CommandArgOutline::byte,
        ArgValue::Str(_) => CommandArgOutline::string,
        ArgValue::Progmem(_) => CommandArgOutline::progmem_buffer,
        ArgValue::Buffer(_) => CommandArgOutline::buffer,
    }
}

/// A length byte (the length truncated to eight bits) and the bytes.
pub open spec fn spec_len_prefixed(b: Seq<u8>) -> Seq<u8> {
    seq![(b.len() % 256) as u8] + b
}

/// The bytes of one argument on the wire.
pub open spec fn spec_encode_arg(a: ArgValue) -> Seq<u8> {
    match a {
        ArgValue::Uint32(n) => spec_encode_int(n),
        ArgValue::Int32(n) => spec_encode_int(n as u32),
        ArgValue::Uint16(n) => spec_encode_int(n as u32),
        ArgValue::Int16(n) => spec_encode_int(n as u32),
        ArgValue::Byte(n) => seq![n],
        ArgValue::Str(s) => spec_len_prefixed(encode_utf8(s)),
        ArgValue::Progmem(b) => spec_len_prefixed(b),
        ArgValue::Buffer(b) => spec_len_prefixed(b),
    }
}

/// The bytes of a list of arguments, one after the other.
pub open spec fn spec_encode_args(args: Seq<ArgValue>) -> Seq<u8>
    decreases args.len(),
{
    if args.len() == 0 {
        Seq::empty()
    } else {
        spec_encode_arg(args[0]) + spec_encode_args(args.drop_first())
    }
}

/// The values of a list of arguments.
pub open spec fn spec_args_view(args: Seq<CommandArgFilled>) -> Seq<ArgValue> {
    args.map_values(|a: CommandArgFilled| a@)
}

/// The kinds of a list of argument values.
pub open spec fn spec_outlines_of(args: Seq<ArgValue>) -> Seq<CommandArgOutline> {
    args.map_values(|a: ArgValue| spec_outline_of(a))
}

/// Strings and buffers are short enough for their length byte.
pub open spec fn spec_arg_is_short(a: ArgValue) -> bool {
    match a {
        ArgValue::Str(s) => encode_utf8(s).len() <= 255,
        ArgValue::Progmem(b) => b.len() <= 255,
        ArgValue::Buffer(b) => b.len() <= 255,
        _ => true,
    }
}

/// The bytes of a command: its dynamic id as a variable length quantity
/// (the `i16` taken as `u32`), then its arguments.
pub open spec fn spec_encode_command(dynamic_id: i16, args: Seq<ArgValue>) -> Seq<u8> {
    spec_encode_int(dynamic_id as u32) + spec_encode_args(args)
}

/// What sending a command with static id `static_id` writes through table `t`,
/// or `None` when the id has no dynamic id.
pub open spec fn spec_send_command_bytes(t: Seq<i16>, static_id: u16, args: Seq<ArgValue>) -> Option<Seq<u8>> {
    match spec_dynamic_id(t, static_id as int) {
        Some(d) => Some(spec_encode_command(d, args)),
        None => None,
    }
}

/// The size a command is counted as: the bytes it encodes to, the id
/// counted as zero bytes when it is not registered.
pub open spec fn spec_command_size(t: Seq<i16>, static_id: u16, args: Seq<ArgValue>) -> int {
    match spec_dynamic_id(t, static_id as int) {
        Some(d) => (spec_encode_int(d as u32).len() + spec_encode_args(args).len()) as int,
        None => spec_encode_args(args).len() as int,
    }
}

/// What decoding a received command at the front of `s` through table `t`
/// yields: its static id and arguments, or the error, with the number of
/// bytes consumed.
pub open spec fn spec_decode_recv_command(s: Seq<u8>, t: Seq<u8>) -> (Result<(u16, Seq<ArgValue>), IOError>, int) {
    match spec_parse_int(s) {
        None => (Err(IOError::UnexpectedEof), s.len() as int),
        Some((raw, n)) => {
            let id = raw as i16;
            match spec_static_id(t, id as int) {
                None => (Err(IOError::UnregisteredCommandId { id }), n),
                Some(sid) => if sid >= 27 {
                    (Err(IOError::UnknownVariant { id }), n)
                } else {
                    let rest = s.subrange(n, s.len() as int);
                    match spec_decode_args(rest, spec_recv_args(sid as int)) {
                        (Ok(args), m) => (Ok((sid as u16, args)), n + m),
                        (Err(e), m) => (Err(e), n + m),
                    }
                },
            }
        },
    }
}

/// Decodes a length-prefixed byte string at the front of `s`.
pub open spec fn spec_decode_len_prefixed(s: Seq<u8>) -> (Option<Seq<u8>>, int) {
    if s.len() == 0 {
        (None, 0)
    } else if s.len() < 1 + s[0] {
        (None, s.len() as int)
    } else {
        (Some(s.subrange(1, 1 + s[0])), 1 + s[0])
    }
}

/// What decoding one argument of kind `outline` at the front of `s` yields,
/// and how many bytes it consumes (everything, when the input ends early).
pub open spec fn spec_decode_arg(s: Seq<u8>, outline: CommandArgOutline) -> (Result<ArgValue, IOError>, int) {
    match outline {
        CommandArgOutline::uint32 => match spec_parse_int(s) {
            Some((v, n)) => (Ok(ArgValue::Uint32(v)), n),
            None => (Err(IOError::UnexpectedEof), s.len() as int),
        },
        CommandArgOutline::int32 => match spec_parse_int(s) {
            Some((v, n)) => (Ok(ArgValue::Int32(v as i32)), n),
            None => (Err(IOError::UnexpectedEof), s.len() as int),
        },
        CommandArgOutline::uint16 => match spec_parse_int(s) {
            Some((v, n)) => (Ok(ArgValue::Uint16(v as u16)), n),
            None => (Err(IOError::UnexpectedEof), s.len() as int),
        },
        CommandArgOutline::int16 => match spec_parse_int(s) {
            Some((v, n)) => (Ok(ArgValue::Int16(v as i16)), n),
            None => (Err(IOError::UnexpectedEof), s.len() as int),
        },
        CommandArgOutline::byte => if s.len() == 0 {
            (Err(IOError::UnexpectedEof), 0)
        } else {
            (Ok(ArgValue::Byte(s[0])), 1)
        },
        CommandArgOutline::string => match spec_decode_len_prefixed(s) {
            (Some(b), n) => if valid_utf8(b) {
                (Ok(ArgValue::Str(decode_utf8(b))), n)
            } else {
                (Err(IOError::InvalidUTF8), n)
            },
            (None, n) => (Err(IOError::UnexpectedEof), n),
        },
        CommandArgOutline::progmem_buffer => match spec_decode_len_prefixed(s) {
            (Some(b), n) => (Ok(ArgValue::Progmem(b)), n),
            (None, n) => (Err(IOError::UnexpectedEof), n),
        },
        CommandArgOutline::buffer => match spec_decode_len_prefixed(s) {
            (Some(b), n) => (Ok(ArgValue::Buffer(b)), n),
            (None, n) => (Err(IOError::UnexpectedEof), n),
        },
    }
}

/// Decodes arguments of the kinds `outlines`, in order, from the front of `s`.
pub open spec fn spec_decode_args(s: Seq<u8>, outlines: Seq<CommandArgOutline>) -> (Result<Seq<ArgValue>, IOError>, int)
    decreases outlines.len(),
{
    if outlines.len() == 0 {
        (Ok(Seq::empty()), 0)
    } else {
        match spec_decode_arg(s, outlines[0]) {
            (Ok(a), n) => {
                let rest = s.subrange(n, s.len() as int);
                match spec_decode_args(rest, outlines.drop_first()) {
                    (Ok(tail), m) => (Ok(seq![a] + tail), n + m),
                    (Err(e), m) => (Err(e), n + m),
                }
            },
            (Err(e), n) => (Err(e), n),
        }
    }
}

/// Converts bytes to a `String`.
///
/// Calls `String::from_utf8`. Trusted: that it succeeds exactly when the
/// bytes are valid UTF-8, and that the string then holds exactly those bytes.
#[verifier::external_body]
pub(crate) fn string_from_utf8(bytes: Vec<u8>) -> (r: Option<String>)
    ensures
        r is Some <==> valid_utf8(bytes@),
        r matches Some(s) ==> encode_utf8(s@) == bytes@,
{
    String::from_utf8(bytes).ok()
}

/// A command: its static id and its arguments.
pub struct CommandFilled(pub u16, pub Vec<CommandArgFilled>);

fn push_slice(out: &mut Vec<u8>, b: &[u8])
    ensures
        final(out)@ == old(out)@ + b@,
{
    let mut i: usize = 0;
    while i < b.len()
        invariant
            i <= b@.len(),
            out@ == old(out)@ + b@.subrange(0, i as int),
        decreases b.len() - i,
    {
        out.push(b[i]);
        i += 1;
        assert(out@ =~= old(out)@ + b@.subrange(0, i as int));
    }
    assert(b@.subrange(0, i as int) =~= b@);
}

fn read_len_prefixed(reader: &mut ByteReader) -> (r: Result<Vec<u8>, IOError>)
    ensures
        ({
            let (res, n) = spec_decode_len_prefixed(old(reader)@);
            &&& final(reader)@ == old(reader)@.subrange(n, old(reader)@.len() as int)
            &&& match res {
                Some(b) => r matches Ok(v) && v@ == b,
                None => r == Err::<Vec<u8>, IOError>(IOError::UnexpectedEof),
            }
        }),
{
    let ghost s = reader@;
    let len = reader.read_byte()?;
    let r = reader.read_exact(len as usize);
    proof {
        if s.len() >= 1 + len {
            assert(reader@ =~= s.subrange(1 + len, s.len() as int));
        } else {
            assert(reader@ =~= s.subrange(s.len() as int, s.len() as int));
        }
    }
    r
}

impl CommandArgOutline {
    /// Whether `filled` is an argument of this kind.
    pub fn matches(&self, filled: &CommandArgFilled) -> (r: bool)
        ensures
            r == (spec_outline_of(filled@) == *self),
    {
        match (self, filled) {
            (CommandArgOutline::uint32, CommandArgFilled::uint32(_)) => {},
            (CommandArgOutline::int32, CommandArgFilled::int32(_)) => {},
            (CommandArgOutline::uint16, CommandArgFilled::uint16(_)) => {},
            (CommandArgOutline::int16, CommandArgFilled::int16(_)) => {},
            (CommandArgOutline::byte, CommandArgFilled::byte(_)) => {},
            (CommandArgOutline::string, CommandArgFilled::string(_)) => {},
            (CommandArgOutline::progmem_buffer, CommandArgFilled::progmem_buffer(_)) => {},
            (CommandArgOutline::buffer, CommandArgFilled::buffer(_)) => {},
            _ => {
                return false;
            },
        }
        return true;
    }
}

impl CommandArgFilled {
    /// Appends the argument's bytes to `writer`.
    pub fn encode(&self, writer: &mut Vec<u8>)
        ensures
            final(writer)@ == old(writer)@ + spec_encode_arg(self@),
    {
        match self {
            CommandArgFilled::uint32(n) => {
                let _ = encode_int_to(*n, writer);
            },
            CommandArgFilled::int32(n) => {
                let _ = encode_int_to(*n as u32, writer);
            },
            CommandArgFilled::uint16(n) => {
                let _ = encode_int_to(*n as u32, writer);
            },
            CommandArgFilled::int16(n) => {
                let _ = encode_int_to(*n as u32, writer);
            },
            CommandArgFilled::byte(n) => {
                writer.push(*n);
                assert(writer@ =~= old(writer)@ + seq![*n]);
            },
            CommandArgFilled::string(s) => {
                let bytes = s.as_str().as_bytes();
                writer.push((bytes.len() % 256) as u8);
                push_slice(writer, bytes);
                assert(writer@ =~= old(writer)@ + spec_len_prefixed(bytes@));
            },
            CommandArgFilled::progmem_buffer(items) => {
                writer.push((items.len() % 256) as u8);
                push_slice(writer, items.as_slice());
                assert(writer@ =~= old(writer)@ + spec_len_prefixed(items@));
            },
            CommandArgFilled::buffer(items) => {
                writer.push((items.len() % 256) as u8);
                push_slice(writer, items.as_slice());
                assert(writer@ =~= old(writer)@ + spec_len_prefixed(items@));
            },
        }
    }

    /// Number of bytes `encode` appends.
    pub fn size(&self) -> (n: usize)
        requires
            spec_encode_arg(self@).len() <= usize::MAX,
        ensures
            n == spec_encode_arg(self@).len(),
    {
        match self {
            CommandArgFilled::uint32(n) => vlq_int_size(*n),
            CommandArgFilled::int32(n) => vlq_int_size(*n as u32),
            CommandArgFilled::uint16(n) => vlq_int_size(*n as u32),
            CommandArgFilled::int16(n) => vlq_int_size(*n as u32),
            CommandArgFilled::byte(_) => 1,
            CommandArgFilled::string(s) => {
                s.as_str().as_bytes().len() + 1
            },
            CommandArgFilled::progmem_buffer(items) => items.len() + 1,
            CommandArgFilled::buffer(items) => items.len() + 1,
        }
    }

    /// Reads one argument of kind `outline`.
    pub fn decode(reader: &mut ByteReader, outline: CommandArgOutline) -> (r: Result<CommandArgFilled, IOError>)
        ensures
            ({
                let (res, n) = spec_decode_arg(old(reader)@, outline);
                &&& final(reader)@ == old(reader)@.subrange(n, old(reader)@.len() as int)
                &&& match res {
                    Ok(a) => r matches Ok(v) && v@ == a,
                    Err(e) => r == Err::<CommandArgFilled, IOError>(e),
                }
            }),
    {
        match outline {
            CommandArgOutline::uint32 => {
                let v = parse_int(reader)?;
                Ok(CommandArgFilled::uint32(v))
            },
            CommandArgOutline::int32 => {
                let v = parse_int(reader)?;
                Ok(CommandArgFilled::int32(v as i32))
            },
            CommandArgOutline::uint16 => {
                let v = parse_int(reader)?;
                Ok(CommandArgFilled::uint16(v as u16))
            },
            CommandArgOutline::int16 => {
                let v = parse_int(reader)?;
                Ok(CommandArgFilled::int16(v as i16))
            },
            CommandArgOutline::byte => {
                let ghost s = reader@;
                let b = reader.read_byte()?;
                assert(reader@ =~= s.subrange(1, s.len() as int));
                Ok(CommandArgFilled::byte(b))
            },
            CommandArgOutline::string => {
                let buf = read_len_prefixed(reader)?;
                let ghost bytes = buf@;
                match string_from_utf8(buf) {
                    Some(s) => {
                        proof {
                            decode_utf8_encode_utf8(bytes);
                            encode_utf8_decode_utf8(s@);
                        }
                        Ok(CommandArgFilled::string(s))
                    },
                    None => Err(IOError::InvalidUTF8),
                }
            },
            CommandArgOutline::progmem_buffer => {
                let buf = read_len_prefixed(reader)?;
                Ok(CommandArgFilled::progmem_buffer(buf))
            },
            CommandArgOutline::buffer => {
                let buf = read_len_prefixed(reader)?;
                Ok(CommandArgFilled::buffer(buf))
            },
        }
    }
}

impl CommandFilled {
    /// Whether the arguments have, in order, the kinds in `outlines`.
    pub fn conforms(&self, outlines: &Vec<CommandArgOutline>) -> (r: bool)
        ensures
            r == (spec_outlines_of(spec_args_view(self.1@)) == outlines@),
    {
        if self.1.len() != outlines.len() {
            proof {
                if spec_outlines_of(spec_args_view(self.1@)) == outlines@ {
                    assert(spec_outlines_of(spec_args_view(self.1@)).len() == self.1@.len());
                }
            }
            return false;
        }
        let mut i: usize = 0;
        while i < self.1.len()
            invariant
                i <= self.1@.len(),
                self.1@.len() == outlines@.len(),
                forall|k: int| 0 <= k < i ==> spec_outline_of(#[trigger] self.1@[k]@) == outlines@[k],
            decreases self.1.len() - i,
        {
            if !outlines[i].matches(&self.1[i]) {
                proof {
                    if spec_outlines_of(spec_args_view(self.1@)) == outlines@ {
                        assert(spec_outlines_of(spec_args_view(self.1@))[i as int] == outlines@[i as int]);
                    }
                }
                return false;
            }
            i += 1;
        }
        assert(spec_outlines_of(spec_args_view(self.1@)) =~= outlines@);
        true
    }

    /// Appends the command, as sent to the MCU, to `writer`: the dynamic id
    /// that `dict` gives its static id, then its arguments. Fails with
    /// `UnregisteredCommand`, writing nothing, when the id is not registered.
    pub fn encode(&self, writer: &mut Vec<u8>, dict: &DictionarySend) -> (r: Result<(), IOError>)
        requires
            dict.wf(),
        ensures
            match spec_send_command_bytes(dict@, self.0, spec_args_view(self.1@)) {
                Some(bytes) => r is Ok && final(writer)@ == old(writer)@ + bytes,
                None => r == Err::<(), IOError>(IOError::UnregisteredCommand { static_id: self.0 })
                    && final(writer)@ == old(writer)@,
            },
    {
        if self.0 >= 107 {
            return Err(IOError::UnregisteredCommand { static_id: self.0 });
        }
        let dynamic_id = match dict.get_dynamic_id(self.0 as u8) {
            Some(d) => d,
            None => {
                return Err(IOError::UnregisteredCommand { static_id: self.0 });
            },
        };
        let _ = encode_int_to(dynamic_id as u32, writer);
        let ghost after_id = writer@;
        let ghost args = spec_args_view(self.1@);
        let mut i: usize = 0;
        while i < self.1.len()
            invariant
                i <= self.1@.len(),
                args == spec_args_view(self.1@),
                writer@ == after_id + spec_encode_args(args.subrange(0, i as int)),
            decreases self.1.len() - i,
        {
            self.1[i].encode(writer);
            proof {
                lemma_encode_args_push(args.subrange(0, i as int), args[i as int]);
                assert(args.subrange(0, i + 1) =~= args.subrange(0, i as int).push(args[i as int]));
            }
            i += 1;
        }
        assert(args.subrange(0, i as int) =~= args);
        Ok(())
    }

    /// The number of bytes the command takes on the wire (its id counted as
    /// zero bytes when it is not registered).
    pub fn size(&self, dict: &DictionarySend) -> (n: usize)
        requires
            dict.wf(),
            spec_command_size(dict@, self.0, spec_args_view(self.1@)) <= usize::MAX,
        ensures
            n == spec_command_size(dict@, self.0, spec_args_view(self.1@)),
    {
        let ghost args = spec_args_view(self.1@);
        let id_size: usize = if self.0 >= 107 {
            0
        } else {
            match dict.get_dynamic_id(self.0 as u8) {
                Some(d) => vlq_int_size(d as u32),
                None => 0,
            }
        };
        let mut total: usize = id_size;
        let mut i: usize = 0;
        proof { lemma_encode_args_len_monotone(args, 0); }
        while i < self.1.len()
            invariant
                i <= self.1@.len(),
                args == spec_args_view(self.1@),
                total == id_size + spec_encode_args(args.subrange(0, i as int)).len(),
                id_size + spec_encode_args(args).len() <= usize::MAX,
            decreases self.1.len() - i,
        {
            proof {
                lemma_encode_args_push(args.subrange(0, i as int), args[i as int]);
                assert(args.subrange(0, i + 1) =~= args.subrange(0, i as int).push(args[i as int]));
                lemma_encode_args_len_monotone(args, i + 1);
            }
            let sz = self.1[i].size();
            total = total + sz;
            i += 1;
        }
        assert(args.subrange(0, i as int) =~= args);
        total
    }

    /// Reads a command sent by the MCU: its dynamic id, translated by `dict`
    /// to a static receive id, then the arguments that command takes.
    pub fn decode(reader: &mut ByteReader, dict: &DictionaryRecv) -> (r: Result<CommandFilled, IOError>)
        requires
            dict.wf(),
        ensures
            ({
                let (res, n) = spec_decode_recv_command(old(reader)@, dict@);
                &&& final(reader)@ == old(reader)@.subrange(n, old(reader)@.len() as int)
                &&& match res {
                    Ok((sid, args)) => r matches Ok(c) && c.0 == sid && spec_args_view(c.1@) == args,
                    Err(e) => r == Err::<CommandFilled, IOError>(e),
                }
            }),
    {
        let ghost s = reader@;
        proof { lemma_parse_int_len(s); }
        let raw = parse_int(reader)?;
        let id = raw as i16;
        let static_id = match dict.get_static_id(id) {
            Some(sid) => sid,
            None => {
                return Err(IOError::UnregisteredCommandId { id });
            },
        };
        if static_id as usize >= RECV_COMMAND_COUNT {
            return Err(IOError::UnknownVariant { id });
        }
        let outlines = recv_command_args(static_id as u16);
        let ghost rest0 = reader@;
        proof {
            assert(outlines@.subrange(0, outlines@.len() as int) =~= outlines@);
        }
        let args_r = decode_args_from(reader, &outlines, 0);
        let args = match args_r {
            Ok(a) => a,
            Err(e) => {
                proof {
                    lemma_decode_args_len(rest0, outlines@);
                    let m = spec_decode_args(rest0, outlines@).1;
                    assert(reader@ =~= s.subrange(s.len() - rest0.len() + m, s.len() as int));
                }
                return Err(e);
            },
        };
        proof {
            lemma_decode_args_len(rest0, outlines@);
            let m = spec_decode_args(rest0, outlines@).1;
            assert(reader@ =~= s.subrange(s.len() - rest0.len() + m, s.len() as int));
        }
        Ok(CommandFilled(static_id as u16, args))
    }
}

/// Decoding an argument consumes no more bytes than there are.
pub proof fn lemma_decode_arg_len(s: Seq<u8>, outline: CommandArgOutline)
    ensures
        0 <= spec_decode_arg(s, outline).1 <= s.len(),
{
    lemma_parse_int_len(s);
}

/// Decoding arguments consumes no more bytes than there are.
pub proof fn lemma_decode_args_len(s: Seq<u8>, outlines: Seq<CommandArgOutline>)
    ensures
        0 <= spec_decode_args(s, outlines).1 <= s.len(),
    decreases outlines.len(),
{
    if outlines.len() > 0 {
        lemma_decode_arg_len(s, outlines[0]);
        let n = spec_decode_arg(s, outlines[0]).1;
        lemma_decode_args_len(s.subrange(n, s.len() as int), outlines.drop_first());
    }
}

/// Decoding a received command consumes no more bytes than there are.
pub proof fn lemma_decode_recv_command_len(s: Seq<u8>, t: Seq<u8>)
    ensures
        0 <= spec_decode_recv_command(s, t).1 <= s.len(),
{
    lemma_parse_int_len(s);
    if let Some((raw, n)) = spec_parse_int(s) {
        lemma_decode_args_len(s.subrange(n, s.len() as int), spec_recv_args(spec_static_id(t, (raw as i16) as int)->Some_0 as int));
    }
}

/// Reads arguments of the kinds `outlines[i..]`, in order.
fn decode_args_from(reader: &mut ByteReader, outlines: &Vec<CommandArgOutline>, i: usize) -> (r: Result<Vec<CommandArgFilled>, IOError>)
    requires
        i <= outlines@.len(),
    ensures
        ({
            let (res, n) = spec_decode_args(old(reader)@, outlines@.subrange(i as int, outlines@.len() as int));
            &&& final(reader)@ == old(reader)@.subrange(n, old(reader)@.len() as int)
            &&& match res {
                Ok(a) => r matches Ok(v) && spec_args_view(v@) == a,
                Err(e) => r == Err::<Vec<CommandArgFilled>, IOError>(e),
            }
        }),
    decreases outlines@.len() - i,
{
    let ghost s = reader@;
    let ghost sub = outlines@.subrange(i as int, outlines@.len() as int);
    if i >= outlines.len() {
        assert(reader@ =~= s.subrange(0, s.len() as int));
        let v: Vec<CommandArgFilled> = Vec::new();
        assert(spec_args_view(v@) =~= Seq::<ArgValue>::empty());
        assert(sub =~= Seq::<CommandArgOutline>::empty());
        return Ok(v);
    }
    assert(sub[0] == outlines@[i as int]);
    assert(sub.drop_first() =~= outlines@.subrange(i + 1, outlines@.len() as int));
    proof { lemma_decode_arg_len(s, outlines@[i as int]); }
    let a = CommandArgFilled::decode(reader, outlines[i])?;
    let ghost n = spec_decode_arg(s, outlines@[i as int]).1;
    let ghost mid = reader@;
    proof { lemma_decode_args_len(mid, sub.drop_first()); }
    let tail_r = decode_args_from(reader, outlines, i + 1);
    let mut tail = match tail_r {
        Ok(t) => t,
        Err(e) => {
            proof {
                let m = spec_decode_args(mid, sub.drop_first()).1;
                assert(reader@ =~= s.subrange(n + m, s.len() as int));
            }
            return Err(e);
        },
    };
    let ghost old_tail = tail@;
    tail.insert(0, a);
    proof {
        let m = spec_decode_args(mid, sub.drop_first()).1;
        assert(reader@ =~= s.subrange(n + m, s.len() as int));
        assert(spec_args_view(tail@) =~= seq![a@] + spec_args_view(old_tail));
    }
    Ok(tail)
}

/// Encoding a list with one more argument appends that argument's bytes.
pub proof fn lemma_encode_args_push(args: Seq<ArgValue>, a: ArgValue)
    ensures
        spec_encode_args(args.push(a)) == spec_encode_args(args) + spec_encode_arg(a),
    decreases args.len(),
{
    if args.len() == 0 {
        assert(args.push(a).drop_first() =~= Seq::<ArgValue>::empty());
        assert(spec_encode_args(Seq::<ArgValue>::empty()) == Seq::<u8>::empty());
        assert(args.push(a)[0] == a);
        assert(spec_encode_args(args.push(a)) =~= spec_encode_arg(a));
    } else {
        assert(args.push(a).drop_first() =~= args.drop_first().push(a));
        lemma_encode_args_push(args.drop_first(), a);
        assert(spec_encode_args(args.push(a)) =~= spec_encode_args(args) + spec_encode_arg(a));
    }
}

/// A prefix of a list of arguments encodes to no more bytes than the list.
pub proof fn lemma_encode_args_len_monotone(args: Seq<ArgValue>, i: int)
    requires
        0 <= i <= args.len(),
    ensures
        spec_encode_args(args.subrange(0, i)).len() <= spec_encode_args(args).len(),
    decreases args.len() - i,
{
    if i < args.len() {
        lemma_encode_args_len_monotone(args, i + 1);
        lemma_encode_args_push(args.subrange(0, i), args[i]);
        assert(args.subrange(0, i + 1) =~= args.subrange(0, i).push(args[i]));
    } else {
        assert(args.subrange(0, i) =~= args);
    }
}

/// An argument decodes, as its own kind, from its own encoding to itself,
/// whatever follows, when its string or buffer fits the length byte.
pub proof fn lemma_arg_roundtrip(a: ArgValue, rest: Seq<u8>)
    requires
        spec_arg_is_short(a),
    ensures
        spec_decode_arg(spec_encode_arg(a) + rest, spec_outline_of(a)) == (
            Ok::<ArgValue, IOError>(a),
            spec_encode_arg(a).len() as int,
        ),
{
    let e = spec_encode_arg(a);
    let s = e + rest;
    match a {
        ArgValue::Uint32(n) => {
            lemma_parse_encode_int(n, rest);
        },
        ArgValue::Int32(n) => {
            lemma_parse_encode_int(n as u32, rest);
            assert((n as u32) as i32 == n) by (bit_vector);
        },
        ArgValue::Uint16(n) => {
            lemma_parse_encode_int(n as u32, rest);
            assert((n as u32) as u16 == n) by (bit_vector);
        },
        ArgValue::Int16(n) => {
            lemma_parse_encode_int(n as u32, rest);
            assert((n as u32) as i16 == n) by (bit_vector);
        },
        ArgValue::Byte(n) => {
            assert(s[0] == n);
        },
        ArgValue::Str(st) => {
            let b = encode_utf8(st);
            assert(s[0] == (b.len() % 256) as u8);
            assert(s.subrange(1, 1 + b.len() as int) =~= b);
            encode_utf8_valid_utf8(st);
            encode_utf8_decode_utf8(st);
        },
        ArgValue::Progmem(b) => {
            assert(s[0] == (b.len() % 256) as u8);
            assert(s.subrange(1, 1 + b.len() as int) =~= b);
        },
        ArgValue::Buffer(b) => {
            assert(s[0] == (b.len() % 256) as u8);
            assert(s.subrange(1, 1 + b.len() as int) =~= b);
        },
    }
}

/// A list of arguments decodes, with their own kinds, from its encoding to
/// itself, whatever follows, when every string and buffer fits its length byte.
pub proof fn lemma_args_roundtrip(args: Seq<ArgValue>, rest: Seq<u8>)
    requires
        forall|k: int| 0 <= k < args.len() ==> spec_arg_is_short(#[trigger] args[k]),
    ensures
        spec_decode_args(spec_encode_args(args) + rest, spec_outlines_of(args)) == (
            Ok::<Seq<ArgValue>, IOError>(args),
            spec_encode_args(args).len() as int,
        ),
    decreases args.len(),
{
    if args.len() == 0 {
        assert(spec_outlines_of(args) =~= Seq::<CommandArgOutline>::empty());
        assert(args =~= Seq::<ArgValue>::empty());
    } else {
        let a = args[0];
        let tail = args.drop_first();
        let os = spec_outlines_of(args);
        assert(os.len() == args.len());
        let s = spec_encode_args(args) + rest;
        let rest1 = spec_encode_args(tail) + rest;
        assert(s =~= spec_encode_arg(a) + rest1);
        lemma_arg_roundtrip(a, rest1);
        assert(forall|k: int| 0 <= k < tail.len() ==> #[trigger] tail[k] == args[k + 1]);
        lemma_args_roundtrip(tail, rest);
        let n = spec_encode_arg(a).len() as int;
        assert(s.subrange(n, s.len() as int) =~= rest1);
        assert(os[0] == spec_outline_of(a));
        assert(os.drop_first() =~= spec_outlines_of(tail));
        assert(spec_decode_arg(s, os[0]) == (Ok::<ArgValue, IOError>(a), n));
        assert(spec_decode_args(rest1, os.drop_first()) == (
            Ok::<Seq<ArgValue>, IOError>(tail), spec_encode_args(tail).len() as int));
        assert(seq![a] + tail =~= args);
        assert(spec_encode_args(args) == spec_encode_arg(a) + spec_encode_args(tail));
        assert(spec_decode_args(s, os) == (
            Ok::<Seq<ArgValue>, IOError>(seq![a] + tail), n + spec_encode_args(tail).len()));
    }
}

/// What the MCU sends is what the host reads: a received command, encoded as
/// its dynamic id followed by values of the kinds declared for it, decodes
/// through a table that maps that dynamic id to the command's static id to
/// that static id and those very values, whatever follows, consuming exactly
/// its bytes (strings and buffers fitting their length byte).
pub proof fn lemma_recv_command_roundtrip(t: Seq<u8>, dynamic_id: i16, static_id: u8, args: Seq<ArgValue>, rest: Seq<u8>)
    requires
        spec_static_id(t, dynamic_id as int) == Some(static_id),
        spec_recv_signature(static_id as int) matches Some((_, kinds)) && kinds == spec_outlines_of(args),
        forall|k: int| 0 <= k < args.len() ==> spec_arg_is_short(#[trigger] args[k]),
    ensures
        spec_decode_recv_command(spec_encode_command(dynamic_id, args) + rest, t) == (
            Ok::<(u16, Seq<ArgValue>), IOError>((static_id as u16, args)),
            spec_encode_command(dynamic_id, args).len() as int,
        ),
{
    lemma_recv_tables_agree();
    assert(spec_recv_signature(static_id as int) is Some);
    assert(static_id < RECV_COMMAND_COUNT);
    assert(spec_recv_args(static_id as int) == spec_outlines_of(args));
    let e = spec_encode_int(dynamic_id as u32);
    let a = spec_encode_args(args);
    let s = spec_encode_command(dynamic_id, args) + rest;
    assert(s =~= e + (a + rest));
    lemma_parse_encode_int(dynamic_id as u32, a + rest);
    assert(((dynamic_id as u32) as i16) == dynamic_id) by (bit_vector);
    assert(s.subrange(e.len() as int, s.len() as int) =~= a + rest);
    lemma_args_roundtrip(args, rest);
}

} // verus!
