//! Klipper's "variable length quantity" integer encoding and its two-byte
//! message id encoding.
use vstd::prelude::*;
use crate::error::IOError;
use crate::reader::ByteReader;

verus! {

/// Signed value (as `v as i32`) lies in `[-(1 << 5), 3 << 5)`.
pub open spec fn fits_vlq1(v: u32) -> bool {
    v < 0x60 || v >= 0xffff_ffe0
}

/// Signed value lies in `[-(1 << 12), 3 << 12)`.
pub open spec fn fits_vlq2(v: u32) -> bool {
    v < 0x3000 || v >= 0xffff_f000
}

/// Signed value lies in `[-(1 << 19), 3 << 19)`.
pub open spec fn fits_vlq3(v: u32) -> bool {
    v < 0x18_0000 || v >= 0xfff8_0000
}

/// Signed value lies in `[-(1 << 26), 3 << 26)`.
pub open spec fn fits_vlq4(v: u32) -> bool {
    v < 0x0c00_0000 || v >= 0xfc00_0000
}

/// Final byte of an encoding: the low seven bits, continuation bit clear.
pub open spec fn vlq_last(v: u32) -> u8 {
    (v & 0x7f) as u8
}

/// A leading byte: seven bits of `v >> shift`, continuation bit set.
pub open spec fn vlq_lead(v: u32, shift: u32) -> u8 {
    (((v >> shift) & 0x7f) as u8) | 0x80
}

/// The bytes that encode `v`.
pub open spec fn spec_encode_int(v: u32) -> Seq<u8> {
    if fits_vlq1(v) {
        seq![vlq_last(v)]
    } else if fits_vlq2(v) {
        seq![vlq_lead(v, 7), vlq_last(v)]
    } else if fits_vlq3(v) {
        seq![vlq_lead(v, 14), vlq_lead(v, 7), vlq_last(v)]
    } else if fits_vlq4(v) {
        seq![vlq_lead(v, 21), vlq_lead(v, 14), vlq_lead(v, 7), vlq_last(v)]
    } else {
        seq![vlq_lead(v, 28), vlq_lead(v, 21), vlq_lead(v, 14), vlq_lead(v, 7), vlq_last(v)]
    }
}

/// Value contributed by the first byte, sign-extended when bits 5 and 6 are set.
pub open spec fn vlq_first(c: u8) -> u32 {
    if (c & 0x60) == 0x60 {
        ((c & 0x7f) as u32) | 0xffff_ffe0
    } else {
        (c & 0x7f) as u32
    }
}

/// Appends the seven data bits of `c` to the accumulated value.
pub open spec fn vlq_step(acc: u32, c: u8) -> u32 {
    (acc << 7u32) | ((c & 0x7f) as u32)
}

/// Continues decoding at index `i`, the byte before having had its
/// continuation bit set. Yields the value and the index after the last byte.
pub open spec fn vlq_more(s: Seq<u8>, acc: u32, i: int) -> Option<(u32, int)>
    decreases s.len() - i,
{
    if i < 0 || i >= s.len() {
        None
    } else {
        let c = s[i];
        let nv = vlq_step(acc, c);
        if c & 0x80 != 0 {
            vlq_more(s, nv, i + 1)
        } else {
            Some((nv, i + 1))
        }
    }
}

/// Decodes the integer at the front of `s`: the value and the number of
/// bytes it takes, or `None` when `s` ends before the encoding does.
pub open spec fn spec_parse_int(s: Seq<u8>) -> Option<(u32, int)> {
    if s.len() == 0 {
        None
    } else {
        let c = s[0];
        if c & 0x80 != 0 {
            vlq_more(s, vlq_first(c), 1)
        } else {
            Some((vlq_first(c), 1))
        }
    }
}

/// The bytes that encode a message id.
pub open spec fn spec_encode_msgid(id: i16) -> Seq<u8> {
    let v = id as u16;
    if v >= 0x80 {
        seq![(((v >> 7u16) & 0x7f) as u8) | 0x80, (v & 0x7f) as u8]
    } else {
        seq![(v & 0x7f) as u8]
    }
}

/// Decodes the message id at the front of `s` and the number of bytes it takes.
pub open spec fn spec_parse_msgid(s: Seq<u8>) -> Option<(i16, int)> {
    if s.len() == 0 {
        None
    } else if s[0] & 0x80 != 0 {
        if s.len() < 2 {
            None
        } else {
            Some((((((s[0] as u16) & 0x7f) << 7u16) | (s[1] as u16)) as i16, 2))
        }
    } else {
        Some(((s[0] as u16) as i16, 1))
    }
}

/// Encodes `v` and appends it to `writer`.
pub fn encode_int_to(v: u32, writer: &mut Vec<u8>) -> (r: Result<(), IOError>)
    ensures
        r is Ok,
        final(writer)@ == old(writer)@ + spec_encode_int(v),
{
    let bytes = encode_int(v);
    let ghost before = writer@;
    let mut i: usize = 0;
    while i < bytes.len()
        invariant
            i <= bytes@.len(),
            bytes@ == spec_encode_int(v),
            writer@ == before + bytes@.subrange(0, i as int),
        decreases bytes.len() - i,
    {
        writer.push(bytes[i]);
        i += 1;
        assert(writer@ =~= before + bytes@.subrange(0, i as int));
    }
    assert(bytes@.subrange(0, bytes@.len() as int) =~= bytes@);
    Ok(())
}

/// Encodes `v` as a variable length quantity of one to five bytes.
pub fn encode_int(v: u32) -> (buf: Vec<u8>)
    ensures
        buf@ == spec_encode_int(v),
{
    let mut buf: Vec<u8> = Vec::with_capacity(5);
    if v < 0x60 || v >= 0xffff_ffe0 {
        buf.push((v & 0x7f) as u8);
        assert(buf@ =~= spec_encode_int(v));
        return buf;
    }
    if v < 0x3000 || v >= 0xffff_f000 {
        buf.push(((v >> 7) & 0x7f) as u8 | 0x80);
        buf.push((v & 0x7f) as u8);
        assert(buf@ =~= spec_encode_int(v));
        return buf;
    }
    if v < 0x18_0000 || v >= 0xfff8_0000 {
        buf.push(((v >> 14) & 0x7f) as u8 | 0x80);
        buf.push(((v >> 7) & 0x7f) as u8 | 0x80);
        buf.push((v & 0x7f) as u8);
        assert(buf@ =~= spec_encode_int(v));
        return buf;
    }
    if v < 0x0c00_0000 || v >= 0xfc00_0000 {
        buf.push(((v >> 21) & 0x7f) as u8 | 0x80);
        buf.push(((v >> 14) & 0x7f) as u8 | 0x80);
        buf.push(((v >> 7) & 0x7f) as u8 | 0x80);
        buf.push((v & 0x7f) as u8);
        assert(buf@ =~= spec_encode_int(v));
        return buf;
    }
    buf.push(((v >> 28) & 0x7f) as u8 | 0x80);
    buf.push(((v >> 21) & 0x7f) as u8 | 0x80);
    buf.push(((v >> 14) & 0x7f) as u8 | 0x80);
    buf.push(((v >> 7) & 0x7f) as u8 | 0x80);
    buf.push((v & 0x7f) as u8);
    assert(buf@ =~= spec_encode_int(v));
    buf
}

/// Number of bytes that `encode_int(v)` produces.
pub fn vlq_int_size(v: u32) -> (n: usize)
    ensures
        n == spec_encode_int(v).len(),
{
    if v < 0x60 || v >= 0xffff_ffe0 {
        1
    } else if v < 0x3000 || v >= 0xffff_f000 {
        2
    } else if v < 0x18_0000 || v >= 0xfff8_0000 {
        3
    } else if v < 0x0c00_0000 || v >= 0xfc00_0000 {
        4
    } else {
        5
    }
}

/// Decodes one variable length quantity from the reader. When the input ends
/// first, everything left has been consumed and `UnexpectedEof` is returned.
pub fn parse_int(reader: &mut ByteReader) -> (r: Result<u32, IOError>)
    ensures
        match spec_parse_int(old(reader)@) {
            Some((v, n)) => r == Ok::<u32, IOError>(v)
                && final(reader)@ == old(reader)@.subrange(n, old(reader)@.len() as int),
            None => r == Err::<u32, IOError>(IOError::UnexpectedEof) && final(reader)@.len() == 0,
        },
{
    let ghost s = reader@;
    let mut c = reader.read_byte()?;
    let mut v: u32 = (c & 0x7f) as u32;
    if (c & 0x60) == 0x60 {
        v = v | 0xffff_ffe0;
    }
    let ghost mut i: int = 1;
    assert(v == vlq_first(c));
    assert(reader@ =~= s.subrange(1, s.len() as int));
    while c & 0x80 != 0
        invariant
            1 <= i <= s.len(),
            s == old(reader)@,
            reader@ == s.subrange(i, s.len() as int),
            spec_parse_int(s) == (if c & 0x80 != 0 { vlq_more(s, v, i) } else { Some((v, i)) }),
        decreases reader@.len(),
    {
        let ghost old_v = v;
        let ghost prev = reader@;
        let r = reader.read_byte();
        match r {
            Err(e) => {
                assert(i == s.len());
                assert(vlq_more(s, v, i) is None);
                assert(spec_parse_int(s) is None);
                assert(e == IOError::UnexpectedEof);
                assert(reader@.len() == 0);
                return Err(e);
            },
            Ok(b) => {
                c = b;
                assert(c == s[i]);
                v = (v << 7) | (c & 0x7f) as u32;
                assert(v == vlq_step(old_v, c));
                proof {
                    i = i + 1;
                    assert(reader@ =~= s.subrange(i, s.len() as int));
                }
            },
        }
    }
    Ok(v)
}

/// Encodes a message id (up to 14 significant bits) and appends it to `writer`.
pub fn encode_msgid_to(encoded_msgid: i16, writer: &mut Vec<u8>) -> (r: Result<(), IOError>)
    ensures
        r is Ok,
        final(writer)@ == old(writer)@ + spec_encode_msgid(encoded_msgid),
{
    let v = encoded_msgid as u16;
    let ghost before = writer@;
    if v >= 0x80 {
        writer.push(((v >> 7) & 0x7f) as u8 | 0x80);
    }
    writer.push((v & 0x7f) as u8);
    assert(writer@ =~= before + spec_encode_msgid(encoded_msgid));
    Ok(())
}

/// Encodes a message id as one or two bytes.
pub fn encode_msgid(encoded_msgid: i16) -> (buf: Vec<u8>)
    ensures
        buf@ == spec_encode_msgid(encoded_msgid),
{
    let v = encoded_msgid as u16;
    let mut buf: Vec<u8> = Vec::with_capacity(2);
    if v >= 0x80 {
        buf.push(((v >> 7) & 0x7f) as u8 | 0x80);
    }
    buf.push((v & 0x7f) as u8);
    assert(buf@ =~= spec_encode_msgid(encoded_msgid));
    buf
}

/// Decodes a message id from the reader. When the input ends first,
/// everything left has been consumed and `UnexpectedEof` is returned.
pub fn parse_msgid(reader: &mut ByteReader) -> (r: Result<i16, IOError>)
    ensures
        match spec_parse_msgid(old(reader)@) {
            Some((id, n)) => r == Ok::<i16, IOError>(id)
                && final(reader)@ == old(reader)@.subrange(n, old(reader)@.len() as int),
            None => r == Err::<i16, IOError>(IOError::UnexpectedEof) && final(reader)@.len() == 0,
        },
{
    let ghost s = reader@;
    let first = reader.read_byte()?;
    let mut msgid = first as u16;
    if first & 0x80 != 0 {
        let second = reader.read_byte()?;
        msgid = ((first as u16 & 0x7f) << 7) | second as u16;
        assert(reader@ =~= s.subrange(2, s.len() as int));
    }
    Ok(msgid as i16)
}

proof fn lemma_bv_one(v: u32)
    by (bit_vector)
    requires
        v < 0x60 || v >= 0xffff_ffe0,
    ensures
        ((v & 0x7f) as u8) & 0x80 == 0,
        (if (((v & 0x7f) as u8) & 0x60) == 0x60 {
            ((((v & 0x7f) as u8) & 0x7f) as u32) | 0xffff_ffe0
        } else {
            (((v & 0x7f) as u8) & 0x7f) as u32
        }) == v,
{
}

proof fn lemma_bv_lead(v: u32, s: u32)
    by (bit_vector)
    requires
        s < 32,
    ensures
        ((((v >> s) & 0x7f) as u8) | 0x80) & 0x80 != 0,
        ((((v >> s) & 0x7f) as u8) | 0x80) & 0x7f == ((v >> s) & 0x7f) as u8,
        (((((v >> s) & 0x7f) as u8) | 0x80) & 0x7f) as u32 == (v >> s) & 0x7f,
        (v & 0x7f) as u8 & 0x80 == 0,
        (((v & 0x7f) as u8) & 0x7f) as u32 == v & 0x7f,
{
}

proof fn lemma_bv_two(v: u32, hi: u32)
    by (bit_vector)
    requires
        v < 0x3000 || v >= 0xffff_f000,
        !(v < 0x60 || v >= 0xffff_ffe0),
        hi == (if (((((v >> 7) & 0x7f) as u8) | 0x80) & 0x60) == 0x60 {
            ((((((v >> 7) & 0x7f) as u8) | 0x80) & 0x7f) as u32) | 0xffff_ffe0
        } else {
            ((((((v >> 7) & 0x7f) as u8) | 0x80) & 0x7f) as u32)
        }),
    ensures
        (hi << 7) | (v & 0x7f) == v,
{
}

proof fn lemma_bv_three(v: u32, hi: u32)
    by (bit_vector)
    requires
        v < 0x18_0000 || v >= 0xfff8_0000,
        !(v < 0x3000 || v >= 0xffff_f000),
        hi == (if (((((v >> 14) & 0x7f) as u8) | 0x80) & 0x60) == 0x60 {
            ((((((v >> 14) & 0x7f) as u8) | 0x80) & 0x7f) as u32) | 0xffff_ffe0
        } else {
            ((((((v >> 14) & 0x7f) as u8) | 0x80) & 0x7f) as u32)
        }),
    ensures
        (((hi << 7) | ((v >> 7) & 0x7f)) << 7) | (v & 0x7f) == v,
{
}

proof fn lemma_bv_four(v: u32, hi: u32)
    by (bit_vector)
    requires
        v < 0x0c00_0000 || v >= 0xfc00_0000,
        !(v < 0x18_0000 || v >= 0xfff8_0000),
        hi == (if (((((v >> 21) & 0x7f) as u8) | 0x80) & 0x60) == 0x60 {
            ((((((v >> 21) & 0x7f) as u8) | 0x80) & 0x7f) as u32) | 0xffff_ffe0
        } else {
            ((((((v >> 21) & 0x7f) as u8) | 0x80) & 0x7f) as u32)
        }),
    ensures
        (((((hi << 7) | ((v >> 14) & 0x7f)) << 7) | ((v >> 7) & 0x7f)) << 7) | (v & 0x7f) == v,
{
}

proof fn lemma_bv_five(v: u32, hi: u32)
    by (bit_vector)
    requires
        !(v < 0x0c00_0000 || v >= 0xfc00_0000),
        hi == (if (((((v >> 28) & 0x7f) as u8) | 0x80) & 0x60) == 0x60 {
            ((((((v >> 28) & 0x7f) as u8) | 0x80) & 0x7f) as u32) | 0xffff_ffe0
        } else {
            ((((((v >> 28) & 0x7f) as u8) | 0x80) & 0x7f) as u32)
        }),
    ensures
        (((((((hi << 7) | ((v >> 21) & 0x7f)) << 7) | ((v >> 14) & 0x7f)) << 7) | ((v >> 7) & 0x7f)) << 7)
            | (v & 0x7f) == v,
{
}

proof fn lemma_vlq_more_len(s: Seq<u8>, acc: u32, i: int)
    ensures
        vlq_more(s, acc, i) matches Some((v, n)) ==> i < n <= s.len(),
    decreases s.len() - i,
{
    if i >= 0 && i < s.len() {
        let c = s[i];
        if c & 0x80 != 0 {
            lemma_vlq_more_len(s, vlq_step(acc, c), i + 1);
        }
    }
}

/// A decoded integer takes at least one byte and no more than there are.
pub proof fn lemma_parse_int_len(s: Seq<u8>)
    ensures
        spec_parse_int(s) matches Some((v, n)) ==> 1 <= n <= s.len(),
{
    if s.len() > 0 && s[0] & 0x80 != 0 {
        lemma_vlq_more_len(s, vlq_first(s[0]), 1);
    }
}

/// Decoding the encoding of any 32-bit value gives the value back, whatever
/// bytes follow it, and consumes exactly the encoded bytes.
pub proof fn lemma_parse_encode_int(v: u32, rest: Seq<u8>)
    ensures
        spec_parse_int(spec_encode_int(v) + rest) == Some((v, spec_encode_int(v).len() as int)),
{
    let e = spec_encode_int(v);
    let s = e + rest;
    lemma_bv_lead(v, 7);
    lemma_bv_lead(v, 14);
    lemma_bv_lead(v, 21);
    lemma_bv_lead(v, 28);
    if fits_vlq1(v) {
        lemma_bv_one(v);
        assert(s[0] == vlq_last(v));
    } else if fits_vlq2(v) {
        let c0 = vlq_lead(v, 7);
        assert(s[0] == c0 && s[1] == vlq_last(v));
        let hi = vlq_first(c0);
        lemma_bv_two(v, hi);
        assert(spec_parse_int(s) == vlq_more(s, hi, 1));
        assert(vlq_step(hi, s[1]) == v);
        assert(vlq_more(s, hi, 1) == Some((v, 2int)));
    } else if fits_vlq3(v) {
        let c0 = vlq_lead(v, 14);
        assert(s[0] == c0 && s[1] == vlq_lead(v, 7) && s[2] == vlq_last(v));
        let hi = vlq_first(c0);
        lemma_bv_three(v, hi);
        let a1 = vlq_step(hi, s[1]);
        assert(a1 == (hi << 7) | ((v >> 7) & 0x7f));
        assert(vlq_step(a1, s[2]) == v);
        assert(vlq_more(s, a1, 2) == Some((v, 3int)));
        assert(vlq_more(s, hi, 1) == Some((v, 3int)));
    } else if fits_vlq4(v) {
        let c0 = vlq_lead(v, 21);
        assert(s[0] == c0 && s[1] == vlq_lead(v, 14) && s[2] == vlq_lead(v, 7) && s[3] == vlq_last(v));
        let hi = vlq_first(c0);
        lemma_bv_four(v, hi);
        let a1 = vlq_step(hi, s[1]);
        let a2 = vlq_step(a1, s[2]);
        assert(a1 == (hi << 7) | ((v >> 14) & 0x7f));
        assert(a2 == (a1 << 7) | ((v >> 7) & 0x7f));
        assert(vlq_step(a2, s[3]) == v);
        assert(vlq_more(s, a2, 3) == Some((v, 4int)));
        assert(vlq_more(s, a1, 2) == Some((v, 4int)));
        assert(vlq_more(s, hi, 1) == Some((v, 4int)));
    } else {
        let c0 = vlq_lead(v, 28);
        assert(s[0] == c0 && s[1] == vlq_lead(v, 21) && s[2] == vlq_lead(v, 14) && s[3] == vlq_lead(v, 7)
            && s[4] == vlq_last(v));
        let hi = vlq_first(c0);
        lemma_bv_five(v, hi);
        let a1 = vlq_step(hi, s[1]);
        let a2 = vlq_step(a1, s[2]);
        let a3 = vlq_step(a2, s[3]);
        assert(a1 == (hi << 7) | ((v >> 21) & 0x7f));
        assert(a2 == (a1 << 7) | ((v >> 14) & 0x7f));
        assert(a3 == (a2 << 7) | ((v >> 7) & 0x7f));
        assert(vlq_step(a3, s[4]) == v);
        assert(vlq_more(s, a3, 4) == Some((v, 5int)));
        assert(vlq_more(s, a2, 3) == Some((v, 5int)));
        assert(vlq_more(s, a1, 2) == Some((v, 5int)));
        assert(vlq_more(s, hi, 1) == Some((v, 5int)));
    }
}

/// Message ids from 0 to 0x3fff decode to themselves, whatever follows them.
pub proof fn lemma_parse_encode_msgid(id: i16, rest: Seq<u8>)
    requires
        0 <= id < 0x4000,
    ensures
        spec_parse_msgid(spec_encode_msgid(id) + rest) == Some((id, spec_encode_msgid(id).len() as int)),
{
    let v = id as u16;
    let s = spec_encode_msgid(id) + rest;
    assert(v == id);
    if v >= 0x80 {
        assert(s[0] == (((v >> 7u16) & 0x7f) as u8) | 0x80);
        assert(s[1] == (v & 0x7f) as u8);
        assert(((((((v >> 7u16) & 0x7f) as u8) | 0x80) as u16) & 0x7f) << 7u16 | (((v & 0x7f) as u8) as u16) == v
            && (((((v >> 7u16) & 0x7f) as u8) | 0x80) & 0x80 != 0)) by (bit_vector)
            requires v < 0x4000;
    } else {
        assert(s[0] == (v & 0x7f) as u8);
        assert((((v & 0x7f) as u8) as u16) == v && ((v & 0x7f) as u8) & 0x80 == 0) by (bit_vector)
            requires v < 0x80;
    }
}

} // verus!
