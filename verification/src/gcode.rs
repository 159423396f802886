//! Parsing single G-code lines such as `G1 X10 Y20 ; move` into a command
//! word and `(letter, value)` parameters, and decoding the parameters of
//! the commands whose parameters are integers or flags.
use vstd::prelude::*;
use vstd::string::*;
use crate::strutil::{
    str_eq,
    is_whitespace, lemma_skip_ws_bounds, lemma_token_end_bounds, skip_ws, spec_is_ascii_alphabetic,
    spec_is_whitespace, spec_skip_ws, spec_to_ascii_lowercase, spec_to_ascii_uppercase,
    to_ascii_lowercase, to_ascii_uppercase, token_end, spec_trim, trim,
    spec_find_char, find_char, lemma_find_char_bounds, lemma_find_char_push, lemma_skip_ws_push,
    lemma_token_end_push, spec_token_end,
};

verus! {

/// Why a line could not be decoded.
#[derive(Debug, Clone, PartialEq)]
pub enum Error {
    /// The line was empty or only whitespace.
    BlankLine,
    /// The line held nothing but a comment.
    CommentOnly,
    /// The command word did not match; carries the word.
    UnknownCommand(String),
    /// A parameter letter the target does not know (for targets that refuse them).
    UnknownField(String),
    /// A parameter token that does not start with a letter.
    MalformedToken(String),
    /// A parameter value that is not of the expected type.
    InvalidValue { value: String, expected: &'static str },
    /// Ran out of tokens where a value was expected.
    Eof,
    /// Any other message, such as a parameter given twice.
    Message(String),
}

/// The mathematical value of an `Error`.
pub enum ErrorView {
    BlankLine,
    CommentOnly,
    UnknownCommand(Seq<char>),
    UnknownField(Seq<char>),
    MalformedToken(Seq<char>),
    InvalidValue { value: Seq<char>, expected: Seq<char> },
    Eof,
    Message(Seq<char>),
}

impl View for Error {
    type V = ErrorView;

    open spec fn view(&self) -> ErrorView {
        match self {
            Error::BlankLine => ErrorView::BlankLine,
            Error::CommentOnly => ErrorView::CommentOnly,
            Error::UnknownCommand(s) => ErrorView::UnknownCommand(s@),
            Error::UnknownField(s) => ErrorView::UnknownField(s@),
            Error::MalformedToken(s) => ErrorView::MalformedToken(s@),
            Error::InvalidValue { value, expected } => ErrorView::InvalidValue { value: value@, expected: expected@ },
            Error::Eof => ErrorView::Eof,
            Error::Message(s) => ErrorView::Message(s@),
        }
    }
}

/// The whitespace-separated tokens of `s` from index `i` on.
pub open spec fn spec_tokens_from(s: Seq<char>, i: int) -> Seq<Seq<char>>
    decreases s.len() - i,
{
    if i < 0 || i >= s.len() {
        Seq::empty()
    } else {
        let b = spec_skip_ws(s, i);
        if b >= s.len() {
            Seq::empty()
        } else {
            let e = spec_token_end_from(s, b);
            if e <= i || e > s.len() {
                Seq::empty()
            } else {
                seq![s.subrange(b, e)] + spec_tokens_from(s, e)
            }
        }
    }
}

/// Same as `spec_token_end`, named here for the token recursion.
pub open spec fn spec_token_end_from(s: Seq<char>, i: int) -> int {
    crate::strutil::spec_token_end(s, i)
}

/// The parameters that the tokens after the command word describe: each
/// token must start with an ASCII letter; the letter (upper-cased) and the
/// rest of the token form a parameter. The first malformed token is the error.
pub open spec fn spec_fields(toks: Seq<Seq<char>>) -> Result<Seq<(char, Seq<char>)>, ErrorView>
    decreases toks.len(),
{
    if toks.len() == 0 {
        Ok(Seq::empty())
    } else {
        let tok = toks[0];
        if tok.len() == 0 || !spec_is_ascii_alphabetic(tok[0]) {
            Err(ErrorView::MalformedToken(tok))
        } else {
            match spec_fields(toks.drop_first()) {
                Ok(f) => Ok(seq![(spec_to_ascii_uppercase(tok[0]), tok.drop_first())] + f),
                Err(e) => Err(e),
            }
        }
    }
}

/// What parsing a line yields: the command word and the parameters.
/// Everything from the first `;` on is a comment.
pub open spec fn spec_parse_line(line: Seq<char>) -> Result<(Seq<char>, Seq<(char, Seq<char>)>), ErrorView> {
    let cut = spec_find_char(line, ';', 0);
    let code = line.subrange(0, cut);
    let toks = spec_tokens_from(code, 0);
    if toks.len() == 0 {
        if cut < line.len() {
            Err(ErrorView::CommentOnly)
        } else {
            Err(ErrorView::BlankLine)
        }
    } else {
        match spec_fields(toks.drop_first()) {
            Ok(f) => Ok((toks[0], f)),
            Err(e) => Err(e),
        }
    }
}

/// Appending white space to text does not change its tokens.
proof fn lemma_tokens_push_ws(s: Seq<char>, w: char, i: int)
    requires
        0 <= i <= s.len(),
        spec_is_whitespace(w),
    ensures
        spec_tokens_from(s.push(w), i) == spec_tokens_from(s, i),
    decreases s.len() - i,
{
    let t = s.push(w);
    lemma_skip_ws_push(s, w, i);
    lemma_skip_ws_bounds(s, i);
    let b = spec_skip_ws(s, i);
    if i < s.len() && b < s.len() {
        lemma_token_end_push(s, w, b);
        lemma_token_end_bounds(s, b);
        let e = spec_token_end(s, b);
        assert(e > b);
        assert(t.subrange(b, e) =~= s.subrange(b, e));
        lemma_tokens_push_ws(s, w, e);
    }
}

/// A line parses the same with white space appended (a carriage return
/// left by CRLF line ends, a line feed, a space or a tab): same command word,
/// same parameters, same error.
pub proof fn lemma_parse_line_trailing_ws(line: Seq<char>, w: char)
    requires
        w == '\r' || w == '\n' || w == ' ' || w == '\t',
    ensures
        spec_parse_line(line.push(w)) == spec_parse_line(line),
{
    assert(spec_is_whitespace(w));
    let t = line.push(w);
    lemma_find_char_push(line, ';', w, 0);
    lemma_find_char_bounds(line, ';', 0);
    let cut = spec_find_char(line, ';', 0);
    if cut < line.len() {
        assert(t.subrange(0, cut) =~= line.subrange(0, cut));
    } else {
        assert(t.subrange(0, cut + 1) =~= line.subrange(0, cut).push(w));
        lemma_tokens_push_ws(line.subrange(0, cut), w, 0);
    }
}

/// A line split into its command word and its `(letter, value)` parameters.
pub struct ParsedLine<'a> {
    pub command: &'a str,
    pub fields: Vec<(char, &'a str)>,
}

/// The values of parsed parameters.
pub open spec fn spec_fields_view<'a>(f: Seq<(char, &'a str)>) -> Seq<(char, Seq<char>)> {
    f.map_values(|p: (char, &'a str)| (p.0, p.1@))
}

impl<'a> ParsedLine<'a> {
    /// Splits `line`: drops the comment, splits the rest at whitespace,
    /// takes the first token as the command word and every further token as
    /// a parameter letter followed by its value.
    pub fn parse(line: &'a str) -> (r: Result<ParsedLine<'a>, Error>)
        ensures
            match spec_parse_line(line@) {
                Ok((cmd, f)) => r matches Ok(p) && p.command@ == cmd && spec_fields_view(p.fields@) == f,
                Err(e) => r matches Err(err) && err@ == e,
            },
    {
        let cut = find_char(line, ';');
        proof { lemma_find_char_bounds(line@, ';', 0); }
        let had_comment_marker = cut < line.unicode_len();
        let code = line.substring_char(0, cut);
        let n = code.unicode_len();
        let b = skip_ws(code, 0);
        proof {
            lemma_skip_ws_bounds(code@, 0);
            reveal_strlit(";");
        }
        if b >= n {
            assert(spec_tokens_from(code@, 0) =~= Seq::<Seq<char>>::empty());
            if had_comment_marker {
                return Err(Error::CommentOnly);
            } else {
                return Err(Error::BlankLine);
            }
        }
        let e = token_end(code, b);
        proof { lemma_token_end_bounds(code@, b as int); }
        let command = code.substring_char(b, e);
        let ghost toks = spec_tokens_from(code@, 0);
        assert(toks[0] == command@);
        assert(toks.drop_first() =~= spec_tokens_from(code@, e as int));
        let mut fields: Vec<(char, &'a str)> = Vec::new();
        let mut i: usize = e;
        while i < n
            invariant
                e <= i <= n,
                n == code@.len(),
                cut == spec_find_char(line@, ';', 0),
                code@ == line@.subrange(0, cut as int),
                toks == spec_tokens_from(code@, 0),
                toks.len() > 0,
                toks[0] == command@,
                toks.drop_first() == spec_tokens_from(code@, e as int),
                match spec_fields(toks.drop_first()) {
                    Ok(all) => spec_fields(spec_tokens_from(code@, i as int)) matches Ok(tail)
                        && all == spec_fields_view(fields@) + tail,
                    Err(err) => spec_fields(spec_tokens_from(code@, i as int)) == Err::<Seq<(char, Seq<char>)>, ErrorView>(err),
                },
            ensures
                i == n,
                match spec_fields(toks.drop_first()) {
                    Ok(all) => all == spec_fields_view(fields@),
                    Err(err) => false,
                },
            decreases n - i,
        {
            let tb = skip_ws(code, i);
            proof { lemma_skip_ws_bounds(code@, i as int); }
            if tb >= n {
                assert(spec_tokens_from(code@, i as int) =~= Seq::<Seq<char>>::empty());
                assert(spec_tokens_from(code@, n as int) =~= Seq::<Seq<char>>::empty());
                proof {
                    if spec_fields(toks.drop_first()) is Ok {
                        assert(spec_fields_view(fields@) + Seq::<(char, Seq<char>)>::empty() =~= spec_fields_view(fields@));
                    }
                }
                i = n;
                break;
            }
            let te = token_end(code, tb);
            proof {
                lemma_token_end_bounds(code@, tb as int);
                assert(!spec_is_whitespace(code@[tb as int]));
                assert(te > tb);
            }
            let tok = code.substring_char(tb, te);
            let ghost rest_toks = spec_tokens_from(code@, i as int);
            assert(rest_toks[0] == tok@);
            assert(rest_toks.drop_first() =~= spec_tokens_from(code@, te as int));
            let letter = tok.get_char(0);
            if !(('A' <= letter && letter <= 'Z') || ('a' <= letter && letter <= 'z')) {
                let mut msg = String::new();
                msg.append(tok);
                assert(msg@ =~= tok@);
                assert(spec_fields(rest_toks) == Err::<Seq<(char, Seq<char>)>, ErrorView>(ErrorView::MalformedToken(tok@)));
                return Err(Error::MalformedToken(msg));
            }
            let value = tok.substring_char(1, tok.unicode_len());
            let ghost old_fields = fields@;
            fields.push((to_ascii_uppercase(letter), value));
            proof {
                assert(tok@.drop_first() =~= value@);
                assert(spec_fields_view(fields@) =~= spec_fields_view(old_fields).push((spec_to_ascii_uppercase(letter), value@)));
                match spec_fields(toks.drop_first()) {
                    Ok(all) => {
                        let tail0 = spec_fields(rest_toks)->Ok_0;
                        let tail1 = spec_fields(rest_toks.drop_first())->Ok_0;
                        assert(tail0 == seq![(spec_to_ascii_uppercase(letter), value@)] + tail1);
                        assert(all =~= spec_fields_view(fields@) + tail1);
                    },
                    Err(err) => {},
                }
            }
            i = te;
        }
        Ok(ParsedLine { command, fields })
    }
}

/// ASCII decimal digit.
pub open spec fn spec_is_digit(c: char) -> bool {
    '0' <= c <= '9'
}

/// The value of a string of decimal digits.
pub open spec fn spec_digits_value(d: Seq<char>) -> int
    decreases d.len(),
{
    if d.len() == 0 {
        0
    } else {
        spec_digits_value(d.drop_last()) * 10 + ((d.last() as int) - ('0' as int))
    }
}

/// The digits of an unsigned number: the text without one leading `+`.
pub open spec fn spec_unsigned_digits(s: Seq<char>) -> Seq<char> {
    if s.len() > 0 && s[0] == '+' { s.drop_first() } else { s }
}

/// `u32` parsing as `str::parse::<u32>` does it: an optional `+`, then one
/// or more ASCII digits, the value fitting in 32 bits.
pub open spec fn spec_parse_u32(s: Seq<char>) -> Option<u32> {
    let d = spec_unsigned_digits(s);
    if d.len() == 0 || !(forall|i: int| 0 <= i < d.len() ==> spec_is_digit(#[trigger] d[i]))
        || spec_digits_value(d) > u32::MAX {
        None
    } else {
        Some(spec_digits_value(d) as u32)
    }
}

/// The flag values a parameter value may spell.
pub open spec fn spec_parse_bool(v: Seq<char>) -> Option<bool> {
    if v == "1"@ || v == "true"@ || v == "TRUE"@ || v == "True"@ {
        Some(true)
    } else if v == "0"@ || v == "false"@ || v == "FALSE"@ || v == "False"@ {
        Some(false)
    } else {
        None
    }
}

/// Equal up to ASCII case.
pub open spec fn spec_eq_ignore_ascii_case(a: Seq<char>, b: Seq<char>) -> bool {
    a.len() == b.len() && forall|i: int| 0 <= i < a.len()
        ==> spec_to_ascii_lowercase(#[trigger] a[i]) == spec_to_ascii_lowercase(b[i])
}

/// The message for a parameter that appears twice.
pub open spec fn spec_duplicate_msg(key: char) -> Seq<char> {
    "duplicate field `"@ + seq![key] + "`"@
}

proof fn lemma_digits_prefix(d: Seq<char>, k: int)
    requires
        0 <= k <= d.len(),
        forall|i: int| 0 <= i < d.len() ==> spec_is_digit(#[trigger] d[i]),
    ensures
        0 <= spec_digits_value(d.subrange(0, k)) <= spec_digits_value(d),
    decreases d.len() - k,
{
    if k < d.len() {
        lemma_digits_prefix(d, k + 1);
        assert(d.subrange(0, k + 1).drop_last() =~= d.subrange(0, k));
        assert(forall|i: int| 0 <= i < k + 1 ==> spec_is_digit(#[trigger] d.subrange(0, k + 1)[i]));
    } else {
        assert(d.subrange(0, k) =~= d);
    }
    lemma_digits_nonneg(d.subrange(0, k));
}

proof fn lemma_digits_nonneg(d: Seq<char>)
    requires
        forall|i: int| 0 <= i < d.len() ==> spec_is_digit(#[trigger] d[i]),
    ensures
        0 <= spec_digits_value(d),
    decreases d.len(),
{
    if d.len() > 0 {
        assert(forall|i: int| 0 <= i < d.len() - 1 ==> spec_is_digit(#[trigger] d.drop_last()[i]) ) by {
            assert forall|i: int| 0 <= i < d.len() - 1 implies spec_is_digit(#[trigger] d.drop_last()[i]) by {
                assert(d.drop_last()[i] == d[i]);
            }
        }
        lemma_digits_nonneg(d.drop_last());
        assert(spec_is_digit(d[d.len() - 1]));
    }
}

/// Parses characters as `u32` (see `spec_parse_u32`).
pub fn parse_u32_chars(s: &Vec<char>) -> (r: Option<u32>)
    ensures
        r == spec_parse_u32(s@),
{
    let n = s.len();
    let mut start: usize = 0;
    if n > 0 && s[0] == '+' {
        start = 1;
    }
    let ghost d = spec_unsigned_digits(s@);
    if start >= n {
        return None;
    }
    let mut acc: u64 = 0;
    let mut i: usize = start;
    while i < n
        invariant
            start <= i <= n,
            n == s@.len(),
            d == spec_unsigned_digits(s@),
            start == s@.len() - d.len(),
            d == s@.subrange(start as int, n as int),
            forall|k: int| 0 <= k < i - start ==> spec_is_digit(#[trigger] d[k]),
            acc == spec_digits_value(d.subrange(0, i - start)),
            acc <= u32::MAX,
        decreases n - i,
    {
        let c = s[i];
        if !('0' <= c && c <= '9') {
            assert(d[i - start] == c);
            assert(!spec_is_digit(d[i - start]));
            return None;
        }
        let ghost prev = d.subrange(0, i - start);
        assert(d.subrange(0, i - start + 1).drop_last() =~= prev);
        acc = acc * 10 + ((c as u32) - ('0' as u32)) as u64;
        i += 1;
        if acc > 0xffff_ffff {
            proof {
                if forall|k: int| 0 <= k < d.len() ==> spec_is_digit(#[trigger] d[k]) {
                    lemma_digits_prefix(d, i - start);
                }
            }
            return None;
        }
    }
    assert(d.subrange(0, n - start) =~= d);
    Some(acc as u32)
}

/// Parses a parameter value as `u32`.
pub fn parse_u32(s: &str) -> (r: Option<u32>)
    ensures
        r == spec_parse_u32(s@),
{
    let n = s.unicode_len();
    let mut cs: Vec<char> = Vec::new();
    let mut i: usize = 0;
    while i < n
        invariant
            i <= n,
            n == s@.len(),
            cs@ == s@.subrange(0, i as int),
        decreases n - i,
    {
        cs.push(s.get_char(i));
        i += 1;
        assert(cs@ =~= s@.subrange(0, i as int));
    }
    assert(cs@ =~= s@);
    parse_u32_chars(&cs)
}

/// Parses a parameter value as a flag.
pub fn parse_bool(v: &str) -> (r: Option<bool>)
    ensures
        r == spec_parse_bool(v@),
{
    if str_eq(v, "1") || str_eq(v, "true") || str_eq(v, "TRUE") || str_eq(v, "True") {
        Some(true)
    } else if str_eq(v, "0") || str_eq(v, "false") || str_eq(v, "FALSE") || str_eq(v, "False") {
        Some(false)
    } else {
        None
    }
}

/// Whether `a` equals `b` up to ASCII case.
pub fn eq_ignore_ascii_case(a: &str, b: &str) -> (r: bool)
    ensures
        r == spec_eq_ignore_ascii_case(a@, b@),
{
    let n = a.unicode_len();
    if n != b.unicode_len() {
        return false;
    }
    let mut i: usize = 0;
    while i < n
        invariant
            i <= n,
            n == a@.len(),
            n == b@.len(),
            forall|k: int| 0 <= k < i ==> spec_to_ascii_lowercase(#[trigger] a@[k]) == spec_to_ascii_lowercase(b@[k]),
        decreases n - i,
    {
        if to_ascii_lowercase(a.get_char(i)) != to_ascii_lowercase(b.get_char(i)) {
            return false;
        }
        i += 1;
    }
    true
}

fn string_of(s: &str) -> (r: String)
    ensures
        r@ == s@,
{
    let mut out = String::new();
    out.append(s);
    assert(out@ =~= s@);
    out
}

/// What a flag parameter's value gives: a flag given without a value (as in
/// `G28 X Y`) is set; otherwise the trimmed value spelled as a flag, or an
/// error that carries the trimmed value.
pub open spec fn spec_flag_value(v: Seq<char>) -> Result<bool, ErrorView> {
    let t = spec_trim(v);
    if t.len() == 0 {
        Ok(true)
    } else {
        match spec_parse_bool(t) {
            Some(b) => Ok(b),
            None => Err(ErrorView::InvalidValue { value: t, expected: "bool"@ }),
        }
    }
}

/// What an optional `u32` parameter's value gives: nothing for a blank
/// value, else the trimmed value as a number, or an error that carries the
/// value as written.
pub open spec fn spec_opt_u32_value(v: Seq<char>) -> Result<Option<u32>, ErrorView> {
    let t = spec_trim(v);
    if t.len() == 0 {
        Ok(None)
    } else {
        match spec_parse_u32(t) {
            Some(n) => Ok(Some(n)),
            None => Err(ErrorView::InvalidValue { value: v, expected: "u32"@ }),
        }
    }
}

/// Position of `k` in `keys` from `j` on, or -1.
pub open spec fn spec_key_index(keys: Seq<char>, k: char, j: int) -> int
    decreases keys.len() - j,
{
    if j < 0 || j >= keys.len() {
        -1
    } else if keys[j] == k {
        j
    } else {
        spec_key_index(keys, k, j + 1)
    }
}

/// Applies parameters, in order, to flag slots named by `keys` (lower-case
/// letters): a parameter whose letter names no slot is ignored, one that
/// names a slot already set is a duplicate, any other sets its slot to its
/// value.
pub open spec fn spec_apply_flags(
    f: Seq<(char, Seq<char>)>,
    keys: Seq<char>,
    st: Seq<Option<bool>>,
) -> Result<Seq<Option<bool>>, ErrorView>
    decreases f.len(),
{
    if f.len() == 0 {
        Ok(st)
    } else {
        let k = spec_to_ascii_lowercase(f[0].0);
        let j = spec_key_index(keys, k, 0);
        if j < 0 || j >= st.len() {
            spec_apply_flags(f.drop_first(), keys, st)
        } else if st[j] is Some {
            Err(ErrorView::Message(spec_duplicate_msg(k)))
        } else {
            match spec_flag_value(f[0].1) {
                Ok(b) => spec_apply_flags(f.drop_first(), keys, st.update(j, Some(b))),
                Err(e) => Err(e),
            }
        }
    }
}

proof fn lemma_apply_flags_len(f: Seq<(char, Seq<char>)>, keys: Seq<char>, st: Seq<Option<bool>>)
    ensures
        spec_apply_flags(f, keys, st) matches Ok(out) ==> out.len() == st.len(),
    decreases f.len(),
{
    if f.len() > 0 {
        let k = spec_to_ascii_lowercase(f[0].0);
        let j = spec_key_index(keys, k, 0);
        if j < 0 || j >= st.len() {
            lemma_apply_flags_len(f.drop_first(), keys, st);
        } else if st[j] is None {
            if let Ok(b) = spec_flag_value(f[0].1) {
                lemma_apply_flags_len(f.drop_first(), keys, st.update(j, Some(b)));
            }
        }
    }
}

/// Decoding a line into a command whose parameters are the flags `keys`:
/// the command word must equal `name` up to ASCII case; each flag that is
/// not given is `false`.
pub open spec fn spec_decode_flags(line: Seq<char>, name: Seq<char>, keys: Seq<char>) -> Result<Seq<bool>, ErrorView> {
    match spec_parse_line(line) {
        Err(e) => Err(e),
        Ok((cmd, f)) => {
            if !spec_eq_ignore_ascii_case(cmd, name) {
                Err(ErrorView::UnknownCommand(cmd))
            } else {
                match spec_apply_flags(f, keys, Seq::new(keys.len(), |i: int| None::<bool>)) {
                    Ok(st) => Ok(st.map_values(|o: Option<bool>| o.unwrap_or(false))),
                    Err(e) => Err(e),
                }
            }
        },
    }
}

/// Applies parameters, in order, to the one slot `p`, as `spec_apply_flags`
/// does for flags.
pub open spec fn spec_apply_p(f: Seq<(char, Seq<char>)>, st: Option<Option<u32>>) -> Result<Option<Option<u32>>, ErrorView>
    decreases f.len(),
{
    if f.len() == 0 {
        Ok(st)
    } else if spec_to_ascii_lowercase(f[0].0) != 'p' {
        spec_apply_p(f.drop_first(), st)
    } else if st is Some {
        Err(ErrorView::Message(spec_duplicate_msg('p')))
    } else {
        match spec_opt_u32_value(f[0].1) {
            Ok(v) => spec_apply_p(f.drop_first(), Some(v)),
            Err(e) => Err(e),
        }
    }
}

/// Decoding a dwell line: the command word must be `G4` up to ASCII case.
pub open spec fn spec_decode_g4(line: Seq<char>) -> Result<Option<u32>, ErrorView> {
    match spec_parse_line(line) {
        Err(e) => Err(e),
        Ok((cmd, f)) => {
            if !spec_eq_ignore_ascii_case(cmd, "G4"@) {
                Err(ErrorView::UnknownCommand(cmd))
            } else {
                match spec_apply_p(f, None) {
                    Ok(st) => Ok(st.unwrap_or(None)),
                    Err(e) => Err(e),
                }
            }
        },
    }
}

fn duplicate_field(key: &str) -> (r: Error)
    ensures
        r@ == ErrorView::Message("duplicate field `"@ + key@ + "`"@),
{
    let mut msg = String::from_str("duplicate field `");
    msg.append(key);
    msg.append("`");
    Error::Message(msg)
}

fn flag_value(v: &str) -> (r: Result<bool, Error>)
    ensures
        match spec_flag_value(v@) {
            Ok(b) => r == Ok::<bool, Error>(b),
            Err(e) => r matches Err(err) && err@ == e,
        },
{
    let t = trim(v);
    if t.unicode_len() == 0 {
        return Ok(true);
    }
    match parse_bool(t) {
        Some(b) => Ok(b),
        None => Err(Error::InvalidValue { value: string_of(t), expected: "bool" }),
    }
}

fn opt_u32_value(v: &str) -> (r: Result<Option<u32>, Error>)
    ensures
        match spec_opt_u32_value(v@) {
            Ok(n) => r == Ok::<Option<u32>, Error>(n),
            Err(e) => r matches Err(err) && err@ == e,
        },
{
    let t = trim(v);
    if t.unicode_len() == 0 {
        return Ok(None);
    }
    match parse_u32(t) {
        Some(n) => Ok(Some(n)),
        None => Err(Error::InvalidValue { value: string_of(v), expected: "u32" }),
    }
}

/// The single-letter keys of flag slots.
pub open spec fn spec_key_chars(keys: Seq<&str>) -> Seq<char> {
    keys.map_values(|k: &str| k@[0])
}

proof fn lemma_key_index(keys: Seq<char>, k: char, j: int)
    requires
        0 <= j,
    ensures
        spec_key_index(keys, k, j) == -1 || (j <= spec_key_index(keys, k, j) < keys.len()
            && keys[spec_key_index(keys, k, j)] == k),
    decreases keys.len() - j,
{
    if j < keys.len() && keys[j] != k {
        lemma_key_index(keys, k, j + 1);
    }
}

fn key_index(keys: &Vec<&str>, k: char) -> (r: usize)
    requires
        forall|i: int| 0 <= i < keys.len() ==> (#[trigger] keys[i])@.len() == 1,
    ensures
        r <= keys.len(),
        r < keys.len() ==> spec_key_index(spec_key_chars(keys@), k, 0) == r,
        r == keys.len() ==> spec_key_index(spec_key_chars(keys@), k, 0) == -1,
{
    let ghost kc = spec_key_chars(keys@);
    let mut j: usize = 0;
    while j < keys.len()
        invariant
            j <= keys.len(),
            kc == spec_key_chars(keys@),
            kc.len() == keys.len(),
            forall|i: int| 0 <= i < keys.len() ==> (#[trigger] keys[i])@.len() == 1,
            spec_key_index(kc, k, 0) == spec_key_index(kc, k, j as int),
        decreases keys.len() - j,
    {
        if keys[j].get_char(0) == k {
            return j;
        }
        j += 1;
    }
    j
}

/// Applies the parameters `fields` to flag slots named by the one-letter
/// lower-case strings `keys`; each slot not given is `false`.
fn decode_flag_fields(fields: &Vec<(char, &str)>, keys: &Vec<&str>) -> (r: Result<Vec<bool>, Error>)
    requires
        forall|i: int| 0 <= i < keys.len() ==> (#[trigger] keys[i])@.len() == 1,
    ensures
        match spec_apply_flags(spec_fields_view(fields@), spec_key_chars(keys@), Seq::new(keys.len() as nat, |i: int| None::<bool>)) {
            Ok(st) => r matches Ok(v) && v@ == st.map_values(|o: Option<bool>| o.unwrap_or(false)),
            Err(e) => r matches Err(err) && err@ == e,
        },
        r matches Ok(v) ==> v.len() == keys.len(),
{
    let ghost all = spec_fields_view(fields@);
    let ghost kc = spec_key_chars(keys@);
    let ghost init = Seq::new(keys.len() as nat, |i: int| None::<bool>);
    let mut st: Vec<Option<bool>> = Vec::new();
    let mut j: usize = 0;
    while j < keys.len()
        invariant
            j <= keys.len(),
            st@ == Seq::new(j as nat, |i: int| None::<bool>),
        decreases keys.len() - j,
    {
        st.push(None);
        j += 1;
        assert(st@ =~= Seq::new(j as nat, |i: int| None::<bool>));
    }
    let n = fields.len();
    assert(all.subrange(0, n as int) =~= all);
    assert(st@ =~= init);
    let mut i: usize = 0;
    while i < n
        invariant
            i <= n,
            n == fields.len(),
            all == spec_fields_view(fields@),
            all.len() == n,
            init == Seq::new(keys.len() as nat, |i: int| None::<bool>),
            kc == spec_key_chars(keys@),
            kc.len() == keys.len(),
            st@.len() == keys.len(),
            forall|q: int| 0 <= q < keys.len() ==> (#[trigger] keys[q])@.len() == 1,
            spec_apply_flags(all, kc, init) == spec_apply_flags(all.subrange(i as int, n as int), kc, st@),
        decreases n - i,
    {
        let ghost rest = all.subrange(i as int, n as int);
        assert(rest.drop_first() =~= all.subrange(i + 1, n as int));
        assert(rest[0] == (fields[i as int].0, fields[i as int].1@));
        let letter = fields[i].0;
        let value = fields[i].1;
        let k = to_ascii_lowercase(letter);
        let j = key_index(keys, k);
        if j < keys.len() {
            if st[j].is_some() {
                proof { lemma_key_index(kc, k, 0); }
                assert(kc[j as int] == keys[j as int]@[0]);
                assert(keys[j as int]@ =~= seq![k]);
                assert(spec_apply_flags(rest, kc, st@) == Err::<Seq<Option<bool>>, ErrorView>(ErrorView::Message(spec_duplicate_msg(k))));
                return Err(duplicate_field(keys[j]));
            }
            match flag_value(value) {
                Ok(b) => {
                    st.set(j, Some(b));
                },
                Err(e) => {
                    assert(spec_apply_flags(rest, kc, st@) == Err::<Seq<Option<bool>>, ErrorView>(e@));
                    return Err(e);
                },
            }
        }
        i += 1;
    }
    assert(all.subrange(n as int, n as int) =~= Seq::<(char, Seq<char>)>::empty());
    let mut out: Vec<bool> = Vec::new();
    let mut q: usize = 0;
    while q < st.len()
        invariant
            q <= st@.len(),
            out@ == st@.subrange(0, q as int).map_values(|o: Option<bool>| o.unwrap_or(false)),
        decreases st@.len() - q,
    {
        let b = match st[q] {
            Some(b) => b,
            None => false,
        };
        out.push(b);
        q += 1;
        assert(out@ =~= st@.subrange(0, q as int).map_values(|o: Option<bool>| o.unwrap_or(false)));
    }
    assert(st@.subrange(0, st@.len() as int) =~= st@);
    proof { lemma_apply_flags_len(all, kc, init); }
    Ok(out)
}

/// Decodes a line into a command named `name` whose parameters are the
/// flags named by the one-letter lower-case strings `keys`.
fn decode_flags_line(line: &str, name: &str, keys: &Vec<&str>) -> (r: Result<Vec<bool>, Error>)
    requires
        forall|i: int| 0 <= i < keys.len() ==> (#[trigger] keys[i])@.len() == 1,
    ensures
        match spec_decode_flags(line@, name@, spec_key_chars(keys@)) {
            Ok(v) => r matches Ok(out) && out@ == v,
            Err(e) => r matches Err(err) && err@ == e,
        },
        r matches Ok(out) ==> out.len() == keys.len(),
{
    let parsed = match ParsedLine::parse(line) {
        Ok(p) => p,
        Err(e) => {
            return Err(e);
        },
    };
    if !eq_ignore_ascii_case(parsed.command, name) {
        return Err(Error::UnknownCommand(string_of(parsed.command)));
    }
    proof {
        assert(spec_key_chars(keys@).len() == keys.len());
    }
    decode_flag_fields(&parsed.fields, keys)
}

/// Dwell: `G4 P<milliseconds>`.
#[derive(Debug, Default)]
pub struct G4 {
    pub p: Option<u32>,
}

/// Home the named axes: `G28 X Y`.
#[derive(Debug, Default)]
pub struct G28 {
    pub x: bool,
    pub y: bool,
    pub z: bool,
}

/// Enable the named stepper motors: `M17 X Y Z E`.
#[derive(Debug, Default)]
pub struct M17 {
    pub x: bool,
    pub y: bool,
    pub z: bool,
    pub e: bool,
}

/// Disable the named stepper motors: `M18 E`.
#[derive(Debug, Default)]
pub struct M18 {
    pub x: bool,
    pub y: bool,
    pub z: bool,
    pub e: bool,
}

impl G4 {
    /// Decodes a `G4` line (the command word compared up to ASCII case).
    pub fn from_line(line: &str) -> (r: Result<G4, Error>)
        ensures
            match spec_decode_g4(line@) {
                Ok(p) => r matches Ok(g) && g.p == p,
                Err(e) => r matches Err(err) && err@ == e,
            },
    {
        let parsed = match ParsedLine::parse(line) {
            Ok(p) => p,
            Err(e) => {
                return Err(e);
            },
        };
        if !eq_ignore_ascii_case(parsed.command, "G4") {
            return Err(Error::UnknownCommand(string_of(parsed.command)));
        }
        let ghost all = spec_fields_view(parsed.fields@);
        let n = parsed.fields.len();
        let mut st: Option<Option<u32>> = None;
        let mut i: usize = 0;
        assert(all.subrange(0, n as int) =~= all);
        assert(spec_decode_g4(line@) == match spec_apply_p(all, None) {
            Ok(st) => Ok(st.unwrap_or(None)),
            Err(e) => Err::<Option<u32>, ErrorView>(e),
        });
        while i < n
            invariant
                i <= n,
                n == parsed.fields.len(),
                spec_decode_g4(line@) == match spec_apply_p(all, None) {
                    Ok(st) => Ok(st.unwrap_or(None)),
                    Err(e) => Err::<Option<u32>, ErrorView>(e),
                },
                all == spec_fields_view(parsed.fields@),
                all.len() == n,
                spec_apply_p(all, None) == spec_apply_p(all.subrange(i as int, n as int), st),
            decreases n - i,
        {
            let ghost rest = all.subrange(i as int, n as int);
            assert(rest.drop_first() =~= all.subrange(i + 1, n as int));
            assert(rest[0] == (parsed.fields[i as int].0, parsed.fields[i as int].1@));
            let letter = parsed.fields[i].0;
            if to_ascii_lowercase(letter) == 'p' {
                if st.is_some() {
                    proof { reveal_strlit("p"); }
                    assert("p"@ =~= seq!['p']);
                    assert(spec_apply_p(rest, st) == Err::<Option<Option<u32>>, ErrorView>(ErrorView::Message(spec_duplicate_msg('p'))));
                    return Err(duplicate_field("p"));
                }
                match opt_u32_value(parsed.fields[i].1) {
                    Ok(v) => {
                        st = Some(v);
                    },
                    Err(e) => {
                        assert(spec_apply_p(rest, st) == Err::<Option<Option<u32>>, ErrorView>(e@));
                        return Err(e);
                    },
                }
            }
            i += 1;
        }
        assert(all.subrange(n as int, n as int) =~= Seq::<(char, Seq<char>)>::empty());
        let p = match st {
            Some(v) => v,
            None => None,
        };
        Ok(G4 { p })
    }
}

/// The flags of a command with the axis parameters `X`, `Y` and `Z`.
pub open spec fn spec_xyz_keys() -> Seq<char> {
    seq!['x', 'y', 'z']
}

/// The flags of a command with the parameters `X`, `Y`, `Z` and `E`.
pub open spec fn spec_xyze_keys() -> Seq<char> {
    seq!['x', 'y', 'z', 'e']
}

fn xyz_keys() -> (r: Vec<&'static str>)
    ensures
        spec_key_chars(r@) == spec_xyz_keys(),
        forall|i: int| 0 <= i < r.len() ==> (#[trigger] r[i])@.len() == 1,
{
    proof {
        reveal_strlit("x");
        reveal_strlit("y");
        reveal_strlit("z");
    }
    let r = vec!["x", "y", "z"];
    assert(spec_key_chars(r@) =~= spec_xyz_keys());
    r
}

fn xyze_keys() -> (r: Vec<&'static str>)
    ensures
        spec_key_chars(r@) == spec_xyze_keys(),
        forall|i: int| 0 <= i < r.len() ==> (#[trigger] r[i])@.len() == 1,
{
    proof {
        reveal_strlit("x");
        reveal_strlit("y");
        reveal_strlit("z");
        reveal_strlit("e");
    }
    let r = vec!["x", "y", "z", "e"];
    assert(spec_key_chars(r@) =~= spec_xyze_keys());
    r
}

impl G28 {
    /// Decodes a `G28` line; each axis not named stays `false`.
    pub fn from_line(line: &str) -> (r: Result<G28, Error>)
        ensures
            match spec_decode_flags(line@, "G28"@, spec_xyz_keys()) {
                Ok(v) => r matches Ok(g) && g.x == v[0] && g.y == v[1] && g.z == v[2],
                Err(e) => r matches Err(err) && err@ == e,
            },
    {
        let keys = xyz_keys();
        match decode_flags_line(line, "G28", &keys) {
            Ok(v) => Ok(G28 { x: v[0], y: v[1], z: v[2] }),
            Err(e) => Err(e),
        }
    }
}

impl M17 {
    /// Decodes an `M17` line; each motor not named stays `false`.
    pub fn from_line(line: &str) -> (r: Result<M17, Error>)
        ensures
            match spec_decode_flags(line@, "M17"@, spec_xyze_keys()) {
                Ok(v) => r matches Ok(m) && m.x == v[0] && m.y == v[1] && m.z == v[2] && m.e == v[3],
                Err(e) => r matches Err(err) && err@ == e,
            },
    {
        let keys = xyze_keys();
        match decode_flags_line(line, "M17", &keys) {
            Ok(v) => Ok(M17 { x: v[0], y: v[1], z: v[2], e: v[3] }),
            Err(e) => Err(e),
        }
    }
}

impl M18 {
    /// Decodes an `M18` line; each motor not named stays `false`.
    pub fn from_line(line: &str) -> (r: Result<M18, Error>)
        ensures
            match spec_decode_flags(line@, "M18"@, spec_xyze_keys()) {
                Ok(v) => r matches Ok(m) && m.x == v[0] && m.y == v[1] && m.z == v[2] && m.e == v[3],
                Err(e) => r matches Err(err) && err@ == e,
            },
    {
        let keys = xyze_keys();
        match decode_flags_line(line, "M18", &keys) {
            Ok(v) => Ok(M18 { x: v[0], y: v[1], z: v[2], e: v[3] }),
            Err(e) => Err(e),
        }
    }
}

/// What reading a file of G-code does with the result of decoding a line.
pub enum LineOutcome<T> {
    /// Yield the command.
    Command(T),
    /// Go on with the next line (a blank or comment-only line).
    Skip,
    /// Yield the unknown command word as a macro.
    Macro(String),
    /// Stop reading, with the error.
    Stop(Error),
}

/// Classifies a decoded line: commands are yielded, blank and comment-only
/// lines skipped, unknown command words become macros, any other error
/// stops the reading.
pub fn classify_line<T>(r: Result<T, Error>) -> (o: LineOutcome<T>)
    ensures
        match r {
            Ok(c) => o == LineOutcome::Command(c),
            Err(Error::BlankLine) | Err(Error::CommentOnly) => o is Skip,
            Err(Error::UnknownCommand(w)) => o matches LineOutcome::Macro(m) && m@ == w@,
            Err(e) => o matches LineOutcome::Stop(e2) && e2@ == e@,
        },
{
    match r {
        Ok(c) => LineOutcome::Command(c),
        Err(Error::BlankLine) => LineOutcome::Skip,
        Err(Error::CommentOnly) => LineOutcome::Skip,
        Err(Error::UnknownCommand(w)) => LineOutcome::Macro(w),
        Err(e) => LineOutcome::Stop(e),
    }
}

} // verus!
