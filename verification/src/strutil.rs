//! Small string helpers: comparing strings, Unicode whitespace, ASCII case.
use vstd::prelude::*;
use vstd::utf8::*;
use vstd::string::*;

verus! {

/// Two strings are equal exactly when their UTF-8 bytes are.
pub fn str_eq(a: &str, b: &str) -> (r: bool)
    ensures
        r == (a@ == b@),
{
    let ab = a.as_bytes();
    let bb = b.as_bytes();
    proof {
        encode_utf8_decode_utf8(a@);
        encode_utf8_decode_utf8(b@);
    }
    if ab.len() != bb.len() {
        proof {
            if a@ == b@ {
                assert(ab@ == bb@);
            }
        }
        return false;
    }
    let mut i: usize = 0;
    while i < ab.len()
        invariant
            i <= ab@.len(),
            ab@.len() == bb@.len(),
            ab@ == encode_utf8(a@),
            bb@ == encode_utf8(b@),
            ab@.subrange(0, i as int) == bb@.subrange(0, i as int),
        decreases ab.len() - i,
    {
        if ab[i] != bb[i] {
            proof {
                if a@ == b@ {
                    assert(ab@ == bb@);
                }
            }
            return false;
        }
        i += 1;
        assert(ab@.subrange(0, i as int) =~= ab@.subrange(0, i - 1).push(ab@[i - 1]));
        assert(bb@.subrange(0, i as int) =~= bb@.subrange(0, i - 1).push(bb@[i - 1]));
    }
    assert(ab@ =~= ab@.subrange(0, i as int));
    assert(bb@ =~= bb@.subrange(0, i as int));
    true
}

/// Unicode `White_Space`, the set that `char::is_whitespace` and
/// `str::split_whitespace` use.
pub open spec fn spec_is_whitespace(c: char) -> bool {
    let u = c as u32;
    (0x09 <= u <= 0x0d) || u == 0x20 || u == 0x85 || u == 0xa0 || u == 0x1680
        || (0x2000 <= u <= 0x200a) || u == 0x2028 || u == 0x2029 || u == 0x202f
        || u == 0x205f || u == 0x3000
}

/// Whether `c` is Unicode white space.
pub fn is_whitespace(c: char) -> (r: bool)
    ensures
        r == spec_is_whitespace(c),
{
    let u = c as u32;
    (0x09 <= u && u <= 0x0d) || u == 0x20 || u == 0x85 || u == 0xa0 || u == 0x1680
        || (0x2000 <= u && u <= 0x200a) || u == 0x2028 || u == 0x2029 || u == 0x202f
        || u == 0x205f || u == 0x3000
}

/// ASCII letter, either case.
pub open spec fn spec_is_ascii_alphabetic(c: char) -> bool {
    ('A' <= c <= 'Z') || ('a' <= c <= 'z')
}

/// ASCII upper case of `c`; other characters are unchanged.
pub open spec fn spec_to_ascii_uppercase(c: char) -> char {
    if 'a' <= c <= 'z' {
        ((c as u32) - 32) as char
    } else {
        c
    }
}

/// ASCII lower case of `c`; other characters are unchanged.
pub open spec fn spec_to_ascii_lowercase(c: char) -> char {
    if 'A' <= c <= 'Z' {
        ((c as u32) + 32) as char
    } else {
        c
    }
}

/// ASCII lower case of `c`.
pub fn to_ascii_lowercase(c: char) -> (r: char)
    ensures
        r == spec_to_ascii_lowercase(c),
{
    if 'A' <= c && c <= 'Z' {
        ((c as u8) + 32) as char
    } else {
        c
    }
}

/// ASCII upper case of `c`.
pub fn to_ascii_uppercase(c: char) -> (r: char)
    ensures
        r == spec_to_ascii_uppercase(c),
{
    if 'a' <= c && c <= 'z' {
        ((c as u8) - 32) as char
    } else {
        c
    }
}

/// Index of the first non-whitespace character at or after `i`.
pub open spec fn spec_skip_ws(s: Seq<char>, i: int) -> int
    decreases s.len() - i,
{
    if i < 0 || i >= s.len() || !spec_is_whitespace(s[i]) {
        i
    } else {
        spec_skip_ws(s, i + 1)
    }
}

/// Index of the first whitespace character at or after `i` (or the length).
pub open spec fn spec_token_end(s: Seq<char>, i: int) -> int
    decreases s.len() - i,
{
    if i < 0 || i >= s.len() || spec_is_whitespace(s[i]) {
        i
    } else {
        spec_token_end(s, i + 1)
    }
}

/// The first whitespace-separated token of `s`, or all of `s` when it has
/// none (as `s.split_whitespace().next().unwrap_or(s)`).
pub open spec fn spec_first_token(s: Seq<char>) -> Seq<char> {
    let b = spec_skip_ws(s, 0);
    if b >= s.len() {
        s
    } else {
        s.subrange(b, spec_token_end(s, b))
    }
}

pub proof fn lemma_skip_ws_bounds(s: Seq<char>, i: int)
    requires
        0 <= i <= s.len(),
    ensures
        i <= spec_skip_ws(s, i) <= s.len(),
        forall|k: int| i <= k < spec_skip_ws(s, i) ==> spec_is_whitespace(#[trigger] s[k]),
        spec_skip_ws(s, i) < s.len() ==> !spec_is_whitespace(s[spec_skip_ws(s, i)]),
    decreases s.len() - i,
{
    if i < s.len() && spec_is_whitespace(s[i]) {
        lemma_skip_ws_bounds(s, i + 1);
    }
}

pub proof fn lemma_token_end_bounds(s: Seq<char>, i: int)
    requires
        0 <= i <= s.len(),
    ensures
        i <= spec_token_end(s, i) <= s.len(),
        forall|k: int| i <= k < spec_token_end(s, i) ==> !spec_is_whitespace(#[trigger] s[k]),
        spec_token_end(s, i) < s.len() ==> spec_is_whitespace(s[spec_token_end(s, i)]),
    decreases s.len() - i,
{
    if i < s.len() && !spec_is_whitespace(s[i]) {
        lemma_token_end_bounds(s, i + 1);
    }
}

/// Among ASCII characters, exactly tab, line feed, vertical tab, form feed,
/// carriage return and space are white space (so a carriage return left at
/// the end of a line is trimmed and splits tokens like a space); the rest of
/// Latin-1 adds only next line (U+0085) and no-break space (U+00A0).
pub proof fn lemma_latin1_whitespace(c: char)
    requires
        (c as u32) < 0x100,
    ensures
        spec_is_whitespace(c) <==> (c == '\t' || c == '\n' || c == '\x0b' || c == '\x0c' || c == '\r' || c == ' '
            || c == '\u{85}' || c == '\u{a0}'),
{
}

/// Appending a character other than `c` leaves an earlier `c` where it was,
/// and otherwise `c` is still not found.
pub proof fn lemma_find_char_push(s: Seq<char>, c: char, x: char, i: int)
    requires
        0 <= i <= s.len(),
        x != c,
    ensures
        spec_find_char(s.push(x), c, i) == if spec_find_char(s, c, i) < s.len() {
            spec_find_char(s, c, i)
        } else {
            s.len() + 1int
        },
    decreases s.len() - i,
{
    let t = s.push(x);
    if i < s.len() {
        assert(t[i] == s[i]);
        if s[i] != c {
            lemma_find_char_push(s, c, x, i + 1);
        }
    } else {
        assert(t[i] == x);
        assert(spec_find_char(t, c, i + 1) == t.len());
    }
}

/// Appending white space: skipping white space stops where it did, or runs
/// past the end.
pub proof fn lemma_skip_ws_push(s: Seq<char>, w: char, i: int)
    requires
        0 <= i <= s.len(),
        spec_is_whitespace(w),
    ensures
        spec_skip_ws(s.push(w), i) == if spec_skip_ws(s, i) < s.len() {
            spec_skip_ws(s, i)
        } else {
            s.len() + 1int
        },
    decreases s.len() - i,
{
    let t = s.push(w);
    if i < s.len() {
        assert(t[i] == s[i]);
        if spec_is_whitespace(s[i]) {
            lemma_skip_ws_push(s, w, i + 1);
        }
    } else {
        assert(t[i] == w);
        assert(spec_skip_ws(t, i + 1) == i + 1);
    }
}

/// Appending white space does not move the end of a token.
pub proof fn lemma_token_end_push(s: Seq<char>, w: char, i: int)
    requires
        0 <= i <= s.len(),
        spec_is_whitespace(w),
    ensures
        spec_token_end(s.push(w), i) == spec_token_end(s, i),
    decreases s.len() - i,
{
    let t = s.push(w);
    if i < s.len() {
        assert(t[i] == s[i]);
        if !spec_is_whitespace(s[i]) {
            lemma_token_end_push(s, w, i + 1);
        }
    } else {
        assert(t[i] == w);
    }
}

/// Index of the first non-whitespace character at or after `from`.
pub fn skip_ws(s: &str, from: usize) -> (r: usize)
    requires
        from <= s@.len(),
    ensures
        r == spec_skip_ws(s@, from as int),
{
    let n = s.unicode_len();
    let mut i = from;
    while i < n && is_whitespace(s.get_char(i))
        invariant
            from <= i <= n,
            n == s@.len(),
            spec_skip_ws(s@, from as int) == spec_skip_ws(s@, i as int),
        decreases n - i,
    {
        i += 1;
    }
    i
}

/// Index of the first whitespace character at or after `from`, or the length.
pub fn token_end(s: &str, from: usize) -> (r: usize)
    requires
        from <= s@.len(),
    ensures
        r == spec_token_end(s@, from as int),
{
    let n = s.unicode_len();
    let mut i = from;
    while i < n && !is_whitespace(s.get_char(i))
        invariant
            from <= i <= n,
            n == s@.len(),
            spec_token_end(s@, from as int) == spec_token_end(s@, i as int),
        decreases n - i,
    {
        i += 1;
    }
    i
}

/// The first whitespace-separated token of `s`, or `s` when there is none.
pub fn first_token(s: &str) -> (r: &str)
    ensures
        r@ == spec_first_token(s@),
{
    let n = s.unicode_len();
    let b = skip_ws(s, 0);
    proof { lemma_skip_ws_bounds(s@, 0); }
    if b >= n {
        return s;
    }
    let e = token_end(s, b);
    proof { lemma_token_end_bounds(s@, b as int); }
    s.substring_char(b, e)
}

/// Index just past the last non-whitespace character before `j` (0 when
/// there is none).
pub open spec fn spec_trim_end(s: Seq<char>, j: int) -> int
    decreases j,
{
    if j <= 0 || j > s.len() {
        0
    } else if spec_is_whitespace(s[j - 1]) {
        spec_trim_end(s, j - 1)
    } else {
        j
    }
}

/// `s` without leading and trailing whitespace (as `str::trim`).
pub open spec fn spec_trim(s: Seq<char>) -> Seq<char> {
    let b = spec_skip_ws(s, 0);
    let e = spec_trim_end(s, s.len() as int);
    if b >= e {
        Seq::empty()
    } else {
        s.subrange(b, e)
    }
}

pub proof fn lemma_trim_end_bounds(s: Seq<char>, j: int)
    requires
        0 <= j <= s.len(),
    ensures
        0 <= spec_trim_end(s, j) <= j,
    decreases j,
{
    if j > 0 && spec_is_whitespace(s[j - 1]) {
        lemma_trim_end_bounds(s, j - 1);
    }
}

/// `s` without leading and trailing whitespace.
pub fn trim(s: &str) -> (r: &str)
    ensures
        r@ == spec_trim(s@),
{
    let n = s.unicode_len();
    let b = skip_ws(s, 0);
    proof { lemma_skip_ws_bounds(s@, 0); }
    let mut e = n;
    while e > 0 && is_whitespace(s.get_char(e - 1))
        invariant
            e <= n,
            n == s@.len(),
            spec_trim_end(s@, n as int) == spec_trim_end(s@, e as int),
        decreases e,
    {
        e -= 1;
    }
    proof { lemma_trim_end_bounds(s@, n as int); }
    if b >= e {
        let empty = s.substring_char(0, 0);
        assert(empty@ =~= Seq::<char>::empty());
        return empty;
    }
    s.substring_char(b, e)
}

/// Index of the first `c` at or after `i` in `s` (the length when none).
pub open spec fn spec_find_char(s: Seq<char>, c: char, i: int) -> int
    decreases s.len() - i,
{
    if i < 0 || i >= s.len() {
        s.len() as int
    } else if s[i] == c {
        i
    } else {
        spec_find_char(s, c, i + 1)
    }
}

pub proof fn lemma_find_char_bounds(s: Seq<char>, c: char, i: int)
    requires
        0 <= i <= s.len(),
    ensures
        i <= spec_find_char(s, c, i) <= s.len(),
        spec_find_char(s, c, i) < s.len() ==> s[spec_find_char(s, c, i)] == c,
        forall|k: int| i <= k < spec_find_char(s, c, i) ==> #[trigger] s[k] != c,
    decreases s.len() - i,
{
    if i < s.len() && s[i] != c {
        lemma_find_char_bounds(s, c, i + 1);
    }
}

/// Index of the first `c` in `s`, or the length when there is none.
pub fn find_char(s: &str, c: char) -> (r: usize)
    ensures
        r == spec_find_char(s@, c, 0),
{
    let n = s.unicode_len();
    let mut i: usize = 0;
    while i < n && s.get_char(i) != c
        invariant
            i <= n,
            n == s@.len(),
            spec_find_char(s@, c, 0) == spec_find_char(s@, c, i as int),
        decreases n - i,
    {
        i += 1;
    }
    i
}

} // verus!
