//! String literals of the scripting language: their delimiters, prefixes
//! and escape sequences.

use vstd::prelude::*;
use crate::text::push_char;

verus! {

/// Starting character, indicating the type of string.
#[derive(Debug, Clone, Copy, PartialEq, Eq, Structural, Hash)]
pub enum StringPrefix {
    Plain,
    Raw,
    StringName,
    NodePath,
}

/// Type of string literal.
#[derive(Debug, Clone, Copy, PartialEq, Eq, Structural, Hash)]
pub struct StringType {
    pub prefix: StringPrefix,
    /// If true, the string uses three copies of the quote character in
    /// the starting and ending delimiter. If false, the string uses one
    /// copy.
    pub triple_quoted: bool,
    pub quote_type: char,
}

/// String literal within a source file.
#[derive(Debug, Clone, PartialEq, Eq, Hash)]
pub struct GdString {
    pub string_type: StringType,
    pub contents: String,
}

/// The error on a malformed string literal.
#[derive(Debug, Clone)]
pub enum StringLitFromStrError {
    InvalidOpeningDelim,
    InvalidClosingDelim,
    InvalidEscapeSequence(InvalidEscapeSequence),
}

/// The error on a malformed escape sequence.
#[derive(Debug, Clone)]
pub struct InvalidEscapeSequence;

/// The characters a prefix is written as.
pub open spec fn prefix_symbol_spec(p: StringPrefix) -> Seq<char> {
    match p {
        StringPrefix::Plain => Seq::<char>::empty(),
        StringPrefix::Raw => seq!['r'],
        StringPrefix::StringName => seq!['&'],
        StringPrefix::NodePath => seq!['^'],
    }
}

/// The closing delimiter of a string type.
pub open spec fn end_delim_spec(t: StringType) -> Seq<char> {
    if t.triple_quoted {
        seq![t.quote_type, t.quote_type, t.quote_type]
    } else {
        seq![t.quote_type]
    }
}

impl GdString {
    /// Wraps already-unescaped contents under the given string type.
    pub fn new(string_type: StringType, contents: String) -> (r: GdString)
        ensures
            r.string_type == string_type,
            r.contents@ == contents@,
    {
        GdString { string_type, contents }
    }

    /// Wraps contents as an ordinary double-quoted string.
    pub fn simple(contents: String) -> (r: GdString)
        ensures
            r.string_type == (StringType {
                prefix: StringPrefix::Plain,
                triple_quoted: false,
                quote_type: '"',
            }),
            r.contents@ == contents@,
    {
        GdString {
            string_type: StringType { prefix: StringPrefix::Plain, triple_quoted: false, quote_type: '"' },
            contents,
        }
    }
}

impl StringType {
    /// The opening delimiter: the prefix symbol, then the quotes.
    pub fn start_delim(&self) -> (r: String)
        ensures
            r@ == prefix_symbol_spec(self.prefix) + end_delim_spec(*self),
    {
        let mut out = String::new();
        match self.prefix {
            StringPrefix::Plain => {}
            StringPrefix::Raw => {
                push_char(&mut out, 'r');
            }
            StringPrefix::StringName => {
                push_char(&mut out, '&');
            }
            StringPrefix::NodePath => {
                push_char(&mut out, '^');
            }
        }
        push_char(&mut out, self.quote_type);
        if self.triple_quoted {
            push_char(&mut out, self.quote_type);
            push_char(&mut out, self.quote_type);
        }
        proof {
            assert(out@ =~= prefix_symbol_spec(self.prefix) + end_delim_spec(*self));
        }
        out
    }

    /// The closing delimiter: one or three quotes.
    pub fn end_delim(&self) -> (r: String)
        ensures
            r@ == end_delim_spec(*self),
    {
        let mut out = String::new();
        push_char(&mut out, self.quote_type);
        if self.triple_quoted {
            push_char(&mut out, self.quote_type);
            push_char(&mut out, self.quote_type);
        }
        proof {
            assert(out@ =~= end_delim_spec(*self));
        }
        out
    }

    /// Raw strings take their backslashes literally; all other string
    /// types interpret escape sequences.
    pub fn admits_escape_sequences(&self) -> (r: bool)
        ensures
            r == (self.prefix != StringPrefix::Raw),
    {
        match self.prefix {
            StringPrefix::Raw => false,
            _ => true,
        }
    }
}

/// Whether `c` is a hexadecimal digit.
pub open spec fn is_hex_digit(c: char) -> bool {
    ('0' <= c && c <= '9') || ('a' <= c && c <= 'f') || ('A' <= c && c <= 'F')
}

/// The value of a hexadecimal digit.
pub open spec fn hex_digit_val(c: char) -> int {
    if '0' <= c && c <= '9' {
        c as int - '0' as int
    } else if 'a' <= c && c <= 'f' {
        c as int - 'a' as int + 10
    } else {
        c as int - 'A' as int + 10
    }
}

/// The value of a sequence of hexadecimal digits, most significant first.
pub open spec fn hex_val(s: Seq<char>) -> int
    decreases s.len(),
{
    if s.len() == 0 {
        0
    } else {
        hex_val(s.drop_last()) * 16 + hex_digit_val(s.last())
    }
}

/// Sixteen to the `k`.
pub open spec fn pow16(k: nat) -> int
    decreases k,
{
    if k == 0 {
        1
    } else {
        16 * pow16((k - 1) as nat)
    }
}

/// Whether `x` is a Unicode scalar value, which is exactly when
/// `char::from_u32` succeeds.
pub open spec fn is_scalar_value(x: u32) -> bool {
    x < 0xD800 || (0xE000 <= x && x <= 0x10FFFF)
}

/// Relies on `char::from_u32`: it returns the character with code `x`
/// exactly when `x` is a Unicode scalar value (not a surrogate, not past
/// the maximum), and `None` otherwise.
#[verifier::external_body]
fn char_from_u32(x: u32) -> (r: Option<char>)
    ensures
        match r {
            Some(c) => is_scalar_value(x) && c == x as char && c as u32 == x,
            None => !is_scalar_value(x),
        },
{
    char::from_u32(x)
}

/// Decides whether `c` is a hexadecimal digit.
fn hex_digit(c: char) -> (r: bool)
    ensures
        r == is_hex_digit(c),
{
    ('0' <= c && c <= '9') || ('a' <= c && c <= 'f') || ('A' <= c && c <= 'F')
}

/// What a one-character escape stands for; `None` for the two escapes
/// that read further characters and for invalid escapes.
pub open spec fn simple_escape_spec(c: char) -> Option<char> {
    match c {
        'n' => Some('\n'),
        't' => Some('\t'),
        'r' => Some('\r'),
        'a' => Some('\u{7}'),
        'b' => Some('\u{8}'),
        'f' => Some('\u{c}'),
        'v' => Some('\u{b}'),
        '"' => Some('"'),
        '\'' => Some('\''),
        '\\' => Some('\\'),
        _ => None,
    }
}

/// Whether `count` hexadecimal digits sit at position `i`.
pub open spec fn hex_run(s: Seq<char>, i: int, count: int) -> bool {
    forall|k: int| i <= k < i + count ==> is_hex_digit(#[trigger] s[k])
}

/// What reading a unicode escape of `count` digits at `pos` gives: the
/// character and the position after it, or nothing when the digits are
/// missing, malformed, or name no scalar value.
pub open spec fn unicode_escape_spec(s: Seq<char>, pos: int, count: int) -> Option<(char, int)> {
    if 0 <= pos && pos + count <= s.len() && hex_run(s, pos, count) && is_scalar_value(
        hex_val(s.subrange(pos, pos + count)) as u32,
    ) {
        Some(((hex_val(s.subrange(pos, pos + count)) as u32) as char, pos + count))
    } else {
        None
    }
}

/// Reads a unicode escape of exactly `digit_count` hexadecimal digits at
/// position `pos`, returning the character and the position after it.
pub fn read_unicode_escape(chars: &Vec<char>, pos: usize, digit_count: usize) -> (r: Result<
    (char, usize),
    InvalidEscapeSequence,
>)
    requires
        pos <= chars@.len(),
        digit_count <= 6,
    ensures
        match unicode_escape_spec(chars@, pos as int, digit_count as int) {
            Some(p0) => r matches Ok(p) && p.0 == p0.0 && p.1 == p0.1 && p.1 <= chars@.len(),
            None => r is Err,
        },
{
    if digit_count > chars.len() - pos {
        return Err(InvalidEscapeSequence);
    }
    proof {
        assert(pow16(0) == 1);
        assert(pow16(1) == 16);
        assert(pow16(2) == 256);
        assert(pow16(3) == 4096);
        assert(pow16(4) == 65536);
        assert(pow16(5) == 0x100000);
        assert(pow16(6) == 0x1000000);
    }
    let n = chars.len();
    let mut value: u32 = 0;
    let mut i = pos;
    while i < pos + digit_count
        invariant
            chars@.len() == n,
            pos <= i <= pos + digit_count <= chars@.len(),
            digit_count <= 6,
            forall|k: int| pos <= k < i ==> is_hex_digit(#[trigger] chars@[k]),
            value == hex_val(chars@.subrange(pos as int, i as int)),
            value < pow16((i - pos) as nat),
            pow16(1) == 16 && pow16(2) == 256 && pow16(3) == 4096 && pow16(4) == 65536 && pow16(5)
                == 0x100000 && pow16(6) == 0x1000000,
        decreases pos + digit_count - i,
    {
        let c = chars[i];
        if !hex_digit(c) {
            proof {
                assert(!is_hex_digit(chars@[i as int]));
            }
            return Err(InvalidEscapeSequence);
        }
        let d: u32 = if '0' <= c && c <= '9' {
            c as u32 - '0' as u32
        } else if 'a' <= c && c <= 'f' {
            c as u32 - 'a' as u32 + 10
        } else {
            c as u32 - 'A' as u32 + 10
        };
        let ghost ext = chars@.subrange(pos as int, i + 1 as int);
        proof {
            assert(ext.drop_last() =~= chars@.subrange(pos as int, i as int));
            assert(ext.last() == chars@[i as int]);
            assert(pow16(((i + 1) - pos) as nat) == 16 * pow16((i - pos) as nat));
            assert(d < 16 && hex_digit_val(chars@[i as int]) == d);
        }
        value = value * 16 + d;
        i = i + 1;
    }
    match char_from_u32(value) {
        Some(c) => {
            proof {
                assert(hex_run(chars@, pos as int, digit_count as int));
            }
            Ok((c, pos + digit_count))
        }
        None => Err(InvalidEscapeSequence),
    }
}

/// What reading the remainder of an escape sequence (after the
/// backslash) at `pos` gives: the character it stands for and the
/// position after the sequence, or nothing for a malformed escape.
pub open spec fn escape_read_spec(s: Seq<char>, pos: int) -> Option<(char, int)> {
    if pos < 0 || pos >= s.len() {
        None
    } else {
        match simple_escape_spec(s[pos]) {
            Some(c) => Some((c, pos + 1)),
            None => if s[pos] == 'u' {
                unicode_escape_spec(s, pos + 1, 4)
            } else if s[pos] == 'U' {
                unicode_escape_spec(s, pos + 1, 6)
            } else {
                None
            },
        }
    }
}

/// Reads the remainder of an escape sequence (after the backslash) at
/// position `pos`, returning the character it stands for and the
/// position after the sequence.
pub fn interpret_escape_char(chars: &Vec<char>, pos: usize) -> (r: Result<
    (char, usize),
    InvalidEscapeSequence,
>)
    requires
        pos <= chars@.len(),
    ensures
        match escape_read_spec(chars@, pos as int) {
            Some(p0) => r matches Ok(p) && p.0 == p0.0 && p.1 == p0.1 && p.1 <= chars@.len(),
            None => r is Err,
        },
{
    if pos >= chars.len() {
        return Err(InvalidEscapeSequence);
    }
    let c = chars[pos];
    match c {
        'n' => Ok(('\n', pos + 1)),
        't' => Ok(('\t', pos + 1)),
        'r' => Ok(('\r', pos + 1)),
        'a' => Ok(('\u{7}', pos + 1)),
        'b' => Ok(('\u{8}', pos + 1)),
        'f' => Ok(('\u{c}', pos + 1)),
        'v' => Ok(('\u{b}', pos + 1)),
        '"' => Ok(('"', pos + 1)),
        '\'' => Ok(('\'', pos + 1)),
        '\\' => Ok(('\\', pos + 1)),
        'u' => read_unicode_escape(chars, pos + 1, 4),
        'U' => read_unicode_escape(chars, pos + 1, 6),
        _ => Err(InvalidEscapeSequence),
    }
}


/// The prefix read off the front of a literal, and how many characters
/// it took.
pub open spec fn read_prefix_spec(s: Seq<char>) -> (StringPrefix, int) {
    if s.len() > 0 && s[0] == 'r' {
        (StringPrefix::Raw, 1)
    } else if s.len() > 0 && s[0] == '&' {
        (StringPrefix::StringName, 1)
    } else if s.len() > 0 && s[0] == '^' {
        (StringPrefix::NodePath, 1)
    } else {
        (StringPrefix::Plain, 0)
    }
}

/// Reads the string-type prefix off the front of `chars` at `pos`,
/// returning the prefix and the position after it.
pub fn read_string_prefix(chars: &Vec<char>, pos: usize) -> (r: (StringPrefix, usize))
    requires
        pos <= chars@.len(),
    ensures
        ({
            let (p, used) = read_prefix_spec(chars@.skip(pos as int));
            r.0 == p && r.1 == pos + used && r.1 <= chars@.len()
        }),
{
    proof {
        if pos < chars@.len() {
            assert(chars@.skip(pos as int)[0] == chars@[pos as int]);
        }
    }
    if pos < chars.len() {
        let c = chars[pos];
        if c == 'r' {
            return (StringPrefix::Raw, pos + 1);
        }
        if c == '&' {
            return (StringPrefix::StringName, pos + 1);
        }
        if c == '^' {
            return (StringPrefix::NodePath, pos + 1);
        }
    }
    (StringPrefix::Plain, pos)
}

/// The quoting read off the front of a literal: whether it is triple
/// quoted, which quote character it uses, and how many characters the
/// opening delimiter took. Empty single-quoted strings are special: two
/// bare quotes open and close immediately rather than starting a triple
/// quote.
pub open spec fn read_delim_spec(s: Seq<char>) -> Option<(bool, char, int)> {
    if s.len() == 2 && s[0] == '"' && s[1] == '"' {
        Some((false, '"', 1))
    } else if s.len() == 2 && s[0] == '\'' && s[1] == '\'' {
        Some((false, '\'', 1))
    } else if s.len() == 0 || (s[0] != '"' && s[0] != '\'') {
        None
    } else if s.len() >= 2 && s[1] == s[0] {
        if s.len() >= 3 && s[2] == s[0] {
            Some((true, s[0], 3))
        } else {
            None
        }
    } else if s.len() >= 2 {
        Some((false, s[0], 1))
    } else {
        None
    }
}

/// Reads the opening delimiter at `pos`, returning the quoting shape
/// and the position after it.
pub fn read_delimiter(chars: &Vec<char>, pos: usize) -> (r: Option<(bool, char, usize)>)
    requires
        pos <= chars@.len(),
    ensures
        match read_delim_spec(chars@.skip(pos as int)) {
            Some(d) => r matches Some(e) && e.0 == d.0 && e.1 == d.1 && e.2 == pos + d.2 && e.2
                <= chars@.len(),
            None => r is None,
        },
{
    proof {
        let t = chars@.skip(pos as int);
        assert(t.len() == chars@.len() - pos);
        assert forall|k: int| 0 <= k < t.len() implies t[k] == chars@[pos + k] by {}
    }
    let n = chars.len();
    if n - pos == 2 && chars[pos] == '"' && chars[pos + 1] == '"' {
        return Some((false, '"', pos + 1));
    }
    if n - pos == 2 && chars[pos] == '\'' && chars[pos + 1] == '\'' {
        return Some((false, '\'', pos + 1));
    }
    if pos >= n {
        return None;
    }
    let q = chars[pos];
    if q != '"' && q != '\'' {
        return None;
    }
    if pos + 1 < n && chars[pos + 1] == q {
        if pos + 2 < n && chars[pos + 2] == q {
            Some((true, q, pos + 3))
        } else {
            None
        }
    } else if pos + 1 < n {
        Some((false, q, pos + 1))
    } else {
        None
    }
}

/// The unescaped contents of the inner text of a literal: `None` on a
/// malformed escape. Raw strings take every character literally.
pub open spec fn unescape_spec(s: Seq<char>, admits: bool) -> Option<Seq<char>>
    decreases s.len(),
{
    if s.len() == 0 {
        Some(Seq::<char>::empty())
    } else if s[0] == '\\' && admits {
        if s.len() >= 2 {
            match simple_escape_spec(s[1]) {
                Some(c) => match unescape_spec(s.skip(2), admits) {
                    Some(rest) => Some(seq![c] + rest),
                    None => None,
                },
                None => if s[1] == 'u' && s.len() >= 6 && hex_run(s, 2, 4) && is_scalar_value(
                    hex_val(s.subrange(2, 6)) as u32,
                ) {
                    match unescape_spec(s.skip(6), admits) {
                        Some(rest) => Some(seq![spec_char_of(hex_val(s.subrange(2, 6)) as u32)] + rest),
                        None => None,
                    }
                } else if s[1] == 'U' && s.len() >= 8 && hex_run(s, 2, 6) && is_scalar_value(
                    hex_val(s.subrange(2, 8)) as u32,
                ) {
                    match unescape_spec(s.skip(8), admits) {
                        Some(rest) => Some(seq![spec_char_of(hex_val(s.subrange(2, 8)) as u32)] + rest),
                        None => None,
                    }
                } else {
                    None
                },
            }
        } else {
            None
        }
    } else {
        match unescape_spec(s.drop_first(), admits) {
            Some(rest) => Some(seq![s[0]] + rest),
            None => None,
        }
    }
}

/// The character with Unicode code `x`.
pub open spec fn spec_char_of(x: u32) -> char {
    x as char
}

/// One successful escape read corresponds to one step of unescaping.
pub proof fn lemma_escape_step(s: Seq<char>, i: int, end: int, ch: char, next: int)
    requires
        0 <= i,
        i + 1 <= end <= s.len(),
        s[i] == '\\',
        escape_read_spec(s, i + 1) matches Some(p) && p.0 == ch && p.1 == next,
        next <= end,
    ensures
        ({
            let tail = s.subrange(i, end);
            match unescape_spec(s.subrange(next, end), true) {
                Some(rest) => unescape_spec(tail, true) == Some(seq![ch] + rest),
                None => unescape_spec(tail, true) is None,
            }
        }),
{
    let tail = s.subrange(i, end);
    assert(tail[0] == s[i]);
    assert(i + 1 < s.len());
    if i + 1 < end {
        assert(tail[1] == s[i + 1]);
    }
    match simple_escape_spec(s[i + 1]) {
        Some(c) => {
            assert(next == i + 2);
            assert(tail.len() >= 2);
            assert(tail.skip(2) =~= s.subrange(next, end));
            assert(simple_escape_spec(tail[1]) == Some(c));
        }
        None => {
            if s[i + 1] == 'u' {
                assert(unicode_escape_spec(s, i + 2, 4) matches Some(q) && q.1 == next);
                assert(next == i + 6);
                assert(i + 6 <= end);
                assert(tail.len() >= 6);
                assert(hex_run(s, i + 2, 4));
                assert forall|k: int| 2 <= k < 6 implies is_hex_digit(#[trigger] tail[k]) by {
                    assert(tail[k] == s[i + k]);
                }
                assert(hex_run(tail, 2, 4));
                assert(tail.subrange(2, 6) =~= s.subrange(i + 2, i + 6));
                assert(tail.skip(6) =~= s.subrange(next, end));
            } else {
                assert(s[i + 1] == 'U');
                assert(unicode_escape_spec(s, i + 2, 6) matches Some(q) && q.1 == next);
                assert(next == i + 8);
                assert(tail.len() >= 8);
                assert(hex_run(s, i + 2, 6));
                assert forall|k: int| 2 <= k < 8 implies is_hex_digit(#[trigger] tail[k]) by {
                    assert(tail[k] == s[i + k]);
                }
                assert(hex_run(tail, 2, 6));
                assert(tail.subrange(2, 8) =~= s.subrange(i + 2, i + 8));
                assert(tail.skip(8) =~= s.subrange(next, end));
            }
        }
    }
}

/// A failed escape read means the rest of the text cannot be unescaped.
pub proof fn lemma_escape_fails(s: Seq<char>, i: int, end: int)
    requires
        0 <= i < end <= s.len(),
        s[i] == '\\',
        ({
            let p = escape_read_spec(s, i + 1);
            p is None || (p matches Some(q) && q.1 > end)
        }),
    ensures
        unescape_spec(s.subrange(i, end), true) is None,
{
    let tail = s.subrange(i, end);
    assert(tail[0] == s[i]);
    if tail.len() >= 2 {
        assert(tail[1] == s[i + 1]);
        match simple_escape_spec(s[i + 1]) {
            Some(c) => {
                // The simple escape always fits within two characters, so
                // a failing read can only mean it overran the body, which
                // a one-character escape cannot.
                assert(escape_read_spec(s, i + 1) == Some((c, i + 2)));
                assert(i + 2 > end);
                assert(tail.len() < 2);
            }
            None => {
                if s[i + 1] == 'u' {
                    if tail.len() >= 6 && hex_run(tail, 2, 4) && is_scalar_value(
                        hex_val(tail.subrange(2, 6)) as u32,
                    ) {
                        assert forall|k: int| i + 2 <= k < i + 6 implies is_hex_digit(
                            #[trigger] s[k],
                        ) by {
                            assert(s[k] == tail[k - i]);
                        }
                        assert(tail.subrange(2, 6) =~= s.subrange(i + 2, i + 6));
                        assert(unicode_escape_spec(s, i + 2, 4) == Some(
                            ((hex_val(s.subrange(i + 2, i + 6)) as u32) as char, i + 6),
                        ));
                        assert(i + 6 > end);
                        assert(tail.len() < 6);
                    }
                } else if s[i + 1] == 'U' {
                    if tail.len() >= 8 && hex_run(tail, 2, 6) && is_scalar_value(
                        hex_val(tail.subrange(2, 8)) as u32,
                    ) {
                        assert forall|k: int| i + 2 <= k < i + 8 implies is_hex_digit(
                            #[trigger] s[k],
                        ) by {
                            assert(s[k] == tail[k - i]);
                        }
                        assert(tail.subrange(2, 8) =~= s.subrange(i + 2, i + 8));
                        assert(unicode_escape_spec(s, i + 2, 6) == Some(
                            ((hex_val(s.subrange(i + 2, i + 8)) as u32) as char, i + 8),
                        ));
                        assert(i + 8 > end);
                        assert(tail.len() < 8);
                    }
                }
            }
        }
    }
}

/// The error on a whole string literal.
pub open spec fn parse_gd_string_spec(s: Seq<char>) -> Option<(StringType, Seq<char>)> {
    let (prefix, after_prefix) = read_prefix_spec(s);
    match read_delim_spec(s.skip(after_prefix)) {
        None => None,
        Some((triple, quote, used)) => {
            let body_start = after_prefix + used;
            let delim_len: int = if triple {
                3
            } else {
                1
            };
            if s.len() - delim_len < body_start {
                None
            } else {
                let body = s.subrange(body_start, s.len() - delim_len);
                let t = StringType { prefix, triple_quoted: triple, quote_type: quote };
                match unescape_spec(body, prefix != StringPrefix::Raw) {
                    Some(contents) => Some((t, contents)),
                    None => None,
                }
            }
        },
    }
}

impl GdString {
    /// Parses a whole string literal: the prefix, the opening
    /// delimiter, the unescaped contents, and the closing delimiter.
    /// The closing delimiter is not verified against the opening one
    /// beyond its length.
    pub fn parse(s: &str) -> (r: Result<GdString, StringLitFromStrError>)
        ensures
            match parse_gd_string_spec(s@) {
                Some(p) => r matches Ok(g) && g.string_type == p.0 && g.contents@ == p.1,
                None => r is Err,
            },
    {
        let chars = crate::text::chars_of(s);
        let (prefix, after_prefix) = read_string_prefix(&chars, 0);
        let (triple, quote, body_start) = match read_delimiter(&chars, after_prefix) {
            Some(d) => d,
            None => {
                return Err(StringLitFromStrError::InvalidOpeningDelim);
            }
        };
        let delim_len: usize = if triple {
            3
        } else {
            1
        };
        if chars.len() < delim_len || chars.len() - delim_len < body_start {
            return Err(StringLitFromStrError::InvalidClosingDelim);
        }
        let body_end = chars.len() - delim_len;
        let ghost body = chars@.subrange(body_start as int, body_end as int);
        let admits = !matches!(prefix, StringPrefix::Raw);
        let ghost shape = StringType { prefix, triple_quoted: triple, quote_type: quote };
        proof {
            assert(chars@.skip(0) =~= chars@);
        }
        let mut contents: Vec<char> = Vec::new();
        let mut i = body_start;
        while i < body_end
            invariant
                body_start <= i <= body_end <= chars@.len(),
                chars@ == s@,
                body == chars@.subrange(body_start as int, body_end as int),
                admits == (match prefix {
                    StringPrefix::Raw => false,
                    _ => true,
                }),
                shape == (StringType { prefix, triple_quoted: triple, quote_type: quote }),
                match unescape_spec(body, admits) {
                    Some(c2) => parse_gd_string_spec(s@) == Some((shape, c2)),
                    None => parse_gd_string_spec(s@) is None,
                },
                match unescape_spec(chars@.subrange(i as int, body_end as int), admits) {
                    Some(rest) => unescape_spec(body, admits) == Some(contents@ + rest),
                    None => unescape_spec(body, admits) is None,
                },
            decreases body_end - i,
        {
            let ghost tail = chars@.subrange(i as int, body_end as int);
            let c = chars[i];
            if c == '\\' && admits {
                match interpret_escape_char(&chars, i + 1) {
                    Ok((ch, next)) => {
                        if next > body_end {
                            proof {
                                lemma_escape_fails(chars@, i as int, body_end as int);
                            }
                            return Err(
                                StringLitFromStrError::InvalidEscapeSequence(
                                    InvalidEscapeSequence,
                                ),
                            );
                        }
                        proof {
                            lemma_escape_step(chars@, i as int, body_end as int, ch, next as int);
                        }
                        contents.push(ch);
                        i = next;
                    }
                    Err(e) => {
                        proof {
                            lemma_escape_fails(chars@, i as int, body_end as int);
                        }
                        return Err(StringLitFromStrError::InvalidEscapeSequence(e));
                    }
                }
            } else {
                proof {
                    assert(tail[0] == chars@[i as int]);
                    assert(tail.drop_first() =~= chars@.subrange(i + 1, body_end as int));
                }
                contents.push(c);
                i = i + 1;
            }
        }
        proof {
            assert(chars@.subrange(body_end as int, body_end as int)
                =~= Seq::<char>::empty());
            assert(contents@ + Seq::<char>::empty() =~= contents@);
        }
        let text = crate::text::string_from_chars(&contents);
        Ok(GdString {
            string_type: StringType { prefix, triple_quoted: triple, quote_type: quote },
            contents: text,
        })
    }
}

impl core::str::FromStr for GdString {
    type Err = StringLitFromStrError;

    fn from_str(s: &str) -> Result<GdString, StringLitFromStrError> {
        GdString::parse(s)
    }
}

} // verus!
