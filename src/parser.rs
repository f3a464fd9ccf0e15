use vstd::prelude::*;
use crate::ast::{Form, NumVal};
use crate::error::{Error, Expected};

verus! {

/// Whether `c` has the Unicode `Alphabetic` property.
pub uninterp spec fn alphabetic(c: char) -> bool;

/// Whether `c` is alphabetic or numeric in Unicode's sense.
pub uninterp spec fn alphanumeric(c: char) -> bool;

/// The punctuation that may start an identifier. Besides the R6RS special
/// initials `! $ % : ^ < > _ ~ \ ?`, `=`, `*` and `/` are accepted (so
/// they may also appear anywhere later in a name), so that the arithmetic
/// and comparison operators `= * / >= <=` are names; a lone `+` or `-` is a
/// name too (see `peculiar_at`).
pub open spec fn is_special_initial(c: char) -> bool {
    c == '!' || c == '$' || c == '%' || c == ':' || c == '^' || c == '<' || c == '>' || c == '_'
        || c == '~' || c == '\\' || c == '?' || c == '=' || c == '*' || c == '/'
}

/// A character that may start an identifier.
pub open spec fn is_initial(c: char) -> bool {
    alphabetic(c) || is_special_initial(c)
}

/// A character that may continue an identifier.
pub open spec fn is_subsequent(c: char) -> bool {
    alphanumeric(c) || is_special_initial(c) || c == '+' || c == '-' || c == '.' || c == '@'
}

/// White space between tokens.
pub open spec fn is_space(c: char) -> bool {
    c == ' ' || c == '\t' || c == '\n' || c == '\r' || c == '\x0B' || c == '\x0C'
}

/// A digit of `radix` (10 or 16, either case).
pub open spec fn is_digit_in(c: char, radix: u64) -> bool {
    ('0' <= c && c <= '9') || (radix == 16 && (('a' <= c && c <= 'f') || ('A' <= c && c <= 'F')))
}

/// The value of a decimal or hex digit.
pub open spec fn digit_value(c: char) -> int {
    if '0' <= c && c <= '9' {
        c as u32 - '0' as u32
    } else if 'a' <= c && c <= 'f' {
        c as u32 - 'a' as u32 + 10
    } else {
        c as u32 - 'A' as u32 + 10
    }
}

/// The first position at or after `i` that does not hold white space.
pub open spec fn skip_space(s: Seq<char>, i: int) -> int
    decreases s.len() - i,
{
    if 0 <= i < s.len() && is_space(s[i]) {
        skip_space(s, i + 1)
    } else {
        i
    }
}

/// The first position at or after `i` that holds no identifier character.
pub open spec fn subsequent_end(s: Seq<char>, i: int) -> int
    decreases s.len() - i,
{
    if 0 <= i < s.len() && is_subsequent(s[i]) {
        subsequent_end(s, i + 1)
    } else {
        i
    }
}

/// The first position at or after `i` that holds no digit of `radix`.
pub open spec fn digits_end(s: Seq<char>, i: int, radix: u64) -> int
    decreases s.len() - i,
{
    if 0 <= i < s.len() && is_digit_in(s[i], radix) {
        digits_end(s, i + 1, radix)
    } else {
        i
    }
}

/// The number that the digits `s[a..b]` write in `radix`.
pub open spec fn value_of(s: Seq<char>, a: int, b: int, radix: u64) -> int
    decreases b - a,
{
    if b <= a {
        0
    } else {
        value_of(s, a, b - 1, radix) * radix + digit_value(s[b - 1])
    }
}

/// Skipping white space never moves backwards, nor past the end.
pub proof fn lemma_skip_space(s: Seq<char>, i: int)
    ensures
        skip_space(s, i) >= i,
        i <= s.len() ==> skip_space(s, i) <= s.len(),
    decreases s.len() - i,
{
    if 0 <= i < s.len() && is_space(s[i]) {
        lemma_skip_space(s, i + 1);
    }
}

/// An identifier run never ends before it starts, nor past the end.
pub proof fn lemma_subsequent_end(s: Seq<char>, i: int)
    ensures
        subsequent_end(s, i) >= i,
        i <= s.len() ==> subsequent_end(s, i) <= s.len(),
    decreases s.len() - i,
{
    if 0 <= i < s.len() && is_subsequent(s[i]) {
        lemma_subsequent_end(s, i + 1);
    }
}

/// The end of a run of at least one digit of `radix` starting at `i`.
pub open spec fn digits_at(s: Seq<char>, i: int, radix: u64) -> Option<int> {
    if 0 <= i < s.len() && is_digit_in(s[i], radix) {
        Some(digits_end(s, i, radix))
    } else {
        None
    }
}

/// Whether `w` is written in `s` at `pos`.
pub open spec fn word_at(s: Seq<char>, pos: int, w: Seq<char>) -> bool {
    0 <= pos && pos + w.len() <= s.len() && s.subrange(pos, pos + w.len()) == w
}

/// A `+` or `-` that stands alone as an identifier.
pub open spec fn peculiar_at(s: Seq<char>, i: int) -> bool {
    0 <= i < s.len() && (s[i] == '+' || s[i] == '-') && !(i + 1 < s.len() && is_subsequent(
        s[i + 1],
    ))
}

/// An identifier at `pos`: an initial character followed by any number of
/// subsequent ones, or a lone `+` or `-`. Gives its text and its end.
pub open spec fn parse_name(s: Seq<char>, pos: int) -> Result<(Seq<char>, int), Error> {
    if 0 <= pos < s.len() && is_initial(s[pos]) {
        let e = subsequent_end(s, pos + 1);
        Ok((s.subrange(pos, e), e))
    } else if peculiar_at(s, pos) {
        Ok((s.subrange(pos, pos + 1), pos + 1))
    } else {
        Err(Error::ParseError { position: pos as usize, expected: Expected::Name })
    }
}

/// How many characters a true literal takes at `pos` (0 when none is there).
pub open spec fn word_true(s: Seq<char>, pos: int) -> int {
    if word_at(s, pos, "#t"@) || word_at(s, pos, "#T"@) {
        2
    } else if word_at(s, pos, "true"@) {
        4
    } else {
        0
    }
}

/// How many characters a false literal takes at `pos` (0 when none is there).
pub open spec fn word_false(s: Seq<char>, pos: int) -> int {
    if word_at(s, pos, "#f"@) || word_at(s, pos, "#F"@) {
        2
    } else if word_at(s, pos, "false"@) {
        5
    } else {
        0
    }
}

/// A boolean at `pos`: `#t`, `#T` or `true`; `#f`, `#F` or `false`.
pub open spec fn parse_bool(s: Seq<char>, pos: int) -> Result<(bool, int), Error> {
    if word_true(s, pos) > 0 {
        Ok((true, pos + word_true(s, pos)))
    } else if word_false(s, pos) > 0 {
        Ok((false, pos + word_false(s, pos)))
    } else {
        Err(Error::ParseError { position: pos as usize, expected: Expected::Boolean })
    }
}

/// `#x` or `#X` and hex digits at `i`: the digits' start and end.
pub open spec fn hex_at(s: Seq<char>, i: int) -> Option<(int, int)> {
    if 0 <= i && i + 1 < s.len() && s[i] == '#' && (s[i + 1] == 'x' || s[i + 1] == 'X') {
        match digits_at(s, i + 2, 16) {
            Some(e) => Some((i + 2, e)),
            None => None,
        }
    } else {
        None
    }
}

/// The digits of a signed or unsigned magnitude at `i`: their start, end
/// and radix. `#d`/`#D` is allowed only where `decimal_prefix` is.
pub open spec fn magnitude_at(s: Seq<char>, i: int, decimal_prefix: bool) -> Option<(int, int, u64)> {
    match hex_at(s, i) {
        Some((a, e)) => Some((a, e, 16)),
        None => {
            let q = if decimal_prefix && 0 <= i && i + 1 < s.len() && s[i] == '#' && (s[i + 1] == 'd'
                || s[i + 1] == 'D') {
                i + 2
            } else {
                i
            };
            match digits_at(s, q, 10) {
                Some(e) => Some((q, e, 10)),
                None => None,
            }
        },
    }
}

/// A character that marks an unsigned or floating-point literal.
pub open spec fn is_number_suffix(c: char) -> bool {
    c == 'u' || c == 'U' || c == '.' || c == 'f' || c == 'F'
}

/// Whether a `-` sign stands at `pos`.
pub open spec fn minus_at(s: Seq<char>, pos: int) -> bool {
    0 <= pos < s.len() && s[pos] == '-'
}

/// Where the digits of a number at `pos` start: after its optional `+` or
/// `-` sign.
pub open spec fn after_sign(s: Seq<char>, pos: int) -> int {
    if 0 <= pos < s.len() && (s[pos] == '+' || s[pos] == '-') {
        pos + 1
    } else {
        pos
    }
}

/// A signed integer at `pos`: an optional `+` or `-`, then hex or decimal
/// digits, not followed by a suffix of another kind of number, in range of
/// `i64`.
pub open spec fn sint_at(s: Seq<char>, pos: int) -> Option<(i64, int)> {
    let neg = minus_at(s, pos);
    let p = after_sign(s, pos);
    match magnitude_at(s, p, true) {
        None => None,
        Some((a, e, radix)) => {
            let m = value_of(s, a, e, radix);
            let v = if neg { -m } else { m };
            if e < s.len() && is_number_suffix(s[e]) {
                None
            } else if i64::MIN <= v <= i64::MAX {
                Some((v as i64, e))
            } else {
                None
            }
        },
    }
}

/// An unsigned integer at `pos`: an optional `+`, hex or decimal digits,
/// then `u` or `U`, in range of `u64`. A `-` sign gives no unsigned integer.
pub open spec fn uint_at(s: Seq<char>, pos: int) -> Option<(u64, int)> {
    if minus_at(s, pos) {
        None
    } else {
        uint_digits_at(s, after_sign(s, pos))
    }
}

/// The digits and suffix of an unsigned integer at `pos`.
pub open spec fn uint_digits_at(s: Seq<char>, pos: int) -> Option<(u64, int)> {
    match magnitude_at(s, pos, false) {
        None => None,
        Some((a, e, radix)) => {
            let m = value_of(s, a, e, radix);
            if e < s.len() && (s[e] == 'u' || s[e] == 'U') && m <= u64::MAX {
                Some((m as u64, e + 1))
            } else {
                None
            }
        },
    }
}

/// A float at `pos`: an optional `+` or `-`, digits, a point, digits, and
/// an optional `f` or `F`. Gives whether it is negative, the digits before
/// and after the point, and its end.
pub open spec fn float_at(s: Seq<char>, pos: int) -> Option<(bool, Seq<char>, Seq<char>, int)> {
    match float_digits_at(s, after_sign(s, pos)) {
        None => None,
        Some((w, f, e)) => Some((minus_at(s, pos), w, f, e)),
    }
}

/// The unsigned part of a float at `pos`.
pub open spec fn float_digits_at(s: Seq<char>, pos: int) -> Option<(Seq<char>, Seq<char>, int)> {
    match digits_at(s, pos, 10) {
        None => None,
        Some(e1) => if e1 < s.len() && s[e1] == '.' {
            match digits_at(s, e1 + 1, 10) {
                None => None,
                Some(e2) => {
                    let end = if e2 < s.len() && (s[e2] == 'f' || s[e2] == 'F') {
                        e2 + 1
                    } else {
                        e2
                    };
                    Some((s.subrange(pos, e1), s.subrange(e1 + 1, e2), end))
                },
            }
        } else {
            None
        },
    }
}

/// A number at `pos`: a signed integer, else an unsigned one, else a float;
/// each may open with a `+` or `-` sign (only `+` for an unsigned one).
pub open spec fn parse_number(s: Seq<char>, pos: int) -> Result<(NumVal, int), Error> {
    match sint_at(s, pos) {
        Some((v, e)) => Ok((NumVal::Int(v), e)),
        None => match uint_at(s, pos) {
            Some((v, e)) => Ok((NumVal::UInt(v), e)),
            None => match float_at(s, pos) {
                Some((neg, w, f, e)) => Ok((NumVal::Float(neg, w, f), e)),
                None => Err(Error::ParseError { position: pos as usize, expected: Expected::Number }),
            },
        },
    }
}

/// A named character after `#\\` at `i`: its code point and end.
pub open spec fn char_name_at(s: Seq<char>, i: int) -> Option<(u32, int)> {
    if word_at(s, i, "newline"@) {
        Some((0x0A, i + "newline"@.len()))
    } else if word_at(s, i, "linefeed"@) {
        Some((0x0A, i + "linefeed"@.len()))
    } else if word_at(s, i, "tab"@) {
        Some((0x09, i + "tab"@.len()))
    } else if word_at(s, i, "vtab"@) {
        Some((0x0B, i + "vtab"@.len()))
    } else if word_at(s, i, "backspace"@) {
        Some((0x08, i + "backspace"@.len()))
    } else if word_at(s, i, "nul"@) {
        Some((0x00, i + "nul"@.len()))
    } else if word_at(s, i, "page"@) {
        Some((0x0C, i + "page"@.len()))
    } else if word_at(s, i, "return"@) {
        Some((0x0D, i + "return"@.len()))
    } else if word_at(s, i, "esc"@) {
        Some((0x1B, i + "esc"@.len()))
    } else if word_at(s, i, "delete"@) {
        Some((0x7F, i + "delete"@.len()))
    } else if word_at(s, i, "alarm"@) {
        Some((0x07, i + "alarm"@.len()))
    } else if word_at(s, i, "space"@) {
        Some((0x20, i + "space"@.len()))
    } else {
        None
    }
}

/// Whether `v` is a Unicode scalar value.
pub open spec fn is_scalar(v: int) -> bool {
    (0 <= v < 0xD800) || (0xE000 <= v <= 0x10FFFF)
}

/// A character constant at `pos`: `#\\` then a character name, `x` or `X`
/// and hex digits naming a scalar value, or any one character. Gives the
/// code point and the end.
pub open spec fn parse_char(s: Seq<char>, pos: int) -> Result<(u32, int), Error> {
    let i = pos + 2;
    let fail = Err(Error::ParseError { position: pos as usize, expected: Expected::Character });
    if !word_at(s, pos, "#\\"@) {
        fail
    } else {
        match char_name_at(s, i) {
            Some(r) => Ok(r),
            None => if i < s.len() && (s[i] == 'x' || s[i] == 'X') && digits_at(s, i + 1, 16) is Some {
                let e = digits_end(s, i + 1, 16);
                let v = value_of(s, i + 1, e, 16);
                if is_scalar(v) {
                    Ok((v as u32, e))
                } else {
                    fail
                }
            } else if i < s.len() {
                Ok((s[i] as u32, i + 1))
            } else {
                fail
            },
        }
    }
}

} // verus!

verus! {

/// Relies on `char::is_alphabetic`, which reports the Unicode `Alphabetic`
/// property of the character.
#[verifier::external_body]
fn is_alphabetic(c: char) -> (r: bool)
    ensures
        r == alphabetic(c),
{
    c.is_alphabetic()
}

/// Relies on `char::is_alphanumeric`, which reports whether the character
/// is alphabetic or numeric.
#[verifier::external_body]
fn is_alphanumeric(c: char) -> (r: bool)
    ensures
        r == alphanumeric(c),
{
    c.is_alphanumeric()
}

/// Relies on `char::from_u32`, which gives the character with code point
/// `v` when `v` is a Unicode scalar value (not a surrogate, at most
/// `0x10FFFF`), and `None` otherwise.
#[verifier::external_body]
fn char_from(v: u32) -> (r: Option<char>)
    ensures
        r is Some <==> (v < 0xD800 || (0xE000 <= v && v <= 0x10FFFF)),
        r matches Some(c) ==> c as u32 == v,
{
    char::from_u32(v)
}

/// Relies on `String`'s `FromIterator<&char>`, which appends the characters
/// in order.
#[verifier::external_body]
pub(crate) fn text_of(v: &Vec<char>) -> (r: String)
    ensures
        r@ == v@,
{
    String::from_iter(v.iter())
}

fn initial_char(c: char) -> (r: bool)
    ensures
        r == is_initial(c),
{
    is_alphabetic(c) || c == '!' || c == '$' || c == '%' || c == ':' || c == '^' || c == '<' || c
        == '>' || c == '_' || c == '~' || c == '\\' || c == '?' || c == '=' || c == '*' || c == '/'
}

fn subsequent_char(c: char) -> (r: bool)
    ensures
        r == is_subsequent(c),
{
    is_alphanumeric(c) || c == '!' || c == '$' || c == '%' || c == ':' || c == '^' || c == '<'
        || c == '>' || c == '_' || c == '~' || c == '\\' || c == '?' || c == '=' || c == '*' || c
        == '/' || c == '+' || c == '-' || c == '.' || c == '@'
}

fn digit_char(c: char, radix: u64) -> (r: bool)
    ensures
        r == is_digit_in(c, radix),
{
    ('0' <= c && c <= '9') || (radix == 16 && (('a' <= c && c <= 'f') || ('A' <= c && c <= 'F')))
}

fn space_char(c: char) -> (r: bool)
    ensures
        r == is_space(c),
{
    c == ' ' || c == '\t' || c == '\n' || c == '\r' || c == '\x0B' || c == '\x0C'
}

/// The first position at or after `pos` that does not hold white space.
pub fn skip_spaces(input: &Vec<char>, pos: usize) -> (r: usize)
    requires
        pos <= input@.len(),
    ensures
        r == skip_space(input@, pos as int),
        pos <= r <= input@.len(),
{
    let mut i = pos;
    while i < input.len() && space_char(input[i])
        invariant
            pos <= i <= input@.len(),
            skip_space(input@, i as int) == skip_space(input@, pos as int),
        decreases input@.len() - i,
    {
        i = i + 1;
    }
    i
}

/// Whether `w` is written in `input` at `pos`.
pub fn at_word(input: &Vec<char>, pos: usize, w: &str) -> (r: bool)
    requires
        pos <= input@.len(),
    ensures
        r == word_at(input@, pos as int, w@),
{
    let n = w.unicode_len();
    if n > input.len() - pos {
        return false;
    }
    let mut k: usize = 0;
    while k < n
        invariant
            n == w@.len(),
            pos + n <= input.len(),
            k <= n,
            forall|j: int| 0 <= j < k ==> input@[pos + j] == w@[j],
        decreases n - k,
    {
        if input[pos + k] != w.get_char(k) {
            assert(input@.subrange(pos as int, pos + n)[k as int] != w@[k as int]);
            return false;
        }
        k = k + 1;
    }
    assert(input@.subrange(pos as int, pos + n) =~= w@);
    true
}

/// Reads a run of digits of `radix` at `pos`: its end, and its value when
/// that fits in `u64`.
fn read_digits(input: &Vec<char>, pos: usize, radix: u64) -> (r: (usize, Option<u64>))
    requires
        pos <= input@.len(),
        radix == 10 || radix == 16,
    ensures
        r.0 == digits_end(input@, pos as int, radix),
        value_of(input@, pos as int, r.0 as int, radix) >= 0,
        value_of(input@, pos as int, r.0 as int, radix) <= u64::MAX ==> r.1 == Some(
            value_of(input@, pos as int, r.0 as int, radix) as u64,
        ),
        value_of(input@, pos as int, r.0 as int, radix) > u64::MAX ==> r.1 is None,
{
    let ghost s = input@;
    let mut i = pos;
    let mut acc: Option<u64> = Some(0);
    while i < input.len() && digit_char(input[i], radix)
        invariant
            pos <= i <= s.len(),
            s == input@,
            radix == 10 || radix == 16,
            digits_end(s, i as int, radix) == digits_end(s, pos as int, radix),
            value_of(s, pos as int, i as int, radix) >= 0,
            value_of(s, pos as int, i as int, radix) <= u64::MAX ==> acc == Some(
                value_of(s, pos as int, i as int, radix) as u64,
            ),
            value_of(s, pos as int, i as int, radix) > u64::MAX ==> acc is None,
        decreases s.len() - i,
    {
        let c = input[i];
        let d: u64 = if '0' <= c && c <= '9' {
            (c as u32 - '0' as u32) as u64
        } else if 'a' <= c && c <= 'f' {
            (c as u32 - 'a' as u32 + 10) as u64
        } else {
            (c as u32 - 'A' as u32 + 10) as u64
        };
        let ghost prev = value_of(s, pos as int, i as int, radix);
        assert(value_of(s, pos as int, i + 1, radix) == prev * radix + d);
        assert(prev >= 0 ==> prev * radix >= prev) by (nonlinear_arith)
            requires radix >= 1;
        acc = match acc {
            None => None,
            Some(a) => match a.checked_mul(radix) {
                None => None,
                Some(m) => m.checked_add(d),
            },
        };
        i = i + 1;
    }
    (i, acc)
}

} // verus!

verus! {

use crate::ast::{BoolNode, CharNode, FloatNode, IntNode, NameNode, NumNode, UIntNode};

/// The text and end of a parsed name.
pub open spec fn name_view(r: Result<(NameNode, usize), Error>) -> Result<(Seq<char>, int), Error> {
    match r {
        Ok((n, e)) => Ok((n.name@, e as int)),
        Err(x) => Err(x),
    }
}

/// The value and end of a parsed boolean.
pub open spec fn bool_view(r: Result<(BoolNode, usize), Error>) -> Result<(bool, int), Error> {
    match r {
        Ok((b, e)) => Ok((b.value, e as int)),
        Err(x) => Err(x),
    }
}

/// The code point and end of a parsed character.
pub open spec fn char_view(r: Result<(CharNode, usize), Error>) -> Result<(u32, int), Error> {
    match r {
        Ok((c, e)) => Ok((c.value as u32, e as int)),
        Err(x) => Err(x),
    }
}

/// The value and end of a parsed number.
pub open spec fn num_view(r: Result<(NumNode, usize), Error>) -> Result<(NumVal, int), Error> {
    match r {
        Ok((n, e)) => Ok((crate::ast::num_val(n), e as int)),
        Err(x) => Err(x),
    }
}

/// The characters `input[a..b]`.
fn slice_chars(input: &Vec<char>, a: usize, b: usize) -> (r: Vec<char>)
    requires
        a <= b <= input@.len(),
    ensures
        r@ == input@.subrange(a as int, b as int),
{
    let mut v: Vec<char> = Vec::new();
    let mut i = a;
    while i < b
        invariant
            a <= i <= b <= input@.len(),
            v@ == input@.subrange(a as int, i as int),
        decreases b - i,
    {
        v.push(input[i]);
        i = i + 1;
        assert(v@ =~= input@.subrange(a as int, i as int));
    }
    v
}

/// Parses an identifier at `pos`.
pub fn name(input: &Vec<char>, pos: usize) -> (r: Result<(NameNode, usize), Error>)
    requires
        pos <= input@.len(),
    ensures
        name_view(r) == parse_name(input@, pos as int),
{
    if pos < input.len() && initial_char(input[pos]) {
        let mut i = pos + 1;
        while i < input.len() && subsequent_char(input[i])
            invariant
                pos + 1 <= i <= input@.len(),
                subsequent_end(input@, i as int) == subsequent_end(input@, pos + 1),
            decreases input@.len() - i,
        {
            i = i + 1;
        }
        let v = slice_chars(input, pos, i);
        Ok((NameNode { name: text_of(&v) }, i))
    } else if pos < input.len() && (input[pos] == '+' || input[pos] == '-') && !(pos + 1
        < input.len() && subsequent_char(input[pos + 1])) {
        let v = slice_chars(input, pos, pos + 1);
        Ok((NameNode { name: text_of(&v) }, pos + 1))
    } else {
        Err(Error::ParseError { position: pos, expected: Expected::Name })
    }
}

/// Parses a boolean constant at `pos`.
pub fn bool_const(input: &Vec<char>, pos: usize) -> (r: Result<(BoolNode, usize), Error>)
    requires
        pos <= input@.len(),
    ensures
        bool_view(r) == parse_bool(input@, pos as int),
        r matches Ok((_, e)) ==> pos < e <= input@.len(),
{
    proof {
        reveal_strlit("#t");
        reveal_strlit("#T");
        reveal_strlit("true");
        reveal_strlit("#f");
        reveal_strlit("#F");
        reveal_strlit("false");
    }
    let _len = input.len();
    if at_word(input, pos, "#t") || at_word(input, pos, "#T") {
        Ok((BoolNode { value: true }, pos + 2))
    } else if at_word(input, pos, "true") {
        Ok((BoolNode { value: true }, pos + 4))
    } else if at_word(input, pos, "#f") || at_word(input, pos, "#F") {
        Ok((BoolNode { value: false }, pos + 2))
    } else if at_word(input, pos, "false") {
        Ok((BoolNode { value: false }, pos + 5))
    } else {
        Err(Error::ParseError { position: pos, expected: Expected::Boolean })
    }
}

/// The digits of a magnitude at `i` (see `magnitude_at`).
fn magnitude(input: &Vec<char>, i: usize, decimal_prefix: bool) -> (r: Option<(usize, usize, u64)>)
    requires
        i <= input@.len(),
    ensures
        r matches Some((a, e, radix)) ==> magnitude_at(input@, i as int, decimal_prefix) == Some(
            (a as int, e as int, radix),
        ) && i <= a < e <= input@.len(),
        r is None ==> magnitude_at(input@, i as int, decimal_prefix) is None,
{
    if i < input.len() && i + 1 < input.len() && input[i] == '#' && (input[i + 1] == 'x' || input[i + 1] == 'X') {
        if i + 2 < input.len() && digit_char(input[i + 2], 16) {
            let (e, _) = read_digits(input, i + 2, 16);
            proof { lemma_digits_end(input@, i + 3, 16); }
            return Some((i + 2, e, 16));
        }
    }
    let q = if decimal_prefix && i < input.len() && i + 1 < input.len() && input[i] == '#' && (input[i + 1] == 'd'
        || input[i + 1] == 'D') {
        i + 2
    } else {
        i
    };
    if q < input.len() && digit_char(input[q], 10) {
        let (e, _) = read_digits(input, q, 10);
        proof { lemma_digits_end(input@, q + 1, 10); }
        Some((q, e, 10))
    } else {
        None
    }
}

/// A digit run never ends before it starts, nor past the end.
pub proof fn lemma_digits_end(s: Seq<char>, i: int, radix: u64)
    requires
        0 <= i <= s.len(),
    ensures
        i <= digits_end(s, i, radix) <= s.len(),
    decreases s.len() - i,
{
    if 0 <= i < s.len() && is_digit_in(s[i], radix) {
        lemma_digits_end(s, i + 1, radix);
    }
}

/// Where the digits of a number at `pos` start (see `after_sign`), and
/// whether its sign is `-`.
fn sign_end(input: &Vec<char>, pos: usize) -> (r: (usize, bool))
    requires
        pos <= input@.len(),
    ensures
        r.0 == after_sign(input@, pos as int),
        r.1 == minus_at(input@, pos as int),
        pos <= r.0 <= input@.len(),
{
    if pos < input.len() && (input[pos] == '+' || input[pos] == '-') {
        (pos + 1, input[pos] == '-')
    } else {
        (pos, false)
    }
}

/// A signed integer constant at `pos` (see `sint_at`).
fn sint_const(input: &Vec<char>, pos: usize) -> (r: Option<(i64, usize)>)
    requires
        pos <= input@.len(),
    ensures
        r matches Some((v, e)) ==> sint_at(input@, pos as int) == Some((v, e as int)) && pos < e
            <= input@.len(),
        r is None ==> sint_at(input@, pos as int) is None,
{
    let (p, neg) = sign_end(input, pos);
    let (a, e, radix) = match magnitude(input, p, true) {
        None => return None,
        Some(t) => t,
    };
    let (_, m) = read_digits(input, a, radix);
    if e < input.len() && (input[e] == 'u' || input[e] == 'U' || input[e] == '.' || input[e] == 'f'
        || input[e] == 'F') {
        return None;
    }
    match m {
        None => None,
        Some(m) => if neg {
            if m <= 9223372036854775807 {
                Some((-(m as i64), e))
            } else if m == 9223372036854775808 {
                Some((i64::MIN, e))
            } else {
                None
            }
        } else if m <= 9223372036854775807 {
            Some((m as i64, e))
        } else {
            None
        },
    }
}

/// An unsigned integer constant at `pos` (see `uint_at`).
fn uint_const(input: &Vec<char>, pos: usize) -> (r: Option<(u64, usize)>)
    requires
        pos <= input@.len(),
    ensures
        r matches Some((v, e)) ==> uint_at(input@, pos as int) == Some((v, e as int)) && pos < e
            <= input@.len(),
        r is None ==> uint_at(input@, pos as int) is None,
{
    let (p, neg) = sign_end(input, pos);
    if neg {
        return None;
    }
    let (a, e, radix) = match magnitude(input, p, false) {
        None => return None,
        Some(t) => t,
    };
    let (_, m) = read_digits(input, a, radix);
    if e < input.len() && (input[e] == 'u' || input[e] == 'U') {
        match m {
            None => None,
            Some(m) => Some((m, e + 1)),
        }
    } else {
        None
    }
}

/// A floating-point constant at `pos` (see `float_at`).
fn float_const(input: &Vec<char>, pos: usize) -> (r: Option<(FloatNode, usize)>)
    requires
        pos <= input@.len(),
    ensures
        r matches Some((f, e)) ==> float_at(input@, pos as int) == Some(
            (f.negative, f.whole@, f.fraction@, e as int),
        ) && pos < e <= input@.len(),
        r is None ==> float_at(input@, pos as int) is None,
{
    let (p, negative) = sign_end(input, pos);
    if !(p < input.len() && digit_char(input[p], 10)) {
        return None;
    }
    let (e1, _) = read_digits(input, p, 10);
    proof { lemma_digits_end(input@, p as int, 10); }
    if !(e1 < input.len() && input[e1] == '.') {
        return None;
    }
    if !(e1 + 1 < input.len() && digit_char(input[e1 + 1], 10)) {
        return None;
    }
    let (e2, _) = read_digits(input, e1 + 1, 10);
    proof { lemma_digits_end(input@, e1 + 1, 10); }
    let end = if e2 < input.len() && (input[e2] == 'f' || input[e2] == 'F') {
        e2 + 1
    } else {
        e2
    };
    let whole = slice_chars(input, p, e1);
    let fraction = slice_chars(input, e1 + 1, e2);
    Some((FloatNode { negative, whole, fraction }, end))
}

/// Parses a signed integer, unsigned integer or floating-point constant at
/// `pos`, trying them in that order.
pub fn number(input: &Vec<char>, pos: usize) -> (r: Result<(NumNode, usize), Error>)
    requires
        pos <= input@.len(),
    ensures
        num_view(r) == parse_number(input@, pos as int),
        r matches Ok((_, e)) ==> pos < e <= input@.len(),
{
    if let Some((v, e)) = sint_const(input, pos) {
        return Ok((NumNode::IntConst(IntNode { value: v }), e));
    }
    if let Some((v, e)) = uint_const(input, pos) {
        return Ok((NumNode::UIntConst(UIntNode { value: v }), e));
    }
    if let Some((f, e)) = float_const(input, pos) {
        return Ok((NumNode::FloatConst(f), e));
    }
    Err(Error::ParseError { position: pos, expected: Expected::Number })
}

} // verus!

verus! {


/// The end of `w` when it is written in `input` at `i`.
fn word_end(input: &Vec<char>, i: usize, w: &str) -> (r: Option<usize>)
    requires
        i <= input@.len(),
    ensures
        word_at(input@, i as int, w@) ==> r is Some && r->0 == i + w@.len(),
        !word_at(input@, i as int, w@) ==> r is None,
{
    if at_word(input, i, w) {
        let _len = input.len();
        Some(i + w.unicode_len())
    } else {
        None
    }
}

/// A named character at `i` (see `char_name_at`).
fn char_name(input: &Vec<char>, i: usize) -> (r: Option<(u32, usize)>)
    requires
        i <= input@.len(),
    ensures
        r matches Some((c, e)) ==> char_name_at(input@, i as int) == Some((c, e as int)) && i < e
            <= input@.len(),
        r is None ==> char_name_at(input@, i as int) is None,
{
    proof {
        reveal_strlit("newline");
        reveal_strlit("linefeed");
        reveal_strlit("tab");
        reveal_strlit("vtab");
        reveal_strlit("backspace");
        reveal_strlit("nul");
        reveal_strlit("page");
        reveal_strlit("return");
        reveal_strlit("esc");
        reveal_strlit("delete");
        reveal_strlit("alarm");
        reveal_strlit("space");
    }
    if let Some(e) = word_end(input, i, "newline") {
        return Some((0x0A, e));
    }
    if let Some(e) = word_end(input, i, "linefeed") {
        return Some((0x0A, e));
    }
    if let Some(e) = word_end(input, i, "tab") {
        return Some((0x09, e));
    }
    if let Some(e) = word_end(input, i, "vtab") {
        return Some((0x0B, e));
    }
    if let Some(e) = word_end(input, i, "backspace") {
        return Some((0x08, e));
    }
    if let Some(e) = word_end(input, i, "nul") {
        return Some((0x00, e));
    }
    if let Some(e) = word_end(input, i, "page") {
        return Some((0x0C, e));
    }
    if let Some(e) = word_end(input, i, "return") {
        return Some((0x0D, e));
    }
    if let Some(e) = word_end(input, i, "esc") {
        return Some((0x1B, e));
    }
    if let Some(e) = word_end(input, i, "delete") {
        return Some((0x7F, e));
    }
    if let Some(e) = word_end(input, i, "alarm") {
        return Some((0x07, e));
    }
    if let Some(e) = word_end(input, i, "space") {
        return Some((0x20, e));
    }
    None
}

/// Parses a character constant at `pos`: `#\` followed by a character
/// name, a hex scalar value `xHHHH`, or a single character.
pub fn character(input: &Vec<char>, pos: usize) -> (r: Result<(CharNode, usize), Error>)
    requires
        pos <= input@.len(),
    ensures
        char_view(r) == parse_char(input@, pos as int),
        r matches Ok((_, e)) ==> pos < e <= input@.len(),
{
    let fail = Error::ParseError { position: pos, expected: Expected::Character };
    if !at_word(input, pos, "#\\") {
        return Err(fail);
    }
    let _len = input.len();
    proof {
        reveal_strlit("#\\");
    }
    let i = pos + 2;
    if let Some((code, e)) = char_name(input, i) {
        let c = match char_from(code) {
            Some(c) => c,
            None => return Err(fail),
        };
        return Ok((CharNode { value: c }, e));
    }
    if i < input.len() && (input[i] == 'x' || input[i] == 'X') && i + 1 < input.len() && digit_char(
        input[i + 1],
        16,
    ) {
        let (e, v) = read_digits(input, i + 1, 16);
        proof {
            lemma_digits_end(input@, i + 2, 16);
        }
        match v {
            Some(v) => if v <= 0x10FFFF {
                match char_from(v as u32) {
                    Some(c) => Ok((CharNode { value: c }, e)),
                    None => Err(fail),
                }
            } else {
                Err(fail)
            },
            None => Err(fail),
        }
    } else if i < input.len() {
        Ok((CharNode { value: input[i] }, i + 1))
    } else {
        Err(fail)
    }
}

} // verus!

verus! {

/// Whether position `i` may open a number: a digit, `#`, or a `+` or `-`
/// sign before a digit or `#`.
pub open spec fn number_start(s: Seq<char>, i: int) -> bool {
    s[i] == '#' || is_digit_in(s[i], 10) || ((s[i] == '-' || s[i] == '+') && i + 1 < s.len() && (is_digit_in(
        s[i + 1],
        10,
    ) || s[i + 1] == '#'))
}

/// The form of a name: `true` and `false` are booleans.
pub open spec fn name_form(n: Seq<char>) -> Form {
    if n == "true"@ {
        Form::Bool(true)
    } else if n == "false"@ {
        Form::Bool(false)
    } else {
        Form::Name(n)
    }
}

/// An expression after optional white space at `pos`: a parenthesised
/// application of a name or list of expressions, a boolean, a character, a
/// number or a name. Gives its form and its end.
pub open spec fn parse_expr(s: Seq<char>, pos: int) -> Result<(Form, int), Error>
    decreases s.len() - pos, 0int,
{
    proof {
        lemma_skip_space(s, pos);
    }
    let i = skip_space(s, pos);
    if pos < 0 || i >= s.len() {
        Err(Error::ParseError { position: i as usize, expected: Expected::Expression })
    } else if s[i] == '(' {
        if i + 1 < s.len() && (is_initial(s[i + 1]) || peculiar_at(s, i + 1)) {
            match parse_name(s, i + 1) {
                Err(x) => Err(x),
                Ok((n, e)) => {
                    proof {
                        lemma_subsequent_end(s, i + 2);
                    }
                    match parse_items(s, e) {
                        Ok((xs, end)) => Ok((Form::Apply(n, xs), end)),
                        Err(x) => Err(x),
                    }
                },
            }
        } else {
            match parse_items(s, i + 1) {
                Ok((xs, end)) => Ok((Form::List(xs), end)),
                Err(x) => Err(x),
            }
        }
    } else if s[i] == '#' && i + 1 < s.len() && (s[i + 1] == 't' || s[i + 1] == 'T' || s[i + 1]
        == 'f' || s[i + 1] == 'F') {
        match parse_bool(s, i) {
            Ok((b, e)) => Ok((Form::Bool(b), e)),
            Err(x) => Err(x),
        }
    } else if s[i] == '#' && i + 1 < s.len() && s[i + 1] == '\\' {
        match parse_char(s, i) {
            Ok((c, e)) => Ok((Form::Char(c), e)),
            Err(x) => Err(x),
        }
    } else if number_start(s, i) {
        match parse_number(s, i) {
            Ok((n, e)) => Ok((Form::Num(n), e)),
            Err(x) => Err(x),
        }
    } else {
        match parse_name(s, i) {
            Ok((n, e)) => Ok((name_form(n), e)),
            Err(x) => Err(x),
        }
    }
}

/// Expressions up to and including a closing parenthesis, from `i`.
pub open spec fn parse_items(s: Seq<char>, i: int) -> Result<(Seq<Form>, int), Error>
    decreases s.len() - i, 1int,
{
    proof {
        lemma_skip_space(s, i);
    }
    let j = skip_space(s, i);
    if i < 0 || j >= s.len() {
        Err(Error::ParseError { position: j as usize, expected: Expected::CloseParen })
    } else if s[j] == ')' {
        Ok((Seq::empty(), j + 1))
    } else {
        match parse_expr(s, j) {
            Err(x) => Err(x),
            Ok((f, k)) => if k <= j || k > s.len() {
                Err(Error::ParseError { position: j as usize, expected: Expected::Expression })
            } else {
                match parse_items(s, k) {
                    Ok((xs, end)) => Ok((seq![f].add(xs), end)),
                    Err(x) => Err(x),
                }
            },
        }
    }
}

/// A whole source text: one expression, with white space around it.
pub open spec fn parse_source(s: Seq<char>) -> Result<Form, Error> {
    match parse_expr(s, 0) {
        Err(x) => Err(x),
        Ok((f, e)) => if skip_space(s, e) == s.len() {
            Ok(f)
        } else {
            Err(Error::ParseError { position: skip_space(s, e) as usize, expected: Expected::EndOfInput })
        },
    }
}

} // verus!

verus! {

use crate::ast::{ExprNode, ListNode, SExprNode, form, forms};

/// The form and end of a parsed expression.
pub open spec fn expr_view(r: Result<(ExprNode, usize), Error>) -> Result<(Form, int), Error> {
    match r {
        Ok((x, e)) => Ok((form(x), e as int)),
        Err(x) => Err(x),
    }
}

/// The forms and end of parsed list items.
pub open spec fn items_view(r: Result<(Vec<ExprNode>, usize), Error>) -> Result<(Seq<Form>, int), Error> {
    match r {
        Ok((v, e)) => Ok((forms(v@), e as int)),
        Err(x) => Err(x),
    }
}

/// Whether two strings hold the same characters.
pub fn same_text(a: &str, b: &str) -> (r: bool)
    ensures
        r == (a@ == b@),
{
    let n = a.unicode_len();
    if n != b.unicode_len() {
        return false;
    }
    let mut k: usize = 0;
    while k < n
        invariant
            n == a@.len() == b@.len(),
            k <= n,
            forall|j: int| 0 <= j < k ==> a@[j] == b@[j],
        decreases n - k,
    {
        if a.get_char(k) != b.get_char(k) {
            return false;
        }
        k = k + 1;
    }
    assert(a@ =~= b@);
    true
}

/// The expression for a parsed name: `true` and `false` are booleans.
fn name_expr(n: NameNode) -> (r: ExprNode)
    ensures
        form(r) == name_form(n.name@),
{
    if same_text(n.name.as_str(), "true") {
        ExprNode::BoolConst(BoolNode { value: true })
    } else if same_text(n.name.as_str(), "false") {
        ExprNode::BoolConst(BoolNode { value: false })
    } else {
        ExprNode::Name(n)
    }
}

/// Parses one expression, after optional white space, at `pos`.
pub fn expr(input: &Vec<char>, pos: usize) -> (r: Result<(ExprNode, usize), Error>)
    requires
        pos <= input@.len(),
    ensures
        expr_view(r) == parse_expr(input@, pos as int),
        r matches Ok((_, e)) ==> pos < e <= input@.len(),
    decreases input@.len() - pos, 0int,
{
    let i = skip_spaces(input, pos);
    if i >= input.len() {
        return Err(Error::ParseError { position: i, expected: Expected::Expression });
    }
    let c = input[i];
    if c == '(' {
        if i + 1 < input.len() && (initial_char(input[i + 1]) || ((input[i + 1] == '+' || input[i
            + 1] == '-') && !(i + 2 < input.len() && subsequent_char(input[i + 2])))) {
            let (n, e) = match name(input, i + 1) {
                Err(x) => return Err(x),
                Ok(p) => p,
            };
            proof {
                lemma_subsequent_end(input@, i + 2);
            }
            match items(input, e) {
                Err(x) => Err(x),
                Ok((operands, end)) => {
                    let r = ExprNode::SExpr(SExprNode { operator: n, operands });
                    proof {
                        assert(forms(operands@) =~= match form(r) {
                            Form::Apply(_, xs) => xs,
                            _ => Seq::empty(),
                        });
                    }
                    Ok((r, end))
                },
            }
        } else {
            match items(input, i + 1) {
                Err(x) => Err(x),
                Ok((elements, end)) => {
                    let r = ExprNode::ListConst(ListNode { elements });
                    proof {
                        assert(forms(elements@) =~= match form(r) {
                            Form::List(xs) => xs,
                            _ => Seq::empty(),
                        });
                    }
                    Ok((r, end))
                },
            }
        }
    } else if c == '#' && i + 1 < input.len() && (input[i + 1] == 't' || input[i + 1] == 'T'
        || input[i + 1] == 'f' || input[i + 1] == 'F') {
        match bool_const(input, i) {
            Ok((b, e)) => Ok((ExprNode::BoolConst(b), e)),
            Err(x) => Err(x),
        }
    } else if c == '#' && i + 1 < input.len() && input[i + 1] == '\\' {
        match character(input, i) {
            Ok((ch, e)) => Ok((ExprNode::CharConst(ch), e)),
            Err(x) => Err(x),
        }
    } else if c == '#' || digit_char(c, 10) || ((c == '-' || c == '+') && i + 1 < input.len() && (digit_char(
        input[i + 1],
        10,
    ) || input[i + 1] == '#')) {
        match number(input, i) {
            Ok((n, e)) => Ok((ExprNode::NumConst(n), e)),
            Err(x) => Err(x),
        }
    } else {
        match name(input, i) {
            Ok((n, e)) => {
                proof {
                    lemma_subsequent_end(input@, i + 1);
                }
                Ok((name_expr(n), e))
            },
            Err(x) => Err(x),
        }
    }
}

/// Parses expressions up to and including a closing parenthesis, from `i`.
fn items(input: &Vec<char>, i: usize) -> (r: Result<(Vec<ExprNode>, usize), Error>)
    requires
        i <= input@.len(),
    ensures
        items_view(r) == parse_items(input@, i as int),
        r matches Ok((_, e)) ==> i < e <= input@.len(),
    decreases input@.len() - i, 1int,
{
    let j = skip_spaces(input, i);
    if j >= input.len() {
        return Err(Error::ParseError { position: j, expected: Expected::CloseParen });
    }
    if input[j] == ')' {
        let v: Vec<ExprNode> = Vec::new();
        assert(forms(v@) =~= Seq::<Form>::empty());
        return Ok((v, j + 1));
    }
    let (x, k) = match expr(input, j) {
        Err(e) => return Err(e),
        Ok(p) => p,
    };
    if k <= j || k > input.len() {
        return Err(Error::ParseError { position: j, expected: Expected::Expression });
    }
    match items(input, k) {
        Err(e) => Err(e),
        Ok((rest, end)) => {
            let ghost old_rest = rest@;
            let mut v = rest;
            v.insert(0, x);
            assert(forms(v@) =~= seq![form(x)].add(forms(old_rest)));
            Ok((v, end))
        },
    }
}

} // verus!

verus! {

/// The characters of `src`, in order.
pub fn chars_of(src: &str) -> (r: Vec<char>)
    ensures
        r@ == src@,
{
    let n = src.unicode_len();
    let mut v: Vec<char> = Vec::new();
    let mut k: usize = 0;
    while k < n
        invariant
            n == src@.len(),
            k <= n,
            v@ == src@.subrange(0, k as int),
        decreases n - k,
    {
        v.push(src.get_char(k));
        k = k + 1;
        assert(v@ =~= src@.subrange(0, k as int));
    }
    assert(v@ =~= src@);
    v
}

/// Parses a whole source text: one expression with optional white space
/// around it.
pub fn parse(src: &str) -> (r: Result<ExprNode, Error>)
    ensures
        match r {
            Ok(x) => parse_source(src@) == Ok::<Form, Error>(form(x)),
            Err(e) => parse_source(src@) == Err::<Form, Error>(e),
        },
{
    let input = chars_of(src);
    let (x, e) = match expr(&input, 0) {
        Err(err) => return Err(err),
        Ok(p) => p,
    };
    let end = skip_spaces(&input, e);
    if end == input.len() {
        Ok(x)
    } else {
        Err(Error::ParseError { position: end, expected: Expected::EndOfInput })
    }
}

} // verus!

verus! {

proof fn lemma_subsequent_run(s: Seq<char>, i: int)
    requires
        0 <= i <= s.len(),
        forall|j: int| i <= j < s.len() ==> is_subsequent(s[j]),
    ensures
        subsequent_end(s, i) == s.len(),
    decreases s.len() - i,
{
    if i < s.len() {
        lemma_subsequent_run(s, i + 1);
    }
}

/// Reading back a name: an identifier that does not open with white space,
/// `(`, `#`, a digit, `+` or `-`, and is not `true` or `false`, reads back as
/// that name.
pub proof fn lemma_name_round_trip(n: Seq<char>)
    requires
        n.len() > 0,
        is_initial(n[0]),
        !is_space(n[0]),
        n[0] != '(' && n[0] != '#' && n[0] != '-' && n[0] != '+' && !is_digit_in(n[0], 10),
        forall|i: int| 1 <= i < n.len() ==> is_subsequent(n[i]),
        n != "true"@,
        n != "false"@,
    ensures
        parse_source(n) == Ok::<Form, Error>(Form::Name(n)),
{
    lemma_subsequent_run(n, 1);
    assert(n.subrange(0, n.len() as int) =~= n);
}

/// Reading back a boolean: `#t` reads back as true and `#f` as false.
pub proof fn lemma_bool_round_trip(b: bool)
    ensures
        parse_source(if b { "#t"@ } else { "#f"@ }) == Ok::<Form, Error>(Form::Bool(b)),
{
    reveal_strlit("#t");
    reveal_strlit("#T");
    reveal_strlit("true");
    reveal_strlit("#f");
    reveal_strlit("#F");
    reveal_strlit("false");
    let s = if b { "#t"@ } else { "#f"@ };
    assert(s.subrange(0, 2) =~= s);
    assert(word_at(s, 0, if b { "#t"@ } else { "#f"@ }));
}

/// Reading back a character: `#\` followed by any one character reads back
/// as that character.
pub proof fn lemma_char_round_trip(c: char)
    ensures
        parse_source(seq!['#', '\\', c]) == Ok::<Form, Error>(Form::Char(c as u32)),
{
    let s = seq!['#', '\\', c];
    reveal_strlit("#\\");
    reveal_strlit("newline");
    reveal_strlit("linefeed");
    reveal_strlit("tab");
    reveal_strlit("vtab");
    reveal_strlit("backspace");
    reveal_strlit("nul");
    reveal_strlit("page");
    reveal_strlit("return");
    reveal_strlit("esc");
    reveal_strlit("delete");
    reveal_strlit("alarm");
    reveal_strlit("space");
    assert(s.subrange(0, 2) =~= "#\\"@);
    assert(char_name_at(s, 2) is None);
    if c == 'x' || c == 'X' {
        assert(digits_at(s, 3, 16) is None);
    }
    assert(parse_char(s, 0) == Ok::<(u32, int), Error>((c as u32, 3)));
}

} // verus!

verus! {

/// The decimal digit for `d < 10`.
pub open spec fn digit_char_of(d: nat) -> char {
    if d == 0 { '0' } else if d == 1 { '1' } else if d == 2 { '2' } else if d == 3 { '3' } else if d
        == 4 { '4' } else if d == 5 { '5' } else if d == 6 { '6' } else if d == 7 { '7' } else if d
        == 8 { '8' } else { '9' }
}

/// The decimal digits of `v`, most significant first.
pub open spec fn decimal(v: nat) -> Seq<char>
    decreases v,
{
    if v < 10 {
        seq![digit_char_of(v)]
    } else {
        decimal(v / 10).push(digit_char_of(v % 10))
    }
}

/// The text of a signed integer: its decimal digits, after `-` when negative.
pub open spec fn int_text(v: i64) -> Seq<char> {
    if v < 0 {
        seq!['-'].add(decimal((-v) as nat))
    } else {
        decimal(v as nat)
    }
}

proof fn lemma_value_of_prefix(s: Seq<char>, t: Seq<char>, a: int, b: int, radix: u64)
    requires
        0 <= a <= b <= s.len(),
        b <= t.len(),
        forall|i: int| a <= i < b ==> s[i] == t[i],
    ensures
        value_of(s, a, b, radix) == value_of(t, a, b, radix),
    decreases b - a,
{
    if a < b {
        lemma_value_of_prefix(s, t, a, b - 1, radix);
    }
}

proof fn lemma_value_of_shift(s: Seq<char>, k: int, b: int, radix: u64)
    requires
        0 <= k,
        0 <= b,
        k + b <= s.len(),
    ensures
        value_of(s, k, k + b, radix) == value_of(s.subrange(k, s.len() as int), 0, b, radix),
    decreases b,
{
    if b > 0 {
        lemma_value_of_shift(s, k, b - 1, radix);
    }
}

proof fn lemma_digit_char(d: nat)
    requires
        d < 10,
    ensures
        digit_value(digit_char_of(d)) == d,
        is_digit_in(digit_char_of(d), 10),
{
}

proof fn lemma_decimal(v: nat)
    ensures
        decimal(v).len() > 0,
        forall|i: int| 0 <= i < decimal(v).len() ==> is_digit_in(#[trigger] decimal(v)[i], 10),
        value_of(decimal(v), 0, decimal(v).len() as int, 10) == v,
    decreases v,
{
    if v < 10 {
        lemma_digit_char(v);
        assert(value_of(decimal(v), 0, 0, 10) == 0);
    } else {
        lemma_digit_char(v % 10);
        assert(v == (v / 10) * 10 + v % 10);
        let p = decimal(v / 10);
        lemma_decimal(v / 10);
        let s = p.push(digit_char_of(v % 10));
        lemma_value_of_prefix(s, p, 0, p.len() as int, 10);
        assert(value_of(s, 0, s.len() as int, 10) == value_of(s, 0, p.len() as int, 10) * 10
            + digit_value(s[p.len() as int]));
        assert(decimal(v) == s);
        assert(s[p.len() as int] == digit_char_of(v % 10));
        assert forall|i: int| 0 <= i < s.len() implies is_digit_in(#[trigger] s[i], 10) by {
            if i < p.len() {
                assert(s[i] == p[i]);
            }
        }
    }
}

proof fn lemma_digits_run(s: Seq<char>, i: int, radix: u64)
    requires
        0 <= i <= s.len(),
        forall|j: int| i <= j < s.len() ==> is_digit_in(s[j], radix),
    ensures
        digits_end(s, i, radix) == s.len(),
    decreases s.len() - i,
{
    if i < s.len() {
        lemma_digits_run(s, i + 1, radix);
    }
}

/// Reading back a signed integer: its decimal text reads back as the same
/// number.
pub proof fn lemma_int_round_trip(v: i64)
    ensures
        parse_source(int_text(v)) == Ok::<Form, Error>(Form::Num(NumVal::Int(v))),
{
    let m: nat = if v < 0 { (-v) as nat } else { v as nat };
    let d = decimal(m);
    lemma_decimal(m);
    let s = int_text(v);
    let k: int = if v < 0 { 1 } else { 0 };
    assert(s.subrange(k, s.len() as int) =~= d);
    assert forall|j: int| k <= j < s.len() implies is_digit_in(s[j], 10) by {
        assert(s[j] == d[j - k]);
    }
    lemma_digits_run(s, k, 10);
    lemma_value_of_shift(s, k, d.len() as int, 10);
    assert(value_of(s, k, s.len() as int, 10) == m);
    assert(is_digit_in(s[k], 10));
    assert(s[0] != '#');
    assert(!is_space(s[0]));
}

} // verus!

verus! {

/// Reading back an unsigned integer: its decimal digits followed by `u`
/// read back as the same number.
pub proof fn lemma_uint_round_trip(v: u64)
    ensures
        parse_source(decimal(v as nat).push('u')) == Ok::<Form, Error>(Form::Num(NumVal::UInt(v))),
{
    let d = decimal(v as nat);
    lemma_decimal(v as nat);
    let s = d.push('u');
    assert(s.subrange(0, d.len() as int) =~= d);
    assert forall|j: int| 0 <= j < d.len() implies is_digit_in(s[j], 10) by {
        assert(s[j] == d[j]);
    }
    lemma_digits_run(d, 0, 10);
    lemma_digits_end_prefix(s, d, 0);
    lemma_value_of_prefix(s, d, 0, d.len() as int, 10);
    assert(is_digit_in(s[0], 10));
    assert(!is_space(s[0]));
}

proof fn lemma_digits_end_prefix(s: Seq<char>, d: Seq<char>, i: int)
    requires
        0 <= i <= d.len(),
        s == d.push('u'),
        forall|j: int| 0 <= j < d.len() ==> is_digit_in(d[j], 10),
    ensures
        digits_end(s, i, 10) == d.len(),
    decreases d.len() - i,
{
    if i < d.len() {
        assert(s[i] == d[i]);
        lemma_digits_end_prefix(s, d, i + 1);
    } else {
        assert(s[i] == 'u');
    }
}

} // verus!

verus! {

proof fn lemma_digits_stop(s: Seq<char>, i: int, j: int)
    requires
        0 <= i <= j <= s.len(),
        forall|k: int| i <= k < j ==> is_digit_in(s[k], 10),
        j == s.len() || !is_digit_in(s[j], 10),
    ensures
        digits_end(s, i, 10) == j,
    decreases j - i,
{
    if i < j {
        lemma_digits_stop(s, i + 1, j);
    }
}

/// Reading back a float: an optional `-`, digits, a point and digits read
/// back as the same sign and digits.
pub proof fn lemma_float_round_trip(negative: bool, whole: Seq<char>, fraction: Seq<char>)
    requires
        whole.len() > 0,
        fraction.len() > 0,
        forall|i: int| 0 <= i < whole.len() ==> is_digit_in(whole[i], 10),
        forall|i: int| 0 <= i < fraction.len() ==> is_digit_in(fraction[i], 10),
    ensures
        parse_source(
            (if negative { seq!['-'] } else { Seq::empty() }).add(whole).add(seq!['.']).add(
                fraction,
            ),
        ) == Ok::<Form, Error>(Form::Num(NumVal::Float(negative, whole, fraction))),
{
    let sign: Seq<char> = if negative { seq!['-'] } else { Seq::empty() };
    let s = sign.add(whole).add(seq!['.']).add(fraction);
    let k = sign.len() as int;
    let e1 = k + whole.len();
    assert forall|i: int| k <= i < e1 implies is_digit_in(s[i], 10) by {
        assert(s[i] == whole[i - k]);
    }
    assert forall|i: int| e1 + 1 <= i < s.len() implies is_digit_in(s[i], 10) by {
        assert(s[i] == fraction[i - e1 - 1]);
    }
    assert(s[e1] == '.');
    assert(s[k] == whole[0]);
    lemma_digits_stop(s, k, e1);
    lemma_digits_stop(s, e1 + 1, s.len() as int);
    assert(s.subrange(k, e1) =~= whole);
    assert(s.subrange(e1 + 1, s.len() as int) =~= fraction);
    assert(!is_space(s[0]));
    assert(s[0] != '#' && s[0] != '(');
    assert(after_sign(s, 0) == k);
}

} // verus!

verus! {

/// The upper-case hex digit for `d < 16`.
pub open spec fn hex_char_of(d: nat) -> char {
    if d < 10 {
        digit_char_of(d)
    } else if d == 10 {
        'A'
    } else if d == 11 {
        'B'
    } else if d == 12 {
        'C'
    } else if d == 13 {
        'D'
    } else if d == 14 {
        'E'
    } else {
        'F'
    }
}

/// The upper-case hex digits of `v`, most significant first.
pub open spec fn hex_text(v: nat) -> Seq<char>
    decreases v,
{
    if v < 16 {
        seq![hex_char_of(v)]
    } else {
        hex_text(v / 16).push(hex_char_of(v % 16))
    }
}

proof fn lemma_hex_char(d: nat)
    requires
        d < 16,
    ensures
        digit_value(hex_char_of(d)) == d,
        is_digit_in(hex_char_of(d), 16),
{
    if d < 10 {
        lemma_digit_char(d);
    }
}

proof fn lemma_hex_text(v: nat)
    ensures
        hex_text(v).len() > 0,
        forall|i: int| 0 <= i < hex_text(v).len() ==> is_digit_in(#[trigger] hex_text(v)[i], 16),
        value_of(hex_text(v), 0, hex_text(v).len() as int, 16) == v,
    decreases v,
{
    if v < 16 {
        lemma_hex_char(v);
        assert(value_of(hex_text(v), 0, 0, 16) == 0);
    } else {
        lemma_hex_char(v % 16);
        assert(v == (v / 16) * 16 + v % 16);
        let p = hex_text(v / 16);
        lemma_hex_text(v / 16);
        let s = p.push(hex_char_of(v % 16));
        lemma_value_of_prefix(s, p, 0, p.len() as int, 16);
        assert(value_of(s, 0, s.len() as int, 16) == value_of(s, 0, p.len() as int, 16) * 16
            + digit_value(s[p.len() as int]));
        assert(hex_text(v) == s);
        assert(s[p.len() as int] == hex_char_of(v % 16));
        assert forall|i: int| 0 <= i < s.len() implies is_digit_in(#[trigger] s[i], 16) by {
            if i < p.len() {
                assert(s[i] == p[i]);
            }
        }
    }
}

proof fn lemma_hex_run(s: Seq<char>, i: int)
    requires
        0 <= i <= s.len(),
        forall|j: int| i <= j < s.len() ==> is_digit_in(s[j], 16),
    ensures
        digits_end(s, i, 16) == s.len(),
    decreases s.len() - i,
{
    if i < s.len() {
        lemma_hex_run(s, i + 1);
    }
}

proof fn lemma_not_word(s: Seq<char>, i: int, w: Seq<char>)
    requires
        0 <= i < s.len(),
        w.len() > 0,
        s[i] != w[0],
    ensures
        !word_at(s, i, w),
{
    if word_at(s, i, w) {
        assert(s.subrange(i, i + w.len())[0] == s[i]);
    }
}

/// Reading back a character by its code: `#\x` followed by the hex digits
/// of a Unicode scalar value reads back as that character.
pub proof fn lemma_hex_char_round_trip(v: u32)
    requires
        is_scalar(v as int),
    ensures
        parse_source(seq!['#', '\\', 'x'].add(hex_text(v as nat))) == Ok::<Form, Error>(
            Form::Char(v),
        ),
{
    let h = hex_text(v as nat);
    lemma_hex_text(v as nat);
    let s = seq!['#', '\\', 'x'].add(h);
    reveal_strlit("#\\");
    reveal_strlit("newline");
    reveal_strlit("linefeed");
    reveal_strlit("tab");
    reveal_strlit("vtab");
    reveal_strlit("backspace");
    reveal_strlit("nul");
    reveal_strlit("page");
    reveal_strlit("return");
    reveal_strlit("esc");
    reveal_strlit("delete");
    reveal_strlit("alarm");
    reveal_strlit("space");
    assert(s.subrange(0, 2) =~= "#\\"@);
    assert(s[2] == 'x');
    lemma_not_word(s, 2, "newline"@);
    lemma_not_word(s, 2, "linefeed"@);
    lemma_not_word(s, 2, "tab"@);
    lemma_not_word(s, 2, "vtab"@);
    lemma_not_word(s, 2, "backspace"@);
    lemma_not_word(s, 2, "nul"@);
    lemma_not_word(s, 2, "page"@);
    lemma_not_word(s, 2, "return"@);
    lemma_not_word(s, 2, "esc"@);
    lemma_not_word(s, 2, "delete"@);
    lemma_not_word(s, 2, "alarm"@);
    lemma_not_word(s, 2, "space"@);
    assert(char_name_at(s, 2) is None);
    assert forall|j: int| 3 <= j < s.len() implies is_digit_in(s[j], 16) by {
        assert(s[j] == h[j - 3]);
    }
    lemma_hex_run(s, 3);
    lemma_value_of_shift(s, 3, h.len() as int, 16);
    assert(s.subrange(3, s.len() as int) =~= h);
    assert(is_digit_in(s[3], 16));
    assert(parse_char(s, 0) == Ok::<(u32, int), Error>((v, s.len() as int)));
}

} // verus!
