//! A small JSON document model with a verified parser and renderer.
//!
//! The backend speaks plain JSON. Money values are exact decimal fractions
//! (`1234.50`), so numbers are modeled as [`Decimal`] — a sign, an integer
//! mantissa and a decimal scale — rather than as floating point.

use crate::text::chars_of_str;
use crate::text::string_of_chars;
use crate::text::char_of_scalar;
use vstd::prelude::*;

verus! {

broadcast use vstd::std_specs::vec::group_vec_axioms, vstd::seq::axiom_seq_index_decreases;

/// Why a response body failed to decode. A well-formed
/// `WAITING_CONFIRMATION` envelope is not an error; these arise only when the
/// body does not match the expected shape.
#[derive(Clone, Copy, Debug, PartialEq, Eq, Structural)]
pub enum DecodeError {
    /// The body is not well-formed JSON.
    Syntax,
    /// A number does not fit the decimal model.
    NumberOverflow,
    /// A required field is absent.
    MissingField,
    /// A field is present but has the wrong JSON shape.
    WrongType,
    /// An enum field holds a literal outside its closed set.
    UnknownVariant,
}

/// An exact decimal number: `(-1)^negative * mantissa / 10^scale`.
///
/// `1234.50` is `{ negative: false, mantissa: 123450, scale: 2 }`; the scale
/// is kept as written, so `1.5` and `1.50` are distinct values that render
/// back to their original spellings.
#[derive(Clone, Copy, Debug, PartialEq, Eq, Structural)]
pub struct Decimal {
    pub negative: bool,
    pub mantissa: u64,
    pub scale: u32,
}

/// The mathematical model of a JSON document.
#[verifier::ext_equal]
pub ghost enum JsonVal {
    Null,
    Bool(bool),
    Num(Decimal),
    Text(Seq<char>),
    Arr(Seq<JsonVal>),
    Obj(Seq<(Seq<char>, JsonVal)>),
}

/// A JSON document: the result of parsing a response body, and the input of
/// the renderer.
#[derive(Debug, PartialEq)]
pub enum Json {
    Null,
    Bool(bool),
    Num(Decimal),
    Text(String),
    Arr(Vec<Json>),
    Obj(Vec<(String, Json)>),
}

/// The mathematical value of a document.
pub open spec fn json_view(j: Json) -> JsonVal
    decreases j,
{
    match j {
        Json::Null => JsonVal::Null,
        Json::Bool(b) => JsonVal::Bool(b),
        Json::Num(d) => JsonVal::Num(d),
        Json::Text(s) => JsonVal::Text(s@),
        Json::Arr(elems) => JsonVal::Arr(
            Seq::new(
                elems@.len(),
                |i: int|
                    if 0 <= i < elems.len() {
                        json_view(elems[i])
                    } else {
                        JsonVal::Null
                    },
            ),
        ),
        Json::Obj(members) => JsonVal::Obj(
            Seq::new(
                members@.len(),
                |i: int|
                    if 0 <= i < members.len() {
                        (members[i].0@, json_view(members[i].1))
                    } else {
                        (Seq::empty(), JsonVal::Null)
                    },
            ),
        ),
    }
}

impl View for Json {
    type V = JsonVal;

    open spec fn view(&self) -> JsonVal {
        json_view(*self)
    }
}

/// JSON insignificant whitespace.
pub open spec fn is_ws_char(c: char) -> bool {
    c == ' ' || c == '\t' || c == '\n' || c == '\r'
}

/// A decimal digit.
pub open spec fn is_digit_char(c: char) -> bool {
    '0' as u32 <= c as u32 && c as u32 <= '9' as u32
}

/// The value of a decimal digit.
pub open spec fn digit_value(c: char) -> u64 {
    (c as u32 - '0' as u32) as u64
}

/// The first index at or after `i` that does not hold whitespace.
pub open spec fn sp_skip_ws(s: Seq<char>, i: int) -> int
    decreases s.len() - i,
{
    if 0 <= i < s.len() && is_ws_char(s[i]) {
        sp_skip_ws(s, i + 1)
    } else {
        i
    }
}

/// Folds a run of digits starting at `i` onto the accumulator, left to right;
/// stops at the first non-digit. A value beyond `u64` is an overflow.
pub open spec fn sp_digits(s: Seq<char>, i: int, acc: u64) -> Result<(u64, int), DecodeError>
    decreases s.len() - i,
{
    if 0 <= i < s.len() && is_digit_char(s[i]) {
        let d = digit_value(s[i]);
        if acc > (u64::MAX - d) / 10 {
            Err(DecodeError::NumberOverflow)
        } else {
            sp_digits(s, i + 1, (10 * acc + d) as u64)
        }
    } else {
        Ok((acc, i))
    }
}

/// Multiplies by ten `k` times; `None` on overflow.
pub open spec fn sp_scale_up(m: u64, k: int) -> Option<u64>
    decreases k,
{
    if k <= 0 || m == 0 {
        Some(m)
    } else if m > u64::MAX / 10 {
        None
    } else {
        sp_scale_up((m * 10) as u64, k - 1)
    }
}

/// Normalizes a parsed mantissa and signed scale into a [`Decimal`]: a
/// negative scale (a positive exponent) is folded into the mantissa, and a
/// scale beyond `u32` is an overflow.
pub open spec fn sp_make_decimal(neg: bool, m: u64, scale: int, i: int) -> Result<
    (Decimal, int),
    DecodeError,
> {
    if scale > u32::MAX {
        Err(DecodeError::NumberOverflow)
    } else if scale >= 0 {
        Ok((Decimal { negative: neg, mantissa: m, scale: scale as u32 }, i))
    } else {
        match sp_scale_up(m, -scale) {
            Some(m2) => Ok((Decimal { negative: neg, mantissa: m2, scale: 0 }, i)),
            None => Err(DecodeError::NumberOverflow),
        }
    }
}

/// Parses an optional exponent at `i` and finishes the number whose sign,
/// mantissa and fraction length are already known.
pub open spec fn sp_exponent(s: Seq<char>, i: int, neg: bool, m: u64, scale0: int) -> Result<
    (Decimal, int),
    DecodeError,
> {
    if 0 <= i < s.len() && (s[i] == 'e' || s[i] == 'E') {
        let (esign, j): (bool, int) = if i + 1 < s.len() && s[i + 1] == '-' {
            (true, i + 2)
        } else if i + 1 < s.len() && s[i + 1] == '+' {
            (false, i + 2)
        } else {
            (false, i + 1)
        };
        if j < s.len() && is_digit_char(s[j]) {
            match sp_digits(s, j, 0) {
                Ok((e, k)) => sp_make_decimal(
                    neg,
                    m,
                    if esign {
                        scale0 + e
                    } else {
                        scale0 - e
                    },
                    k,
                ),
                Err(err) => Err(err),
            }
        } else {
            Err(DecodeError::Syntax)
        }
    } else {
        sp_make_decimal(neg, m, scale0, i)
    }
}

/// Parses a JSON number starting at `i` (at the minus sign or first digit).
pub open spec fn sp_number(s: Seq<char>, i: int) -> Result<(Decimal, int), DecodeError> {
    let (neg, i1): (bool, int) = if 0 <= i < s.len() && s[i] == '-' {
        (true, i + 1)
    } else {
        (false, i)
    };
    if !(0 <= i1 < s.len() && is_digit_char(s[i1])) {
        Err(DecodeError::Syntax)
    } else if s[i1] == '0' && i1 + 1 < s.len() && is_digit_char(s[i1 + 1]) {
        Err(DecodeError::Syntax)
    } else {
        match sp_digits(s, i1, 0) {
            Ok((ip, i2)) => {
                if i2 < s.len() && s[i2] == '.' {
                    if i2 + 1 < s.len() && is_digit_char(s[i2 + 1]) {
                        match sp_digits(s, i2 + 1, ip) {
                            Ok((m, i3)) => sp_exponent(s, i3, neg, m, i3 - (i2 + 1)),
                            Err(err) => Err(err),
                        }
                    } else {
                        Err(DecodeError::Syntax)
                    }
                } else {
                    sp_exponent(s, i2, neg, ip, 0)
                }
            },
            Err(err) => Err(err),
        }
    }
}

/// The value of a hexadecimal digit, or `None`.
pub open spec fn hex_value(c: char) -> Option<u32> {
    let u = c as u32;
    if '0' as u32 <= u && u <= '9' as u32 {
        Some((u - '0' as u32) as u32)
    } else if 'a' as u32 <= u && u <= 'f' as u32 {
        Some((u - 'a' as u32 + 10) as u32)
    } else if 'A' as u32 <= u && u <= 'F' as u32 {
        Some((u - 'A' as u32 + 10) as u32)
    } else {
        None
    }
}

/// The value of the four hexadecimal digits at `i`, or `None`.
pub open spec fn sp_hex4(s: Seq<char>, i: int) -> Option<u32> {
    if 0 <= i && i + 4 <= s.len() {
        match (hex_value(s[i]), hex_value(s[i + 1]), hex_value(s[i + 2]), hex_value(s[i + 3])) {
            (Some(a), Some(b), Some(c), Some(d)) => Some(
                (a * 0x1000 + b * 0x100 + c * 0x10 + d) as u32,
            ),
            _ => None,
        }
    } else {
        None
    }
}

/// Parses the body of a JSON string from `i` (just past the opening quote) to
/// its closing quote, resolving escapes onto the accumulator. Returns the
/// characters and the index just past the closing quote. An unescaped control
/// character, a bad escape, a lone surrogate or an unterminated string is a
/// syntax error.
pub open spec fn sp_string_chars(s: Seq<char>, i: int, acc: Seq<char>) -> Result<
    (Seq<char>, int),
    DecodeError,
>
    decreases s.len() - i,
{
    if !(0 <= i < s.len()) {
        Err(DecodeError::Syntax)
    } else if s[i] == '"' {
        Ok((acc, i + 1))
    } else if s[i] == '\\' {
        if i + 1 < s.len() {
            let e = s[i + 1];
            if e == '"' {
                sp_string_chars(s, i + 2, acc.push('"'))
            } else if e == '\\' {
                sp_string_chars(s, i + 2, acc.push('\\'))
            } else if e == '/' {
                sp_string_chars(s, i + 2, acc.push('/'))
            } else if e == 'b' {
                sp_string_chars(s, i + 2, acc.push('\u{0008}'))
            } else if e == 'f' {
                sp_string_chars(s, i + 2, acc.push('\u{000C}'))
            } else if e == 'n' {
                sp_string_chars(s, i + 2, acc.push('\n'))
            } else if e == 'r' {
                sp_string_chars(s, i + 2, acc.push('\r'))
            } else if e == 't' {
                sp_string_chars(s, i + 2, acc.push('\t'))
            } else if e == 'u' {
                match sp_hex4(s, i + 2) {
                    Some(u) => {
                        if u < 0xD800 || 0xE000 <= u {
                            sp_string_chars(s, i + 6, acc.push(u as char))
                        } else if u < 0xDC00 {
                            // a high surrogate: a low surrogate must follow
                            if i + 7 < s.len() && s[i + 6] == '\\' && s[i + 7] == 'u' {
                                match sp_hex4(s, i + 8) {
                                    Some(u2) => {
                                        if 0xDC00 <= u2 && u2 < 0xE000 {
                                            let cp = (0x10000 + (u - 0xD800) * 0x400 + (u2
                                                - 0xDC00)) as u32;
                                            sp_string_chars(s, i + 12, acc.push(cp as char))
                                        } else {
                                            Err(DecodeError::Syntax)
                                        }
                                    },
                                    None => Err(DecodeError::Syntax),
                                }
                            } else {
                                Err(DecodeError::Syntax)
                            }
                        } else {
                            Err(DecodeError::Syntax)
                        }
                    },
                    None => Err(DecodeError::Syntax),
                }
            } else {
                Err(DecodeError::Syntax)
            }
        } else {
            Err(DecodeError::Syntax)
        }
    } else if (s[i] as u32) < 0x20 {
        Err(DecodeError::Syntax)
    } else {
        sp_string_chars(s, i + 1, acc.push(s[i]))
    }
}

/// Whether `c` is JSON whitespace.
fn is_ws(c: char) -> (r: bool)
    ensures
        r == is_ws_char(c),
{
    c == ' ' || c == '\t' || c == '\n' || c == '\r'
}

/// Whether `c` is a decimal digit.
fn is_digit(c: char) -> (r: bool)
    ensures
        r == is_digit_char(c),
{
    let u: u32 = c as u32;
    '0' as u32 <= u && u <= '9' as u32
}

/// Skips whitespace starting at `i`.
fn skip_ws(s: &Vec<char>, i: usize) -> (r: usize)
    requires
        i <= s@.len(),
    ensures
        r == sp_skip_ws(s@, i as int),
        i <= r <= s@.len(),
    decreases s@.len() - i,
{
    if i < s.len() && is_ws(s[i]) {
        skip_ws(s, i + 1)
    } else {
        i
    }
}

/// The result of a scanning step, seen at the specification level.
pub open spec fn digits_res_view(r: Result<(u64, usize), DecodeError>) -> Result<
    (u64, int),
    DecodeError,
> {
    match r {
        Ok((m, i)) => Ok((m, i as int)),
        Err(e) => Err(e),
    }
}

/// Folds a run of digits onto `acc`, exactly as [`sp_digits`] does.
fn parse_digits(s: &Vec<char>, i: usize, acc: u64) -> (r: Result<(u64, usize), DecodeError>)
    requires
        i <= s@.len(),
    ensures
        digits_res_view(r) == sp_digits(s@, i as int, acc),
        r matches Ok((m, j)) ==> i <= j <= s@.len(),
    decreases s@.len() - i,
{
    if i < s.len() && is_digit(s[i]) {
        let d: u64 = (s[i] as u32 - '0' as u32) as u64;
        if acc > (u64::MAX - d) / 10 {
            Err(DecodeError::NumberOverflow)
        } else {
            parse_digits(s, i + 1, 10 * acc + d)
        }
    } else {
        Ok((acc, i))
    }
}

/// The value of a hexadecimal digit.
fn hex_digit(c: char) -> (r: Option<u32>)
    ensures
        r == hex_value(c),
{
    let u: u32 = c as u32;
    if '0' as u32 <= u && u <= '9' as u32 {
        Some(u - '0' as u32)
    } else if 'a' as u32 <= u && u <= 'f' as u32 {
        Some(u - 'a' as u32 + 10)
    } else if 'A' as u32 <= u && u <= 'F' as u32 {
        Some(u - 'A' as u32 + 10)
    } else {
        None
    }
}

/// The value of the four hexadecimal digits at `i`.
fn hex4(s: &Vec<char>, i: usize) -> (r: Option<u32>)
    requires
        i <= s@.len(),
    ensures
        r == sp_hex4(s@, i as int),
{
    if s.len() - i >= 4 {
        match (hex_digit(s[i]), hex_digit(s[i + 1]), hex_digit(s[i + 2]), hex_digit(s[i + 3])) {
            (Some(a), Some(b), Some(c), Some(d)) => Some(a * 0x1000 + b * 0x100 + c * 0x10 + d),
            _ => None,
        }
    } else {
        None
    }
}

/// The result of a string-body parse, seen at the specification level.
pub open spec fn text_res_view(r: Result<(Vec<char>, usize), DecodeError>) -> Result<
    (Seq<char>, int),
    DecodeError,
> {
    match r {
        Ok((v, i)) => Ok((v@, i as int)),
        Err(e) => Err(e),
    }
}

/// Parses the body of a JSON string, exactly as [`sp_string_chars`] does.
fn parse_string_chars(s: &Vec<char>, i: usize, acc: Vec<char>) -> (r: Result<
    (Vec<char>, usize),
    DecodeError,
>)
    requires
        i <= s@.len(),
    ensures
        text_res_view(r) == sp_string_chars(s@, i as int, acc@),
        r matches Ok((v, j)) ==> i <= j <= s@.len(),
    decreases s@.len() - i,
{
    if !(i < s.len()) {
        Err(DecodeError::Syntax)
    } else if s[i] == '"' {
        Ok((acc, i + 1))
    } else if s[i] == '\\' {
        if i + 1 < s.len() {
            let e = s[i + 1];
            if e == '"' {
                let mut acc = acc;
                acc.push('"');
                parse_string_chars(s, i + 2, acc)
            } else if e == '\\' {
                let mut acc = acc;
                acc.push('\\');
                parse_string_chars(s, i + 2, acc)
            } else if e == '/' {
                let mut acc = acc;
                acc.push('/');
                parse_string_chars(s, i + 2, acc)
            } else if e == 'b' {
                let mut acc = acc;
                acc.push('\u{0008}');
                parse_string_chars(s, i + 2, acc)
            } else if e == 'f' {
                let mut acc = acc;
                acc.push('\u{000C}');
                parse_string_chars(s, i + 2, acc)
            } else if e == 'n' {
                let mut acc = acc;
                acc.push('\n');
                parse_string_chars(s, i + 2, acc)
            } else if e == 'r' {
                let mut acc = acc;
                acc.push('\r');
                parse_string_chars(s, i + 2, acc)
            } else if e == 't' {
                let mut acc = acc;
                acc.push('\t');
                parse_string_chars(s, i + 2, acc)
            } else if e == 'u' {
                match hex4(s, i + 2) {
                    Some(u) => {
                        if u < 0xD800 || 0xE000 <= u {
                            match char_of_scalar(u) {
                                Some(c) => {
                                    proof {
                                        vstd::utf8::char_u32_cast(c, u);
                                    }
                                    let mut acc = acc;
                                    acc.push(c);
                                    parse_string_chars(s, i + 6, acc)
                                },
                                None => {
                                    proof {
                                        assert(false);
                                    }
                                    Err(DecodeError::Syntax)
                                },
                            }
                        } else if u < 0xDC00 {
                            if s.len() - i > 7 && s[i + 6] == '\\' && s[i + 7] == 'u' {
                                match hex4(s, i + 8) {
                                    Some(u2) => {
                                        if 0xDC00 <= u2 && u2 < 0xE000 {
                                            let cp: u32 = 0x10000 + (u - 0xD800) * 0x400 + (u2
                                                - 0xDC00);
                                            match char_of_scalar(cp) {
                                                Some(c) => {
                                                    proof {
                                                        vstd::utf8::char_u32_cast(c, cp);
                                                    }
                                                    let mut acc = acc;
                                                    acc.push(c);
                                                    parse_string_chars(s, i + 12, acc)
                                                },
                                                None => {
                                                    proof {
                                                        assert(false);
                                                    }
                                                    Err(DecodeError::Syntax)
                                                },
                                            }
                                        } else {
                                            Err(DecodeError::Syntax)
                                        }
                                    },
                                    None => Err(DecodeError::Syntax),
                                }
                            } else {
                                Err(DecodeError::Syntax)
                            }
                        } else {
                            Err(DecodeError::Syntax)
                        }
                    },
                    None => Err(DecodeError::Syntax),
                }
            } else {
                Err(DecodeError::Syntax)
            }
        } else {
            Err(DecodeError::Syntax)
        }
    } else if (s[i] as u32) < 0x20 {
        Err(DecodeError::Syntax)
    } else {
        let c = s[i];
        let mut acc = acc;
        acc.push(c);
        parse_string_chars(s, i + 1, acc)
    }
}

/// The result of a number parse, seen at the specification level.
pub open spec fn dec_res_view(r: Result<(Decimal, usize), DecodeError>) -> Result<
    (Decimal, int),
    DecodeError,
> {
    match r {
        Ok((d, i)) => Ok((d, i as int)),
        Err(e) => Err(e),
    }
}

/// Multiplies by ten `k` times, exactly as [`sp_scale_up`] does.
fn scale_up(m: u64, k: i128) -> (r: Option<u64>)
    ensures
        r == sp_scale_up(m, k as int),
    decreases
            (if k >= 0 {
                k
            } else {
                0
            }),
{
    if k <= 0 || m == 0 {
        Some(m)
    } else if m > u64::MAX / 10 {
        None
    } else {
        scale_up(m * 10, k - 1)
    }
}

/// Finishes a number, exactly as [`sp_make_decimal`] does. The signed scale
/// is carried as `i128`, which the parser keeps well in range.
fn make_decimal(neg: bool, m: u64, scale: i128, i: usize) -> (r: Result<
    (Decimal, usize),
    DecodeError,
>)
    requires
        scale > i128::MIN,
    ensures
        dec_res_view(r) == sp_make_decimal(neg, m, scale as int, i as int),
{
    if scale > u32::MAX as i128 {
        Err(DecodeError::NumberOverflow)
    } else if scale >= 0 {
        Ok((Decimal { negative: neg, mantissa: m, scale: scale as u32 }, i))
    } else {
        match scale_up(m, -scale) {
            Some(m2) => Ok((Decimal { negative: neg, mantissa: m2, scale: 0 }, i)),
            None => Err(DecodeError::NumberOverflow),
        }
    }
}

/// Parses an optional exponent, exactly as [`sp_exponent`] does.
fn parse_exponent(s: &Vec<char>, i: usize, neg: bool, m: u64, scale0: usize) -> (r: Result<
    (Decimal, usize),
    DecodeError,
>)
    requires
        i <= s@.len(),
        scale0 <= s@.len(),
    ensures
        dec_res_view(r) == sp_exponent(s@, i as int, neg, m, scale0 as int),
        r matches Ok((d, j)) ==> i <= j <= s@.len(),
{
    if i < s.len() && (s[i] == 'e' || s[i] == 'E') {
        let (esign, j): (bool, usize) = if i + 1 < s.len() && s[i + 1] == '-' {
            (true, i + 2)
        } else if i + 1 < s.len() && s[i + 1] == '+' {
            (false, i + 2)
        } else {
            (false, i + 1)
        };
        if j < s.len() && is_digit(s[j]) {
            match parse_digits(s, j, 0) {
                Ok((e, k)) => {
                    let scale: i128 = if esign {
                        scale0 as i128 + e as i128
                    } else {
                        scale0 as i128 - e as i128
                    };
                    make_decimal(neg, m, scale, k)
                },
                Err(err) => Err(err),
            }
        } else {
            Err(DecodeError::Syntax)
        }
    } else {
        make_decimal(neg, m, scale0 as i128, i)
    }
}

/// Parses a JSON number, exactly as [`sp_number`] does.
fn parse_number(s: &Vec<char>, i: usize) -> (r: Result<(Decimal, usize), DecodeError>)
    requires
        i <= s@.len(),
    ensures
        dec_res_view(r) == sp_number(s@, i as int),
        r matches Ok((d, j)) ==> i <= j <= s@.len(),
{
    let (neg, i1): (bool, usize) = if i < s.len() && s[i] == '-' {
        (true, i + 1)
    } else {
        (false, i)
    };
    if !(i1 < s.len() && is_digit(s[i1])) {
        Err(DecodeError::Syntax)
    } else if s[i1] == '0' && i1 + 1 < s.len() && is_digit(s[i1 + 1]) {
        Err(DecodeError::Syntax)
    } else {
        match parse_digits(s, i1, 0) {
            Ok((ip, i2)) => {
                if i2 < s.len() && s[i2] == '.' {
                    if i2 + 1 < s.len() && is_digit(s[i2 + 1]) {
                        match parse_digits(s, i2 + 1, ip) {
                            Ok((m, i3)) => parse_exponent(s, i3, neg, m, i3 - (i2 + 1)),
                            Err(err) => Err(err),
                        }
                    } else {
                        Err(DecodeError::Syntax)
                    }
                } else {
                    parse_exponent(s, i2, neg, ip, 0)
                }
            },
            Err(err) => Err(err),
        }
    }
}

/// The views of a sequence of documents.
pub open spec fn vec_views(v: Seq<Json>) -> Seq<JsonVal> {
    Seq::new(v.len(), |i: int| v[i]@)
}

/// The views of a sequence of object members.
pub open spec fn member_views(v: Seq<(String, Json)>) -> Seq<(Seq<char>, JsonVal)> {
    Seq::new(v.len(), |i: int| (v[i].0@, v[i].1@))
}

pub proof fn lemma_vec_views_push(v: Seq<Json>, x: Json)
    ensures
        vec_views(v.push(x)) == vec_views(v).push(x@),
{
    assert(vec_views(v.push(x)) =~= vec_views(v).push(x@));
}

pub proof fn lemma_member_views_push(v: Seq<(String, Json)>, k: String, x: Json)
    ensures
        member_views(v.push((k, x))) == member_views(v).push((k@, x@)),
{
    assert(member_views(v.push((k, x))) =~= member_views(v).push((k@, x@)));
}

pub proof fn lemma_arr_view(v: Vec<Json>)
    ensures
        Json::Arr(v)@ == JsonVal::Arr(vec_views(v@)),
{
    let s1 = Json::Arr(v)@->Arr_0;
    let s2 = vec_views(v@);
    assert(s1.len() == v@.len());
    assert(s2.len() == v@.len());
    assert forall|i: int| 0 <= i < v@.len() implies s1[i] == s2[i] by {
        assert(s1[i] == v@[i]@);
        assert(s2[i] == v@[i]@);
    }
    assert(s1 =~= s2);
}

pub proof fn lemma_obj_view(v: Vec<(String, Json)>)
    ensures
        Json::Obj(v)@ == JsonVal::Obj(member_views(v@)),
{
    let s1 = Json::Obj(v)@->Obj_0;
    let s2 = member_views(v@);
    assert(s1.len() == v@.len());
    assert(s2.len() == v@.len());
    assert forall|i: int| 0 <= i < v@.len() implies s1[i] == s2[i] by {
        assert(s1[i] == (v@[i].0@, v@[i].1@));
        assert(s2[i] == (v@[i].0@, v@[i].1@));
    }
    assert(s1 =~= s2);
}

/// Parses a JSON value starting at `i`, after any whitespace. The fuel bounds
/// the recursion; every step that spends fuel consumes at least one input
/// character, so a fuel of one more than the input length never runs out.
pub open spec fn sp_value(s: Seq<char>, i: int, fuel: nat) -> Result<(JsonVal, int), DecodeError>
    decreases fuel, 0int,
{
    if fuel == 0 {
        Err(DecodeError::Syntax)
    } else {
        let i0 = sp_skip_ws(s, i);
        if !(i0 < s.len()) {
            Err(DecodeError::Syntax)
        } else {
            let c = s[i0];
            if c == 'n' {
                if i0 + 4 <= s.len() && s[i0 + 1] == 'u' && s[i0 + 2] == 'l' && s[i0 + 3] == 'l' {
                    Ok((JsonVal::Null, i0 + 4))
                } else {
                    Err(DecodeError::Syntax)
                }
            } else if c == 't' {
                if i0 + 4 <= s.len() && s[i0 + 1] == 'r' && s[i0 + 2] == 'u' && s[i0 + 3] == 'e' {
                    Ok((JsonVal::Bool(true), i0 + 4))
                } else {
                    Err(DecodeError::Syntax)
                }
            } else if c == 'f' {
                if i0 + 5 <= s.len() && s[i0 + 1] == 'a' && s[i0 + 2] == 'l' && s[i0 + 3] == 's'
                    && s[i0 + 4] == 'e' {
                    Ok((JsonVal::Bool(false), i0 + 5))
                } else {
                    Err(DecodeError::Syntax)
                }
            } else if c == '"' {
                match sp_string_chars(s, i0 + 1, Seq::empty()) {
                    Ok((cs, j)) => Ok((JsonVal::Text(cs), j)),
                    Err(e) => Err(e),
                }
            } else if c == '-' || is_digit_char(c) {
                match sp_number(s, i0) {
                    Ok((d, j)) => Ok((JsonVal::Num(d), j)),
                    Err(e) => Err(e),
                }
            } else if c == '[' {
                let i1 = sp_skip_ws(s, i0 + 1);
                if i1 < s.len() && s[i1] == ']' {
                    Ok((JsonVal::Arr(Seq::empty()), i1 + 1))
                } else {
                    sp_arr_items(s, i0 + 1, Seq::empty(), (fuel - 1) as nat)
                }
            } else if c == '{' {
                let i1 = sp_skip_ws(s, i0 + 1);
                if i1 < s.len() && s[i1] == '}' {
                    Ok((JsonVal::Obj(Seq::empty()), i1 + 1))
                } else {
                    sp_obj_members(s, i0 + 1, Seq::empty(), (fuel - 1) as nat)
                }
            } else {
                Err(DecodeError::Syntax)
            }
        }
    }
}

/// Parses the elements of a non-empty array, the accumulator holding those
/// already read, and returns the whole array value.
pub open spec fn sp_arr_items(s: Seq<char>, i: int, acc: Seq<JsonVal>, fuel: nat) -> Result<
    (JsonVal, int),
    DecodeError,
>
    decreases fuel, 1int,
{
    if fuel == 0 {
        Err(DecodeError::Syntax)
    } else {
        match sp_value(s, i, fuel) {
            Err(e) => Err(e),
            Ok((v, j)) => {
                let j1 = sp_skip_ws(s, j);
                if j1 < s.len() && s[j1] == ',' {
                    sp_arr_items(s, j1 + 1, acc.push(v), (fuel - 1) as nat)
                } else if j1 < s.len() && s[j1] == ']' {
                    Ok((JsonVal::Arr(acc.push(v)), j1 + 1))
                } else {
                    Err(DecodeError::Syntax)
                }
            },
        }
    }
}

/// Parses the members of a non-empty object, the accumulator holding those
/// already read, and returns the whole object value.
pub open spec fn sp_obj_members(
    s: Seq<char>,
    i: int,
    acc: Seq<(Seq<char>, JsonVal)>,
    fuel: nat,
) -> Result<(JsonVal, int), DecodeError>
    decreases fuel, 1int,
{
    if fuel == 0 {
        Err(DecodeError::Syntax)
    } else {
        let i0 = sp_skip_ws(s, i);
        if !(i0 < s.len() && s[i0] == '"') {
            Err(DecodeError::Syntax)
        } else {
            match sp_string_chars(s, i0 + 1, Seq::empty()) {
                Err(e) => Err(e),
                Ok((key, j)) => {
                    let j1 = sp_skip_ws(s, j);
                    if !(j1 < s.len() && s[j1] == ':') {
                        Err(DecodeError::Syntax)
                    } else {
                        match sp_value(s, j1 + 1, fuel) {
                            Err(e) => Err(e),
                            Ok((v, k)) => {
                                let k1 = sp_skip_ws(s, k);
                                if k1 < s.len() && s[k1] == ',' {
                                    sp_obj_members(s, k1 + 1, acc.push((key, v)), (fuel - 1) as nat)
                                } else if k1 < s.len() && s[k1] == '}' {
                                    Ok((JsonVal::Obj(acc.push((key, v))), k1 + 1))
                                } else {
                                    Err(DecodeError::Syntax)
                                }
                            },
                        }
                    }
                },
            }
        }
    }
}

/// A whole JSON document: one value, with nothing but whitespace after it.
pub open spec fn sp_parse_json(s: Seq<char>) -> Result<JsonVal, DecodeError> {
    match sp_value(s, 0, (s.len() + 1) as nat) {
        Ok((v, j)) => if sp_skip_ws(s, j) == s.len() {
            Ok(v)
        } else {
            Err(DecodeError::Syntax)
        },
        Err(e) => Err(e),
    }
}

/// The result of a value parse, seen at the specification level.
pub open spec fn val_res_view(r: Result<(Json, usize), DecodeError>) -> Result<
    (JsonVal, int),
    DecodeError,
> {
    match r {
        Ok((v, j)) => Ok((v@, j as int)),
        Err(e) => Err(e),
    }
}

/// The result of a document parse, seen at the specification level.
pub open spec fn json_res_view(r: Result<Json, DecodeError>) -> Result<JsonVal, DecodeError> {
    match r {
        Ok(v) => Ok(v@),
        Err(e) => Err(e),
    }
}

/// Parses a JSON value, exactly as [`sp_value`] does.
fn parse_value(s: &Vec<char>, i: usize, fuel: usize) -> (r: Result<(Json, usize), DecodeError>)
    requires
        i <= s@.len(),
    ensures
        val_res_view(r) == sp_value(s@, i as int, fuel as nat),
        r matches Ok((v, j)) ==> j <= s@.len(),
    decreases fuel, 0int,
{
    if fuel == 0 {
        Err(DecodeError::Syntax)
    } else {
        let i0 = skip_ws(s, i);
        if !(i0 < s.len()) {
            Err(DecodeError::Syntax)
        } else {
            let c = s[i0];
            if c == 'n' {
                if s.len() - i0 >= 4 && s[i0 + 1] == 'u' && s[i0 + 2] == 'l' && s[i0 + 3] == 'l' {
                    Ok((Json::Null, i0 + 4))
                } else {
                    Err(DecodeError::Syntax)
                }
            } else if c == 't' {
                if s.len() - i0 >= 4 && s[i0 + 1] == 'r' && s[i0 + 2] == 'u' && s[i0 + 3] == 'e' {
                    Ok((Json::Bool(true), i0 + 4))
                } else {
                    Err(DecodeError::Syntax)
                }
            } else if c == 'f' {
                if s.len() - i0 >= 5 && s[i0 + 1] == 'a' && s[i0 + 2] == 'l' && s[i0 + 3] == 's'
                    && s[i0 + 4] == 'e' {
                    Ok((Json::Bool(false), i0 + 5))
                } else {
                    Err(DecodeError::Syntax)
                }
            } else if c == '"' {
                match parse_string_chars(s, i0 + 1, Vec::new()) {
                    Ok((cs, j)) => Ok((Json::Text(string_of_chars(&cs)), j)),
                    Err(e) => Err(e),
                }
            } else if c == '-' || is_digit(c) {
                match parse_number(s, i0) {
                    Ok((d, j)) => Ok((Json::Num(d), j)),
                    Err(e) => Err(e),
                }
            } else if c == '[' {
                let i1 = skip_ws(s, i0 + 1);
                if i1 < s.len() && s[i1] == ']' {
                    let empty: Vec<Json> = Vec::new();
                    proof {
                        lemma_arr_view(empty);
                        assert(vec_views(Seq::<Json>::empty()) =~= Seq::<JsonVal>::empty());
                    }
                    Ok((Json::Arr(empty), i1 + 1))
                } else {
                    proof {
                        assert(vec_views(Seq::<Json>::empty()) =~= Seq::<JsonVal>::empty());
                    }
                    parse_arr_items(s, i0 + 1, Vec::new(), fuel - 1)
                }
            } else if c == '{' {
                let i1 = skip_ws(s, i0 + 1);
                if i1 < s.len() && s[i1] == '}' {
                    let empty: Vec<(String, Json)> = Vec::new();
                    proof {
                        lemma_obj_view(empty);
                        assert(member_views(Seq::<(String, Json)>::empty()) =~= Seq::<
                            (Seq<char>, JsonVal),
                        >::empty());
                    }
                    Ok((Json::Obj(empty), i1 + 1))
                } else {
                    proof {
                        assert(member_views(Seq::<(String, Json)>::empty()) =~= Seq::<
                            (Seq<char>, JsonVal),
                        >::empty());
                    }
                    parse_obj_members(s, i0 + 1, Vec::new(), fuel - 1)
                }
            } else {
                Err(DecodeError::Syntax)
            }
        }
    }
}

/// Parses array elements, exactly as [`sp_arr_items`] does.
fn parse_arr_items(s: &Vec<char>, i: usize, acc: Vec<Json>, fuel: usize) -> (r: Result<
    (Json, usize),
    DecodeError,
>)
    requires
        i <= s@.len(),
    ensures
        val_res_view(r) == sp_arr_items(s@, i as int, vec_views(acc@), fuel as nat),
        r matches Ok((v, j)) ==> j <= s@.len(),
    decreases fuel, 1int,
{
    if fuel == 0 {
        Err(DecodeError::Syntax)
    } else {
        match parse_value(s, i, fuel) {
            Err(e) => Err(e),
            Ok((v, j)) => {
                let j1 = skip_ws(s, j);
                if j1 < s.len() && s[j1] == ',' {
                    proof {
                        lemma_vec_views_push(acc@, v);
                    }
                    let mut acc = acc;
                    acc.push(v);
                    parse_arr_items(s, j1 + 1, acc, fuel - 1)
                } else if j1 < s.len() && s[j1] == ']' {
                    proof {
                        lemma_vec_views_push(acc@, v);
                    }
                    let mut acc = acc;
                    acc.push(v);
                    proof {
                        lemma_arr_view(acc);
                    }
                    Ok((Json::Arr(acc), j1 + 1))
                } else {
                    Err(DecodeError::Syntax)
                }
            },
        }
    }
}

/// Parses object members, exactly as [`sp_obj_members`] does.
fn parse_obj_members(s: &Vec<char>, i: usize, acc: Vec<(String, Json)>, fuel: usize) -> (r: Result<
    (Json, usize),
    DecodeError,
>)
    requires
        i <= s@.len(),
    ensures
        val_res_view(r) == sp_obj_members(s@, i as int, member_views(acc@), fuel as nat),
        r matches Ok((v, j)) ==> j <= s@.len(),
    decreases fuel, 1int,
{
    if fuel == 0 {
        Err(DecodeError::Syntax)
    } else {
        let i0 = skip_ws(s, i);
        if !(i0 < s.len() && s[i0] == '"') {
            Err(DecodeError::Syntax)
        } else {
            match parse_string_chars(s, i0 + 1, Vec::new()) {
                Err(e) => Err(e),
                Ok((key_chars, j)) => {
                    let key = string_of_chars(&key_chars);
                    let j1 = skip_ws(s, j);
                    if !(j1 < s.len() && s[j1] == ':') {
                        Err(DecodeError::Syntax)
                    } else {
                        match parse_value(s, j1 + 1, fuel) {
                            Err(e) => Err(e),
                            Ok((v, k)) => {
                                let k1 = skip_ws(s, k);
                                if k1 < s.len() && s[k1] == ',' {
                                    proof {
                                        lemma_member_views_push(acc@, key, v);
                                    }
                                    let mut acc = acc;
                                    acc.push((key, v));
                                    parse_obj_members(s, k1 + 1, acc, fuel - 1)
                                } else if k1 < s.len() && s[k1] == '}' {
                                    proof {
                                        lemma_member_views_push(acc@, key, v);
                                    }
                                    let mut acc = acc;
                                    acc.push((key, v));
                                    proof {
                                        lemma_obj_view(acc);
                                    }
                                    Ok((Json::Obj(acc), k1 + 1))
                                } else {
                                    Err(DecodeError::Syntax)
                                }
                            },
                        }
                    }
                },
            }
        }
    }
}

/// Parses a whole JSON document, exactly as [`sp_parse_json`] does.
pub fn parse_json(text: &str) -> (r: Result<Json, DecodeError>)
    ensures
        json_res_view(r) == sp_parse_json(text@),
{
    let cs = chars_of_str(text);
    match parse_value(&cs, 0, cs.len() + 1) {
        Ok((v, j)) => {
            let j1 = skip_ws(&cs, j);
            if j1 == cs.len() {
                Ok(v)
            } else {
                Err(DecodeError::Syntax)
            }
        },
        Err(e) => Err(e),
    }
}

/// The character of a decimal digit value.
pub open spec fn digit_char(d: int) -> char {
    if d == 0 {
        '0'
    } else if d == 1 {
        '1'
    } else if d == 2 {
        '2'
    } else if d == 3 {
        '3'
    } else if d == 4 {
        '4'
    } else if d == 5 {
        '5'
    } else if d == 6 {
        '6'
    } else if d == 7 {
        '7'
    } else if d == 8 {
        '8'
    } else {
        '9'
    }
}

/// The character of a hexadecimal digit value, lower case.
pub open spec fn hex_char(d: int) -> char {
    if d < 10 {
        digit_char(d)
    } else if d == 10 {
        'a'
    } else if d == 11 {
        'b'
    } else if d == 12 {
        'c'
    } else if d == 13 {
        'd'
    } else if d == 14 {
        'e'
    } else {
        'f'
    }
}

/// The decimal digits of `n`, most significant first.
pub open spec fn sp_digits_of(n: int) -> Seq<char>
    decreases n,
{
    if n < 10 {
        seq![digit_char(n)]
    } else {
        sp_digits_of(n / 10).push(digit_char(n % 10))
    }
}

/// A run of `k` zero characters.
pub open spec fn sp_zeros(k: int) -> Seq<char> {
    Seq::new(if k >= 0 {
        k as nat
    } else {
        0
    }, |i: int| '0')
}

/// The rendering of a decimal: the sign, then the mantissa's digits with a
/// dot inserted `scale` places from the right, zero-padded as needed.
pub open spec fn sp_render_decimal(d: Decimal) -> Seq<char> {
    let ds = sp_digits_of(d.mantissa as int);
    let body = if d.scale == 0 {
        ds
    } else if ds.len() > d.scale {
        ds.subrange(0, ds.len() - d.scale) + seq!['.'] + ds.subrange(
            ds.len() - d.scale,
            ds.len() as int,
        )
    } else {
        seq!['0', '.'] + sp_zeros(d.scale - ds.len()) + ds
    };
    if d.negative {
        seq!['-'] + body
    } else {
        body
    }
}

/// The rendering of one string character: the two-character escapes of the
/// JSON grammar, a `u`-escape for other control characters, the character
/// itself otherwise.
pub open spec fn sp_escape_char(c: char) -> Seq<char> {
    if c == '"' {
        seq!['\\', '"']
    } else if c == '\\' {
        seq!['\\', '\\']
    } else if c == '\n' {
        seq!['\\', 'n']
    } else if c == '\r' {
        seq!['\\', 'r']
    } else if c == '\t' {
        seq!['\\', 't']
    } else if c == '\u{0008}' {
        seq!['\\', 'b']
    } else if c == '\u{000C}' {
        seq!['\\', 'f']
    } else if (c as u32) < 0x20 {
        seq!['\\', 'u', '0', '0', hex_char(c as u32 as int / 16), hex_char(c as u32 as int % 16)]
    } else {
        seq![c]
    }
}

/// The rendering of a string body from index `k` on.
pub open spec fn sp_escape(t: Seq<char>, k: int) -> Seq<char>
    decreases t.len() - k,
{
    if 0 <= k < t.len() {
        sp_escape_char(t[k]) + sp_escape(t, k + 1)
    } else {
        Seq::empty()
    }
}

/// The compact rendering of a value: no insignificant whitespace, strings
/// escaped as [`sp_escape_char`] says, numbers as [`sp_render_decimal`] says.
pub open spec fn sp_render(j: JsonVal) -> Seq<char>
    decreases j, 0int,
{
    match j {
        JsonVal::Null => seq!['n', 'u', 'l', 'l'],
        JsonVal::Bool(b) => if b {
            seq!['t', 'r', 'u', 'e']
        } else {
            seq!['f', 'a', 'l', 's', 'e']
        },
        JsonVal::Num(d) => sp_render_decimal(d),
        JsonVal::Text(t) => seq!['"'] + sp_escape(t, 0) + seq!['"'],
        JsonVal::Arr(elems) => if elems.len() == 0 {
            seq!['[', ']']
        } else {
            seq!['['] + sp_render_list(elems, 0) + seq![']']
        },
        JsonVal::Obj(members) => if members.len() == 0 {
            seq!['{', '}']
        } else {
            seq!['{'] + sp_render_members(members, 0) + seq!['}']
        },
    }
}

/// The rendering of the elements from index `k` on, comma-separated.
pub open spec fn sp_render_list(elems: Seq<JsonVal>, k: int) -> Seq<char>
    decreases elems, elems.len() - k,
{
    if 0 <= k < elems.len() {
        if k + 1 < elems.len() {
            sp_render(elems[k]) + seq![','] + sp_render_list(elems, k + 1)
        } else {
            sp_render(elems[k])
        }
    } else {
        Seq::empty()
    }
}

/// The rendering of the members from index `k` on: quoted key, colon, value,
/// comma-separated.
pub open spec fn sp_render_members(members: Seq<(Seq<char>, JsonVal)>, k: int) -> Seq<char>
    decreases members, members.len() - k,
{
    if 0 <= k < members.len() {
        let one = seq!['"'] + sp_escape(members[k].0, 0) + seq!['"', ':'] + sp_render(
            members[k].1,
        );
        if k + 1 < members.len() {
            one + seq![','] + sp_render_members(members, k + 1)
        } else {
            one
        }
    } else {
        Seq::empty()
    }
}

/// The character of a decimal digit value.
fn digit_of(d: u64) -> (c: char)
    requires
        d < 10,
    ensures
        c == digit_char(d as int),
{
    if d == 0 {
        '0'
    } else if d == 1 {
        '1'
    } else if d == 2 {
        '2'
    } else if d == 3 {
        '3'
    } else if d == 4 {
        '4'
    } else if d == 5 {
        '5'
    } else if d == 6 {
        '6'
    } else if d == 7 {
        '7'
    } else if d == 8 {
        '8'
    } else {
        '9'
    }
}

/// The character of a hexadecimal digit value, lower case.
fn hex_of(d: u32) -> (c: char)
    requires
        d < 16,
    ensures
        c == hex_char(d as int),
{
    if d < 10 {
        digit_of(d as u64)
    } else if d == 10 {
        'a'
    } else if d == 11 {
        'b'
    } else if d == 12 {
        'c'
    } else if d == 13 {
        'd'
    } else if d == 14 {
        'e'
    } else {
        'f'
    }
}

/// The decimal digits of `n`, most significant first.
fn digits_vec(n: u64) -> (v: Vec<char>)
    ensures
        v@ == sp_digits_of(n as int),
        v@.len() >= 1,
    decreases n,
{
    if n < 10 {
        let mut v: Vec<char> = Vec::new();
        v.push(digit_of(n));
        proof {
            assert(v@ =~= sp_digits_of(n as int));
        }
        v
    } else {
        let mut v = digits_vec(n / 10);
        v.push(digit_of(n % 10));
        v
    }
}

/// Appends the decimal digits of `n`, most significant first.
pub(crate) fn push_digits(n: u64, out: &mut Vec<char>)
    ensures
        final(out)@ == old(out)@ + sp_digits_of(n as int),
{
    let ds = digits_vec(n);
    push_range(&ds, 0, ds.len(), out);
    proof {
        assert(ds@.subrange(0, ds@.len() as int) =~= ds@);
    }
}

/// Appends `k` zero characters.
fn push_zeros(k: usize, out: &mut Vec<char>)
    ensures
        final(out)@ == old(out)@ + sp_zeros(k as int),
{
    let ghost base = out@;
    for idx in 0..k
        invariant
            out@ == base + sp_zeros(idx as int),
    {
        out.push('0');
        proof {
            assert(sp_zeros(idx as int).push('0') =~= sp_zeros(idx + 1 as int));
            assert(base + sp_zeros(idx as int).push('0') =~= (base + sp_zeros(idx as int)).push(
                '0',
            ));
        }
    }
    proof {
        assert(sp_zeros(0) =~= Seq::<char>::empty());
        assert(base + sp_zeros(0) =~= base);
    }
}

/// Appends the characters of `ds` between `from` and `to`.
fn push_range(ds: &Vec<char>, from: usize, to: usize, out: &mut Vec<char>)
    requires
        from <= to <= ds@.len(),
    ensures
        final(out)@ == old(out)@ + ds@.subrange(from as int, to as int),
{
    let ghost base = out@;
    for idx in from..to
        invariant
            from <= idx <= to <= ds@.len(),
            out@ == base + ds@.subrange(from as int, idx as int),
    {
        out.push(ds[idx]);
        proof {
            assert(ds@.subrange(from as int, idx as int).push(ds@[idx as int]) =~= ds@.subrange(
                from as int,
                idx + 1 as int,
            ));
            assert(base + ds@.subrange(from as int, idx as int).push(ds@[idx as int]) =~= (base
                + ds@.subrange(from as int, idx as int)).push(ds@[idx as int]));
        }
    }
    proof {
        assert(base + ds@.subrange(from as int, from as int) =~= base);
    }
}

/// Appends the rendering of a decimal, exactly as [`sp_render_decimal`] says.
fn render_decimal(d: &Decimal, out: &mut Vec<char>)
    ensures
        final(out)@ == old(out)@ + sp_render_decimal(*d),
{
    if d.negative {
        out.push('-');
    }
    let ds = digits_vec(d.mantissa);
    if d.scale == 0 {
        push_range(&ds, 0, ds.len(), out);
        proof {
            assert(ds@.subrange(0, ds@.len() as int) =~= ds@);
            assert(out@ =~= old(out)@ + sp_render_decimal(*d));
        }
    } else if ds.len() > d.scale as usize {
        let cut = ds.len() - d.scale as usize;
        push_range(&ds, 0, cut, out);
        out.push('.');
        push_range(&ds, cut, ds.len(), out);
        proof {
            assert(out@ =~= old(out)@ + sp_render_decimal(*d));
        }
    } else {
        out.push('0');
        out.push('.');
        push_zeros(d.scale as usize - ds.len(), out);
        push_range(&ds, 0, ds.len(), out);
        proof {
            assert(ds@.subrange(0, ds@.len() as int) =~= ds@);
            assert(out@ =~= old(out)@ + sp_render_decimal(*d));
        }
    }
}

/// Appends the rendering of one string character, exactly as
/// [`sp_escape_char`] says.
fn push_escape_char(c: char, out: &mut Vec<char>)
    ensures
        final(out)@ == old(out)@ + sp_escape_char(c),
{
    if c == '"' {
        out.push('\\');
        out.push('"');
    } else if c == '\\' {
        out.push('\\');
        out.push('\\');
    } else if c == '\n' {
        out.push('\\');
        out.push('n');
    } else if c == '\r' {
        out.push('\\');
        out.push('r');
    } else if c == '\t' {
        out.push('\\');
        out.push('t');
    } else if c == '\u{0008}' {
        out.push('\\');
        out.push('b');
    } else if c == '\u{000C}' {
        out.push('\\');
        out.push('f');
    } else if (c as u32) < 0x20 {
        let u: u32 = c as u32;
        out.push('\\');
        out.push('u');
        out.push('0');
        out.push('0');
        out.push(hex_of(u / 16));
        out.push(hex_of(u % 16));
    } else {
        out.push(c);
    }
    proof {
        assert(out@ =~= old(out)@ + sp_escape_char(c));
    }
}

/// Appends the escaped string body from index `k` on.
fn push_escaped(cs: &Vec<char>, k: usize, out: &mut Vec<char>)
    requires
        k <= cs@.len(),
    ensures
        final(out)@ == old(out)@ + sp_escape(cs@, k as int),
    decreases cs@.len() - k,
{
    if k < cs.len() {
        push_escape_char(cs[k], out);
        push_escaped(cs, k + 1, out);
        proof {
            assert(out@ =~= old(out)@ + sp_escape(cs@, k as int));
        }
    } else {
        proof {
            assert(old(out)@ + sp_escape(cs@, k as int) =~= old(out)@);
        }
    }
}

/// Appends the rendering of a value, exactly as [`sp_render`] says.
fn render_value(j: &Json, out: &mut Vec<char>)
    ensures
        final(out)@ == old(out)@ + sp_render(j@),
    decreases j, 0int,
{
    match j {
        Json::Null => {
            out.push('n');
            out.push('u');
            out.push('l');
            out.push('l');
            proof {
                assert(out@ =~= old(out)@ + sp_render(j@));
            }
        },
        Json::Bool(b) => {
            if *b {
                out.push('t');
                out.push('r');
                out.push('u');
                out.push('e');
            } else {
                out.push('f');
                out.push('a');
                out.push('l');
                out.push('s');
                out.push('e');
            }
            proof {
                assert(out@ =~= old(out)@ + sp_render(j@));
            }
        },
        Json::Num(d) => {
            render_decimal(d, out);
        },
        Json::Text(t) => {
            let cs = chars_of_str(t.as_str());
            out.push('"');
            push_escaped(&cs, 0, out);
            out.push('"');
            proof {
                assert(out@ =~= old(out)@ + sp_render(j@));
            }
        },
        Json::Arr(elems) => {
            out.push('[');
            if elems.len() > 0 {
                render_items(elems, 0, out);
            }
            out.push(']');
            proof {
                lemma_arr_view(*elems);
                assert(out@ =~= old(out)@ + sp_render(j@));
            }
        },
        Json::Obj(members) => {
            out.push('{');
            if members.len() > 0 {
                render_members(members, 0, out);
            }
            out.push('}');
            proof {
                lemma_obj_view(*members);
                assert(out@ =~= old(out)@ + sp_render(j@));
            }
        },
    }
}

/// Appends the rendering of the elements from index `k` on.
fn render_items(elems: &Vec<Json>, k: usize, out: &mut Vec<char>)
    requires
        k < elems@.len(),
    ensures
        final(out)@ == old(out)@ + sp_render_list(vec_views(elems@), k as int),
    decreases elems, elems@.len() - k,
{
    render_value(&elems[k], out);
    if elems.len() - k > 1 {
        out.push(',');
        render_items(elems, k + 1, out);
    }
    proof {
        assert(out@ =~= old(out)@ + sp_render_list(vec_views(elems@), k as int));
    }
}

/// Appends the rendering of the members from index `k` on.
fn render_members(members: &Vec<(String, Json)>, k: usize, out: &mut Vec<char>)
    requires
        k < members@.len(),
    ensures
        final(out)@ == old(out)@ + sp_render_members(member_views(members@), k as int),
    decreases members, members@.len() - k,
{
    let cs = chars_of_str(members[k].0.as_str());
    out.push('"');
    push_escaped(&cs, 0, out);
    out.push('"');
    out.push(':');
    render_value(&members[k].1, out);
    if members.len() - k > 1 {
        out.push(',');
        render_members(members, k + 1, out);
    }
    proof {
        assert(out@ =~= old(out)@ + sp_render_members(member_views(members@), k as int));
    }
}

/// Renders a document compactly, exactly as [`sp_render`] says.
pub fn render_json(j: &Json) -> (r: String)
    ensures
        r@ == sp_render(j@),
{
    let mut out: Vec<char> = Vec::new();
    render_value(j, &mut out);
    proof {
        assert(out@ =~= sp_render(j@));
    }
    string_of_chars(&out)
}

/// Ten to the `k`.
pub open spec fn pow10(k: nat) -> int
    decreases k,
{
    if k == 0 {
        1int
    } else {
        10 * pow10((k - 1) as nat)
    }
}

/// The number a run of digit characters denotes.
pub open spec fn digits_value(ds: Seq<char>) -> int
    decreases ds.len(),
{
    if ds.len() == 0 {
        0int
    } else {
        digits_value(ds.drop_last()) * 10 + digit_value(ds.last())
    }
}

/// Whether every character of the run is a digit.
pub open spec fn all_digits(ds: Seq<char>) -> bool {
    forall|i: int| 0 <= i < ds.len() ==> is_digit_char(#[trigger] ds[i])
}

proof fn lemma_digit_char_facts(d: u64)
    requires
        d < 10,
    ensures
        is_digit_char(digit_char(d as int)),
        digit_value(digit_char(d as int)) == d,
        d != 0 ==> digit_char(d as int) != '0',
{
}

proof fn lemma_pow10_pos(k: nat)
    ensures
        pow10(k) >= 1,
    decreases k,
{
    if k > 0 {
        lemma_pow10_pos((k - 1) as nat);
    }
}

/// The digits of any number are digits, at least one of them, and they
/// denote the number itself; for ten and above the first is not zero.
proof fn lemma_digits_of_facts(m: u64)
    ensures
        all_digits(sp_digits_of(m as int)),
        sp_digits_of(m as int).len() >= 1,
        digits_value(sp_digits_of(m as int)) == m,
        m >= 1 ==> sp_digits_of(m as int)[0] != '0',
        (m >= 10) <==> sp_digits_of(m as int).len() >= 2,
    decreases m,
{
    if m < 10 {
        lemma_digit_char_facts(m);
        let ds = sp_digits_of(m as int);
        assert(ds =~= seq![digit_char(m as int)]);
        assert(ds.drop_last() =~= Seq::<char>::empty());
        assert(ds.last() == digit_char(m as int));
        assert(digits_value(Seq::<char>::empty()) == 0);
        assert(digits_value(ds) == 0 * 10 + digit_value(digit_char(m as int)));
        assert(digit_value(digit_char(m as int)) == m);
    } else {
        lemma_digits_of_facts(m / 10);
        lemma_digit_char_facts(m % 10);
        let ds = sp_digits_of(m as int);
        let dsp = sp_digits_of((m / 10) as int);
        assert(ds == dsp.push(digit_char((m % 10) as int)));
        assert(ds.drop_last() =~= dsp);
        assert forall|i: int| 0 <= i < ds.len() implies is_digit_char(#[trigger] ds[i]) by {
            if i < dsp.len() {
                assert(ds[i] == dsp[i]);
            }
        }
    }
}

proof fn lemma_digits_value_nonneg(ds: Seq<char>)
    requires
        all_digits(ds),
    ensures
        digits_value(ds) >= 0,
    decreases ds.len(),
{
    if ds.len() > 0 {
        assert(all_digits(ds.drop_last())) by {
            assert(forall|i: int|
                0 <= i < ds.len() - 1 ==> ds.drop_last()[i] == #[trigger] ds[i]);
        }
        lemma_digits_value_nonneg(ds.drop_last());
    }
}

/// The value of two runs, one after the other.
proof fn lemma_digits_value_split(a: Seq<char>, b: Seq<char>)
    ensures
        digits_value(a + b) == digits_value(a) * pow10(b.len()) + digits_value(b),
    decreases b.len(),
{
    if b.len() == 0 {
        assert(a + b =~= a);
    } else {
        lemma_digits_value_split(a, b.drop_last());
        assert((a + b).drop_last() =~= a + b.drop_last());
        assert((a + b).last() == b.last());
        let va = digits_value(a);
        let n = b.len() - 1;
        assert(va * pow10((n + 1) as nat) == (va * pow10(n as nat)) * 10) by (nonlinear_arith)
            requires
                pow10((n + 1) as nat) == 10 * pow10(n as nat),
        ;
    }
}

/// A run of zero characters denotes zero.
proof fn lemma_zeros_value(k: nat)
    ensures
        all_digits(sp_zeros(k as int)),
        sp_zeros(k as int).len() == k,
        digits_value(sp_zeros(k as int)) == 0,
    decreases k,
{
    if k > 0 {
        lemma_zeros_value((k - 1) as nat);
        assert(sp_zeros(k as int).drop_last() =~= sp_zeros(k as int - 1));
    }
}

/// Scanning a run of digits folds its value onto the accumulator: the scan
/// carried from `i` equals the scan carried from `j` with the run's value
/// absorbed, as long as the result fits.
proof fn lemma_digits_run(s: Seq<char>, i: int, j: int, acc: u64)
    requires
        0 <= i <= j <= s.len(),
        forall|k: int| i <= k < j ==> is_digit_char(#[trigger] s[k]),
        acc * pow10((j - i) as nat) + digits_value(s.subrange(i, j)) <= u64::MAX,
    ensures
        sp_digits(s, i, acc) == sp_digits(
            s,
            j,
            (acc * pow10((j - i) as nat) + digits_value(s.subrange(i, j))) as u64,
        ),
    decreases j - i,
{
    lemma_pow10_pos((j - i) as nat);
    if i == j {
        assert(s.subrange(i, j) =~= Seq::<char>::empty());
    } else {
        let run = s.subrange(i, j);
        let prev = s.subrange(i, j - 1);
        assert(run.drop_last() =~= prev);
        assert(run.last() == s[j - 1]);
        let d = digit_value(s[j - 1]);
        assert(d < 10 && d >= 0);
        assert(all_digits(prev)) by {
            assert(forall|k: int| 0 <= k < prev.len() ==> prev[k] == #[trigger] s[i + k]);
        }
        lemma_digits_value_nonneg(prev);
        lemma_pow10_pos((j - 1 - i) as nat);
        let a = acc * pow10((j - 1 - i) as nat) + digits_value(prev);
        let target = acc * pow10((j - i) as nat) + digits_value(run);
        assert(target == a * 10 + d) by (nonlinear_arith)
            requires
                pow10((j - i) as nat) == 10 * pow10((j - 1 - i) as nat),
                digits_value(run) == digits_value(prev) * 10 + d,
                a == acc * pow10((j - 1 - i) as nat) + digits_value(prev),
                target == acc * pow10((j - i) as nat) + digits_value(run),
        ;
        assert(acc * pow10((j - 1 - i) as nat) >= 0) by (nonlinear_arith)
            requires
                acc >= 0,
                pow10((j - 1 - i) as nat) >= 1,
        ;
        assert(0 <= a && a * 10 + d <= u64::MAX);
        assert(a <= (u64::MAX - d) / 10) by (nonlinear_arith)
            requires
                0 <= a,
                0 <= d < 10,
                a * 10 + d <= u64::MAX,
        ;
        lemma_digits_run(s, i, j - 1, acc);
        assert(sp_digits(s, j - 1, a as u64) == sp_digits(s, j, (a * 10 + d) as u64));
    }
}

proof fn lemma_hex_inverse(x: u32)
    requires
        x < 16,
    ensures
        hex_value(hex_char(x as int)) == Some(x),
{
}

/// Scanning an escaped string body undoes the escaping: on input that holds
/// the rendering of `t` from `k` on, followed by the closing quote, the scan
/// returns the remaining characters of `t` themselves, appended to the
/// accumulator, and consumes the whole input.
#[verifier::spinoff_prover]
#[verifier::rlimit(100)]
proof fn lemma_escape_run(s: Seq<char>, i: int, end: int, t: Seq<char>, k: int, acc: Seq<char>)
    requires
        0 <= k <= t.len(),
        0 <= i <= end <= s.len(),
        s.subrange(i, end) == sp_escape(t, k) + seq!['"'],
    ensures
        sp_string_chars(s, i, acc) == Ok::<(Seq<char>, int), DecodeError>(
            (acc + t.subrange(k, t.len() as int), end),
        ),
    decreases t.len() - k,
{
    let ll = end;
    let suffix = s.subrange(i, ll);
    if k == t.len() {
        assert(suffix =~= seq!['"']);
        assert(s[i] == suffix[0]);
        assert(s[i] == '"' && i + 1 == ll);
        assert(acc + t.subrange(k, t.len() as int) =~= acc);
    } else {
        let c = t[k];
        let e = sp_escape_char(c);
        let n = e.len() as int;
        let rest = sp_escape(t, k + 1) + seq!['"'];
        assert(suffix == e + rest);
        assert(ll - i == n + rest.len());
        assert forall|q: int| 0 <= q < n implies s[i + q] == e[q] by {
            assert(suffix[q] == (e + rest)[q]);
        }
        assert(s[i + 0] == e[0]);
        if 1 < n {
            assert(s[i + 1] == e[1]);
        }
        if 2 < n {
            assert(s[i + 2] == e[2]);
            assert(s[i + 3] == e[3]);
            assert(s[i + 4] == e[4]);
            assert(s[i + 5] == e[5]);
        }
        assert(s.subrange(i + n, ll) =~= rest) by {
            assert(forall|q: int|
                0 <= q < rest.len() ==> s.subrange(i + n, ll)[q] == suffix[n + q]
                    && suffix[n + q] == #[trigger] rest[q]);
        }
        assert(acc.push(c) + t.subrange(k + 1, t.len() as int) =~= acc + t.subrange(
            k,
            t.len() as int,
        ));
        if c == '"' {
            lemma_escape_run(s, i + 2, end, t, k + 1, acc.push(c));
        } else if c == '\\' {
            lemma_escape_run(s, i + 2, end, t, k + 1, acc.push(c));
        } else if c == '\n' {
            lemma_escape_run(s, i + 2, end, t, k + 1, acc.push(c));
        } else if c == '\r' {
            lemma_escape_run(s, i + 2, end, t, k + 1, acc.push(c));
        } else if c == '\t' {
            lemma_escape_run(s, i + 2, end, t, k + 1, acc.push(c));
        } else if c == '\u{0008}' {
            lemma_escape_run(s, i + 2, end, t, k + 1, acc.push(c));
        } else if c == '\u{000C}' {
            lemma_escape_run(s, i + 2, end, t, k + 1, acc.push(c));
        } else if (c as u32) < 0x20 {
            let u = c as u32;
            lemma_hex_inverse(u / 16);
            lemma_hex_inverse(u % 16);
            assert(s[i] == '\\' && s[i + 1] == 'u' && s[i + 2] == '0' && s[i + 3] == '0');
            assert(hex_value('0') == Some(0u32));
            assert(sp_hex4(s, i + 2) == Some(
                (0 * 0x1000 + 0 * 0x100 + (u / 16) * 0x10 + u % 16) as u32,
            ));
            assert(0 * 0x1000 + 0 * 0x100 + (u / 16) * 0x10 + u % 16 == u);
            vstd::utf8::char_u32_cast(c, u);
            assert((u as char) == c);
            lemma_escape_run(s, i + 6, end, t, k + 1, acc.push(c));
        } else {
            assert(e =~= seq![c]);
            assert(s[i] == c);
            lemma_escape_run(s, i + 1, end, t, k + 1, acc.push(c));
        }
    }
}

/// Law: rendering any string value and parsing the result gives exactly the
/// same string back: escaping loses nothing.
pub proof fn lemma_string_round_trip(t: Seq<char>)
    ensures
        sp_parse_json(sp_render(JsonVal::Text(t))) == Ok::<JsonVal, DecodeError>(JsonVal::Text(t)),
{
    let s = sp_render(JsonVal::Text(t));
    let body = sp_escape(t, 0);
    assert(s == seq!['"'] + body + seq!['"']);
    assert(s[0] == '"');
    assert(!is_ws_char('"'));
    assert(sp_skip_ws(s, 0) == 0);
    assert(s.subrange(1, s.len() as int) =~= body + seq!['"']) by {
        assert(forall|q: int|
            0 <= q < s.len() - 1 ==> s.subrange(1, s.len() as int)[q] == #[trigger] s[1 + q]);
    }
    lemma_escape_run(s, 1, s.len() as int, t, 0, Seq::empty());
    assert(Seq::<char>::empty() + t.subrange(0, t.len() as int) =~= t);
    let fuel = (s.len() + 1) as nat;
    assert(sp_value(s, 0, fuel) == Ok::<(JsonVal, int), DecodeError>(
        (JsonVal::Text(t), s.len() as int),
    ));
    assert(sp_skip_ws(s, s.len() as int) == s.len());
}

/// The characters of an embedded piece of the input, one by one.
proof fn lemma_embed(s: Seq<char>, i: int, end: int, r: Seq<char>)
    requires
        0 <= i <= end <= s.len(),
        s.subrange(i, end) == r,
    ensures
        end - i == r.len(),
        forall|q: int| 0 <= q < r.len() ==> s[i + q] == #[trigger] r[q],
{
    assert forall|q: int| 0 <= q < r.len() implies s[i + q] == #[trigger] r[q] by {
        assert(s.subrange(i, end)[q] == s[i + q]);
    }
}

/// The whole-number case of [`lemma_number_run`].
#[verifier::spinoff_prover]
#[verifier::rlimit(100)]
proof fn lemma_number_run_int(s: Seq<char>, i: int, end: int, d: Decimal)
    requires
        0 <= i <= end <= s.len(),
        s.subrange(i, end) == sp_render_decimal(d),
        end < s.len() ==> !is_digit_char(s[end]) && s[end] != '.' && s[end] != 'e' && s[end]
            != 'E',
        d.scale == 0,
    ensures
        sp_number(s, i) == Ok::<(Decimal, int), DecodeError>((d, end)),
{
    let rendered = sp_render_decimal(d);
    let ds = sp_digits_of(d.mantissa as int);
    let m = d.mantissa;
    let ll = ds.len() as int;
    lemma_digits_of_facts(m);
    lemma_digits_value_nonneg(ds);
    lemma_embed(s, i, end, rendered);
    let off: int = if d.negative {
        1int
    } else {
        0int
    };
    let body = if d.scale == 0 {
        ds
    } else if ds.len() > d.scale {
        ds.subrange(0, ll - d.scale) + seq!['.'] + ds.subrange(ll - d.scale, ll)
    } else {
        seq!['0', '.'] + sp_zeros(d.scale - ds.len()) + ds
    };
    assert(rendered == (if d.negative {
        seq!['-'] + body
    } else {
        body
    }));
    let b = i + off;
    assert forall|k: int| 0 <= k < body.len() implies s[b + k] == #[trigger] body[k] by {
        assert(rendered[off + k] == body[k]);
        assert(s[i + (off + k)] == rendered[off + k]);
        assert(s[b + k] == s[i + (off + k)]);
    }
    assert(end == b + body.len());
    assert(!is_digit_char('-') && !is_digit_char('.'));
    if d.negative {
        assert(s[i + 0] == rendered[0]);
        assert(s[i] == '-');
    }
    assert(body == ds);
    assert forall|q: int| 0 <= q < ll implies s.subrange(b, b + ll)[q] == ds[q] by {
        assert(s.subrange(b, b + ll)[q] == s[b + q]);
        assert(body[q] == ds[q]);
    }
    assert(s.subrange(b, b + ll) =~= ds);
    assert forall|k: int| b <= k < b + ll implies is_digit_char(#[trigger] s[k]) by {
        assert(s[b + (k - b)] == body[k - b]);
    }
    lemma_digits_run(s, b, b + ll, 0);
    assert(0 * pow10(ll as nat) + digits_value(ds) == m) by (nonlinear_arith)
        requires
            digits_value(ds) == m,
    ;
    assert(sp_digits(s, b, 0) == Ok::<(u64, int), DecodeError>((m, end)));
    assert(s[b + 0] == body[0]);
    assert(s[b] == ds[0]);
    if m >= 10 {
        assert(ds[0] != '0');
    } else {
        assert(b + 1 == end);
    }
    assert(sp_number(s, i) == Ok::<(Decimal, int), DecodeError>((d, end)));
}

/// The case of [`lemma_number_run`] with the dot inside the digits.
#[verifier::spinoff_prover]
#[verifier::rlimit(100)]
proof fn lemma_number_run_split(s: Seq<char>, i: int, end: int, d: Decimal)
    requires
        0 <= i <= end <= s.len(),
        s.subrange(i, end) == sp_render_decimal(d),
        end < s.len() ==> !is_digit_char(s[end]) && s[end] != '.' && s[end] != 'e' && s[end]
            != 'E',
        d.scale > 0,
        sp_digits_of(d.mantissa as int).len() > d.scale,
    ensures
        sp_number(s, i) == Ok::<(Decimal, int), DecodeError>((d, end)),
{
    let rendered = sp_render_decimal(d);
    let ds = sp_digits_of(d.mantissa as int);
    let m = d.mantissa;
    let ll = ds.len() as int;
    lemma_digits_of_facts(m);
    lemma_digits_value_nonneg(ds);
    lemma_embed(s, i, end, rendered);
    let off: int = if d.negative {
        1int
    } else {
        0int
    };
    let body = if d.scale == 0 {
        ds
    } else if ds.len() > d.scale {
        ds.subrange(0, ll - d.scale) + seq!['.'] + ds.subrange(ll - d.scale, ll)
    } else {
        seq!['0', '.'] + sp_zeros(d.scale - ds.len()) + ds
    };
    assert(rendered == (if d.negative {
        seq!['-'] + body
    } else {
        body
    }));
    let b = i + off;
    assert forall|k: int| 0 <= k < body.len() implies s[b + k] == #[trigger] body[k] by {
        assert(rendered[off + k] == body[k]);
        assert(s[i + (off + k)] == rendered[off + k]);
        assert(s[b + k] == s[i + (off + k)]);
    }
    assert(end == b + body.len());
    assert(!is_digit_char('-') && !is_digit_char('.'));
    if d.negative {
        assert(s[i + 0] == rendered[0]);
        assert(s[i] == '-');
    }
    let cut = ll - d.scale;
    let hi = ds.subrange(0, cut);
    let lo = ds.subrange(cut, ll);
    assert(ds =~= hi + lo);
    lemma_digits_value_split(hi, lo);
    assert(all_digits(hi) && all_digits(lo)) by {
        assert(forall|k: int| 0 <= k < hi.len() ==> hi[k] == #[trigger] ds[k]);
        assert(forall|k: int| 0 <= k < lo.len() ==> lo[k] == #[trigger] ds[cut + k]);
    }
    lemma_digits_value_nonneg(hi);
    lemma_digits_value_nonneg(lo);
    lemma_pow10_pos(d.scale as nat);
    let v1 = digits_value(hi);
    assert(v1 * pow10(d.scale as nat) + digits_value(lo) == m);
    assert(v1 <= m) by (nonlinear_arith)
        requires
            v1 * pow10(d.scale as nat) + digits_value(lo) == m,
            pow10(d.scale as nat) >= 1,
            digits_value(lo) >= 0,
            v1 >= 0,
    ;
    // how the body indexes split into the two digit runs and the dot
    assert forall|k: int| 0 <= k < cut implies s[b + k] == hi[k] && is_digit_char(
        #[trigger] s[b + k],
    ) by {
        assert(body[k] == hi[k]);
        assert(s[b + k] == body[k]);
    }
    assert(s[b + cut] == body[cut]);
    assert(body[cut] == '.');
    assert forall|k: int| 0 <= k < d.scale implies s[b + cut + 1 + k] == lo[k] && is_digit_char(
        #[trigger] s[b + cut + 1 + k],
    ) by {
        assert(body[cut + 1 + k] == lo[k]);
        assert(s[b + (cut + 1 + k)] == body[cut + 1 + k]);
        assert(s[b + cut + 1 + k] == s[b + (cut + 1 + k)]);
    }
    // the integer part
    assert forall|q: int| 0 <= q < cut implies s.subrange(b, b + cut)[q] == hi[q] by {
        assert(s.subrange(b, b + cut)[q] == s[b + q]);
    }
    assert(s.subrange(b, b + cut) =~= hi);
    assert forall|k: int| b <= k < b + cut implies is_digit_char(#[trigger] s[k]) by {
        assert(is_digit_char(s[b + (k - b)]));
    }
    lemma_digits_run(s, b, b + cut, 0);
    assert(0 * pow10(cut as nat) + v1 == v1) by (nonlinear_arith)
        requires
            v1 >= 0,
    ;
    assert(sp_digits(s, b, 0) == Ok::<(u64, int), DecodeError>((v1 as u64, b + cut)));
    // the fraction
    let fb = b + cut + 1;
    assert forall|q: int| 0 <= q < d.scale implies s.subrange(fb, fb + d.scale)[q] == lo[q] by {
        assert(s.subrange(fb, fb + d.scale)[q] == s[fb + q]);
        assert(s[b + cut + 1 + q] == lo[q]);
    }
    assert(s.subrange(fb, fb + d.scale) =~= lo);
    assert forall|k: int| fb <= k < fb + d.scale implies is_digit_char(#[trigger] s[k]) by {
        assert(is_digit_char(s[b + cut + 1 + (k - fb)]));
    }
    lemma_digits_run(s, fb, fb + d.scale, v1 as u64);
    assert(sp_digits(s, fb, v1 as u64) == Ok::<(u64, int), DecodeError>((m, end)));
    // no leading zero, and the first fraction character is a digit
    assert(s[b + 0] == body[0]);
    assert(body[0] == hi[0] && hi[0] == ds[0]);
    assert(s[fb] == lo[0]);
    if cut >= 2 {
        assert(ds[0] != '0');
    } else {
        assert(s[b + 1] == body[1]);
        assert(body[1] == '.');
    }
    assert(sp_number(s, i) == Ok::<(Decimal, int), DecodeError>((d, end)));
}

/// The zero-padded case of [`lemma_number_run`].
#[verifier::spinoff_prover]
#[verifier::rlimit(100)]
proof fn lemma_number_run_pad(s: Seq<char>, i: int, end: int, d: Decimal)
    requires
        0 <= i <= end <= s.len(),
        s.subrange(i, end) == sp_render_decimal(d),
        end < s.len() ==> !is_digit_char(s[end]) && s[end] != '.' && s[end] != 'e' && s[end]
            != 'E',
        d.scale > 0,
        sp_digits_of(d.mantissa as int).len() <= d.scale,
    ensures
        sp_number(s, i) == Ok::<(Decimal, int), DecodeError>((d, end)),
{
    let rendered = sp_render_decimal(d);
    let ds = sp_digits_of(d.mantissa as int);
    let m = d.mantissa;
    let ll = ds.len() as int;
    lemma_digits_of_facts(m);
    lemma_digits_value_nonneg(ds);
    lemma_embed(s, i, end, rendered);
    let off: int = if d.negative {
        1int
    } else {
        0int
    };
    let body = if d.scale == 0 {
        ds
    } else if ds.len() > d.scale {
        ds.subrange(0, ll - d.scale) + seq!['.'] + ds.subrange(ll - d.scale, ll)
    } else {
        seq!['0', '.'] + sp_zeros(d.scale - ds.len()) + ds
    };
    assert(rendered == (if d.negative {
        seq!['-'] + body
    } else {
        body
    }));
    let b = i + off;
    assert forall|k: int| 0 <= k < body.len() implies s[b + k] == #[trigger] body[k] by {
        assert(rendered[off + k] == body[k]);
        assert(s[i + (off + k)] == rendered[off + k]);
        assert(s[b + k] == s[i + (off + k)]);
    }
    assert(end == b + body.len());
    assert(!is_digit_char('-') && !is_digit_char('.'));
    if d.negative {
        assert(s[i + 0] == rendered[0]);
        assert(s[i] == '-');
    }
    let z = d.scale - ds.len();
    let frac = sp_zeros(z as int) + ds;
    lemma_zeros_value(z as nat);
    lemma_digits_value_split(sp_zeros(z as int), ds);
    assert(digits_value(frac) == m) by (nonlinear_arith)
        requires
            digits_value(frac) == 0 * pow10(ds.len()) + digits_value(ds),
            digits_value(ds) == m,
    ;
    assert(all_digits(frac)) by {
        assert(forall|k: int|
            0 <= k < frac.len() ==> frac[k] == (if k < z {
                sp_zeros(z as int)[k]
            } else {
                ds[k - z]
            }));
    }
    assert(body =~= seq!['0', '.'] + frac);
    assert(s[b + 0] == body[0] && s[b + 1] == body[1]);
    assert(s[b] == '0' && s[b + 1] == '.');
    assert(is_digit_char('0') && digit_value('0') == 0);
    // the integer part is the single zero
    assert(sp_digits(s, b, 0) == Ok::<(u64, int), DecodeError>((0, b + 1))) by {
        reveal_with_fuel(sp_digits, 3);
    }
    // the fraction
    let fb = b + 2;
    assert forall|k: int| 0 <= k < d.scale implies s[fb + k] == frac[k] && is_digit_char(
        #[trigger] s[fb + k],
    ) by {
        assert(body[2 + k] == frac[k]);
        assert(s[b + (2 + k)] == body[2 + k]);
        assert(s[fb + k] == s[b + (2 + k)]);
    }
    assert forall|q: int| 0 <= q < d.scale implies s.subrange(fb, fb + d.scale)[q] == frac[q] by {
        assert(s.subrange(fb, fb + d.scale)[q] == s[fb + q]);
    }
    assert(s.subrange(fb, fb + d.scale) =~= frac);
    assert forall|k: int| fb <= k < fb + d.scale implies is_digit_char(#[trigger] s[k]) by {
        assert(is_digit_char(s[fb + (k - fb)]));
    }
    lemma_digits_run(s, fb, fb + d.scale, 0);
    assert(0 * pow10(d.scale as nat) + digits_value(frac) == m) by (nonlinear_arith)
        requires
            digits_value(frac) == m,
    ;
    assert(sp_digits(s, fb, 0) == Ok::<(u64, int), DecodeError>((m, end)));
    assert(s[fb] == frac[0]);
    assert(sp_number(s, i) == Ok::<(Decimal, int), DecodeError>((d, end)));
}

/// Scanning a rendered decimal embedded at `i` gives exactly the decimal
/// back, the written scale included, as long as the character after it (if
/// any) cannot extend the number.
proof fn lemma_number_run(s: Seq<char>, i: int, end: int, d: Decimal)
    requires
        0 <= i <= end <= s.len(),
        s.subrange(i, end) == sp_render_decimal(d),
        end < s.len() ==> !is_digit_char(s[end]) && s[end] != '.' && s[end] != 'e' && s[end]
            != 'E',
    ensures
        sp_number(s, i) == Ok::<(Decimal, int), DecodeError>((d, end)),
{
    if d.scale == 0 {
        lemma_number_run_int(s, i, end, d);
    } else if sp_digits_of(d.mantissa as int).len() > d.scale {
        lemma_number_run_split(s, i, end, d);
    } else {
        lemma_number_run_pad(s, i, end, d);
    }
}

/// Law: rendering any decimal and parsing the result gives exactly the same
/// decimal back, the written scale included, with the whole text consumed.
pub proof fn lemma_decimal_round_trip(d: Decimal)
    ensures
        sp_number(sp_render_decimal(d), 0) == Ok::<(Decimal, int), DecodeError>(
            (d, sp_render_decimal(d).len() as int),
        ),
{
    let s = sp_render_decimal(d);
    assert(s.subrange(0, s.len() as int) =~= s);
    lemma_number_run(s, 0, s.len() as int, d);
}

/// A recursion allowance that suffices to parse the rendering of a value.
pub open spec fn sp_fuel_for(j: JsonVal) -> nat
    decreases j, 0int,
{
    match j {
        JsonVal::Null => 1,
        JsonVal::Bool(b) => 1,
        JsonVal::Num(d) => 1,
        JsonVal::Text(t) => 1,
        JsonVal::Arr(es) => if es.len() == 0 {
            1
        } else {
            1 + sp_fuel_items(es, 0)
        },
        JsonVal::Obj(ms) => if ms.len() == 0 {
            1
        } else {
            1 + sp_fuel_members(ms, 0)
        },
    }
}

/// The allowance for the elements from index `k` on.
pub open spec fn sp_fuel_items(es: Seq<JsonVal>, k: int) -> nat
    decreases es, es.len() - k,
{
    if 0 <= k < es.len() {
        let here = sp_fuel_for(es[k]);
        if k + 1 < es.len() {
            let next = 1 + sp_fuel_items(es, k + 1);
            if here > next {
                here
            } else {
                next
            }
        } else {
            here
        }
    } else {
        1
    }
}

/// The allowance for the members from index `k` on.
pub open spec fn sp_fuel_members(ms: Seq<(Seq<char>, JsonVal)>, k: int) -> nat
    decreases ms, ms.len() - k,
{
    if 0 <= k < ms.len() {
        let here = sp_fuel_for(ms[k].1);
        if k + 1 < ms.len() {
            let next = 1 + sp_fuel_members(ms, k + 1);
            if here > next {
                here
            } else {
                next
            }
        } else {
            here
        }
    } else {
        1
    }
}

proof fn lemma_fuel_pos(j: JsonVal)
    ensures
        sp_fuel_for(j) >= 1,
{
}

/// A rendering is never empty, and its first character is never whitespace
/// nor a closing or separating character.
proof fn lemma_render_head(j: JsonVal)
    ensures
        sp_render(j).len() >= 1,
        !is_ws_char(sp_render(j)[0]),
        sp_render(j)[0] != ']',
        sp_render(j)[0] != '}',
        sp_render(j)[0] != ',',
{
    match j {
        JsonVal::Num(d) => {
            lemma_digits_of_facts(d.mantissa);
            let ds = sp_digits_of(d.mantissa as int);
            let c = sp_render(j)[0];
            if !d.negative {
                if d.scale == 0 {
                    assert(c == ds[0]);
                    assert(is_digit_char(c));
                } else if ds.len() > d.scale {
                    let cut = ds.len() - d.scale;
                    assert(c == ds.subrange(0, cut as int)[0]);
                    assert(c == ds[0]);
                    assert(is_digit_char(c));
                } else {
                    assert(c == '0');
                }
            }
        },
        _ => {},
    }
}

/// Parsing the rendering of a value embedded at `i` gives the value back and
/// consumes exactly the rendering, provided the character after it (if any)
/// cannot extend a number and the allowance suffices.
#[verifier::spinoff_prover]
#[verifier::rlimit(100)]
proof fn lemma_value_run(s: Seq<char>, i: int, end: int, j: JsonVal, fuel: nat)
    requires
        0 <= i <= end <= s.len(),
        s.subrange(i, end) == sp_render(j),
        fuel >= sp_fuel_for(j),
        end < s.len() ==> !is_digit_char(s[end]) && s[end] != '.' && s[end] != 'e' && s[end]
            != 'E',
    ensures
        sp_value(s, i, fuel) == Ok::<(JsonVal, int), DecodeError>((j, end)),
    decreases j, 0int,
{
    let rendered = sp_render(j);
    lemma_render_head(j);
    lemma_embed(s, i, end, rendered);
    assert(s[i + 0] == rendered[0]);
    assert(sp_skip_ws(s, i) == i);
    match j {
        JsonVal::Null => {
            assert(s[i + 1] == rendered[1] && s[i + 2] == rendered[2] && s[i + 3] == rendered[3]);
            assert(sp_value(s, i, fuel) == Ok::<(JsonVal, int), DecodeError>((j, end)));
        },
        JsonVal::Bool(b) => {
            assert(s[i + 1] == rendered[1] && s[i + 2] == rendered[2] && s[i + 3] == rendered[3]);
            if !b {
                assert(s[i + 4] == rendered[4]);
            }
            assert(sp_value(s, i, fuel) == Ok::<(JsonVal, int), DecodeError>((j, end)));
        },
        JsonVal::Num(d) => {
            lemma_number_run(s, i, end, d);
            assert(sp_value(s, i, fuel) == Ok::<(JsonVal, int), DecodeError>((j, end)));
        },
        JsonVal::Text(t) => {
            let ke = sp_escape(t, 0);
            assert forall|q: int| 0 <= q < ke.len() + 1 implies s.subrange(i + 1, end)[q] == (ke
                + seq!['"'])[q] by {
                assert(s.subrange(i + 1, end)[q] == s[i + (1 + q)]);
                assert(s[i + (1 + q)] == rendered[1 + q]);
            }
            assert(s.subrange(i + 1, end) =~= ke + seq!['"']);
            lemma_escape_run(s, i + 1, end, t, 0, Seq::empty());
            assert(Seq::<char>::empty() + t.subrange(0, t.len() as int) =~= t);
            assert(sp_value(s, i, fuel) == Ok::<(JsonVal, int), DecodeError>((j, end)));
        },
        JsonVal::Arr(es) => {
            if es.len() == 0 {
                assert(s[i + 1] == rendered[1]);
                assert(s[i + 1] == ']');
                assert(sp_skip_ws(s, i + 1) == i + 1);
                assert(es =~= Seq::<JsonVal>::empty());
                assert(JsonVal::Arr(Seq::<JsonVal>::empty()) =~= j);
            } else {
                let rl = sp_render_list(es, 0);
                assert(rendered == seq!['['] + rl + seq![']']);
                assert forall|q: int| 0 <= q < rl.len() + 1 implies s.subrange(i + 1, end)[q] == (
                rl + seq![']'])[q] by {
                    assert(s.subrange(i + 1, end)[q] == s[i + (1 + q)]);
                    assert(s[i + (1 + q)] == rendered[1 + q]);
                }
                assert(s.subrange(i + 1, end) =~= rl + seq![']']);
                lemma_render_head(es[0]);
                assert(rl[0] == sp_render(es[0])[0]);
                assert(s[i + 1] == rendered[1] && rendered[1] == rl[0]);
                assert(!is_ws_char(s[i + 1]) && s[i + 1] != ']');
                assert(sp_skip_ws(s, i + 1) == i + 1);
                lemma_items_run(s, i + 1, end, es, 0, Seq::empty(), (fuel - 1) as nat);
                assert(Seq::<JsonVal>::empty() + es.subrange(0, es.len() as int) =~= es);
                assert(JsonVal::Arr(Seq::<JsonVal>::empty() + es.subrange(0, es.len() as int))
                    =~= j);
            }
            assert(sp_value(s, i, fuel) == Ok::<(JsonVal, int), DecodeError>((j, end)));
        },
        JsonVal::Obj(ms) => {
            if ms.len() == 0 {
                assert(s[i + 1] == rendered[1]);
                assert(s[i + 1] == '}');
                assert(sp_skip_ws(s, i + 1) == i + 1);
                assert(ms =~= Seq::<(Seq<char>, JsonVal)>::empty());
                assert(JsonVal::Obj(Seq::<(Seq<char>, JsonVal)>::empty()) =~= j);
            } else {
                let rm = sp_render_members(ms, 0);
                assert(rendered == seq!['{'] + rm + seq!['}']);
                assert forall|q: int| 0 <= q < rm.len() + 1 implies s.subrange(i + 1, end)[q] == (
                rm + seq!['}'])[q] by {
                    assert(s.subrange(i + 1, end)[q] == s[i + (1 + q)]);
                    assert(s[i + (1 + q)] == rendered[1 + q]);
                }
                assert(s.subrange(i + 1, end) =~= rm + seq!['}']);
                assert(rm[0] == '"');
                assert(s[i + 1] == rendered[1] && rendered[1] == rm[0]);
                assert(!is_ws_char(s[i + 1]) && s[i + 1] != '}');
                assert(sp_skip_ws(s, i + 1) == i + 1);
                lemma_members_run(s, i + 1, end, ms, 0, Seq::empty(), (fuel - 1) as nat);
                assert(Seq::<(Seq<char>, JsonVal)>::empty() + ms.subrange(0, ms.len() as int)
                    =~= ms);
                assert(JsonVal::Obj(
                    Seq::<(Seq<char>, JsonVal)>::empty() + ms.subrange(0, ms.len() as int),
                ) =~= j);
            }
            assert(sp_value(s, i, fuel) == Ok::<(JsonVal, int), DecodeError>((j, end)));
        },
    }
}

/// Parsing rendered elements embedded at `i`, up to and including the
/// closing bracket at `end - 1`, extends the accumulator by exactly the
/// remaining elements.
#[verifier::spinoff_prover]
#[verifier::rlimit(100)]
proof fn lemma_items_run(
    s: Seq<char>,
    i: int,
    end: int,
    es: Seq<JsonVal>,
    k: int,
    acc: Seq<JsonVal>,
    fuel: nat,
)
    requires
        0 <= k < es.len(),
        0 <= i <= end <= s.len(),
        s.subrange(i, end) == sp_render_list(es, k) + seq![']'],
        fuel >= sp_fuel_items(es, k),
    ensures
        sp_arr_items(s, i, acc, fuel) == Ok::<(JsonVal, int), DecodeError>(
            (JsonVal::Arr(acc + es.subrange(k, es.len() as int)), end),
        ),
    decreases es, es.len() - k,
{
    let rl = sp_render_list(es, k);
    let rv = sp_render(es[k]);
    let vend = i + rv.len();
    lemma_fuel_pos(es[k]);
    lemma_render_head(es[k]);
    lemma_embed(s, i, end, rl + seq![']']);
    if k + 1 < es.len() {
        assert(rl == rv + seq![','] + sp_render_list(es, k + 1));
    } else {
        assert(rl == rv);
    }
    assert forall|q: int| 0 <= q < rv.len() implies s.subrange(i, vend)[q] == rv[q] by {
        assert(s.subrange(i, vend)[q] == s[i + q]);
        assert((rl + seq![']'])[q] == rv[q]);
    }
    assert(s.subrange(i, vend) =~= rv);
    assert(s[i + rv.len()] == (rl + seq![']'])[rv.len() as int]);
    let sep = s[vend];
    assert(sep == ',' || sep == ']');
    lemma_value_run(s, i, vend, es[k], fuel);
    assert(sp_skip_ws(s, vend) == vend);
    if k + 1 < es.len() {
        assert(sep == ',');
        assert forall|q: int| 0 <= q < end - vend - 1 implies #[trigger] s.subrange(
            vend + 1,
            end,
        )[q] == (sp_render_list(es, k + 1) + seq![']'])[q] by {
            assert(s.subrange(vend + 1, end)[q] == s[i + (rv.len() + 1 + q)]);
            assert((rl + seq![']'])[rv.len() + 1 + q] == (sp_render_list(es, k + 1) + seq![']'])[q]);
        }
        assert(s.subrange(vend + 1, end) =~= sp_render_list(es, k + 1) + seq![']']);
        lemma_items_run(s, vend + 1, end, es, k + 1, acc.push(es[k]), (fuel - 1) as nat);
        assert(acc.push(es[k]) + es.subrange(k + 1, es.len() as int) =~= acc + es.subrange(
            k,
            es.len() as int,
        ));
        assert(JsonVal::Arr(acc.push(es[k]) + es.subrange(k + 1, es.len() as int)) =~= JsonVal::Arr(
            acc + es.subrange(k, es.len() as int),
        ));
    } else {
        assert(sep == ']');
        assert(vend + 1 == end);
        assert(acc.push(es[k]) =~= acc + es.subrange(k, es.len() as int));
        assert(JsonVal::Arr(acc.push(es[k])) =~= JsonVal::Arr(
            acc + es.subrange(k, es.len() as int),
        ));
    }
}

/// Parsing rendered members embedded at `i`, up to and including the closing
/// brace at `end - 1`, extends the accumulator by exactly the remaining
/// members.
#[verifier::spinoff_prover]
#[verifier::rlimit(100)]
proof fn lemma_members_run(
    s: Seq<char>,
    i: int,
    end: int,
    ms: Seq<(Seq<char>, JsonVal)>,
    k: int,
    acc: Seq<(Seq<char>, JsonVal)>,
    fuel: nat,
)
    requires
        0 <= k < ms.len(),
        0 <= i <= end <= s.len(),
        s.subrange(i, end) == sp_render_members(ms, k) + seq!['}'],
        fuel >= sp_fuel_members(ms, k),
    ensures
        sp_obj_members(s, i, acc, fuel) == Ok::<(JsonVal, int), DecodeError>(
            (JsonVal::Obj(acc + ms.subrange(k, ms.len() as int)), end),
        ),
    decreases ms, ms.len() - k,
{
    let rm = sp_render_members(ms, k);
    let key = ms[k].0;
    let ke = sp_escape(key, 0);
    let rv = sp_render(ms[k].1);
    let one = seq!['"'] + ke + seq!['"', ':'] + rv;
    assert(rm == (if k + 1 < ms.len() {
        one + seq![','] + sp_render_members(ms, k + 1)
    } else {
        one
    }));
    lemma_fuel_pos(ms[k].1);
    lemma_render_head(ms[k].1);
    lemma_embed(s, i, end, rm + seq!['}']);
    assert forall|q: int| 0 <= q < one.len() implies s[i + q] == #[trigger] one[q] by {
        assert((rm + seq!['}'])[q] == one[q]);
    }
    assert(one[0] == '"');
    assert(s[i + 0] == one[0]);
    assert(sp_skip_ws(s, i) == i);
    // the key string
    let kend = i + 1 + ke.len() + 1;
    assert forall|q: int| 0 <= q < ke.len() + 1 implies s.subrange(i + 1, kend)[q] == (ke
        + seq!['"'])[q] by {
        assert(s.subrange(i + 1, kend)[q] == s[i + (1 + q)]);
        assert(one[1 + q] == (ke + seq!['"'])[q]);
    }
    assert(s.subrange(i + 1, kend) =~= ke + seq!['"']);
    lemma_escape_run(s, i + 1, kend, key, 0, Seq::empty());
    assert(Seq::<char>::empty() + key.subrange(0, key.len() as int) =~= key);
    // the colon
    assert(s[i + (1 + ke.len() + 1)] == one[(1 + ke.len() + 1) as int]);
    assert(one[(1 + ke.len() + 1) as int] == ':');
    assert(s[kend] == ':');
    assert(sp_skip_ws(s, kend) == kend);
    // the value
    let vstart = kend + 1;
    let vend = vstart + rv.len();
    assert forall|q: int| 0 <= q < rv.len() implies s.subrange(vstart, vend)[q] == rv[q] by {
        assert(s.subrange(vstart, vend)[q] == s[i + (1 + ke.len() + 2 + q)]);
        assert(one[1 + ke.len() + 2 + q] == rv[q]);
    }
    assert(s.subrange(vstart, vend) =~= rv);
    assert(s[i + (one.len() as int)] == (rm + seq!['}'])[one.len() as int]);
    let sep = s[vend];
    assert(sep == ',' || sep == '}');
    lemma_value_run(s, vstart, vend, ms[k].1, fuel);
    assert(sp_skip_ws(s, vend) == vend);
    if k + 1 < ms.len() {
        assert(sep == ',');
        assert forall|q: int| 0 <= q < end - vend - 1 implies #[trigger] s.subrange(
            vend + 1,
            end,
        )[q] == (sp_render_members(ms, k + 1) + seq!['}'])[q] by {
            assert(s.subrange(vend + 1, end)[q] == s[i + (one.len() + 1 + q)]);
            assert((rm + seq!['}'])[one.len() + 1 + q] == (sp_render_members(ms, k + 1)
                + seq!['}'])[q]);
        }
        assert(s.subrange(vend + 1, end) =~= sp_render_members(ms, k + 1) + seq!['}']);
        lemma_members_run(s, vend + 1, end, ms, k + 1, acc.push((key, ms[k].1)), (fuel - 1) as nat);
        assert(acc.push((key, ms[k].1)) + ms.subrange(k + 1, ms.len() as int) =~= acc + ms.subrange(
            k,
            ms.len() as int,
        ));
        assert(JsonVal::Obj(acc.push((key, ms[k].1)) + ms.subrange(k + 1, ms.len() as int))
            =~= JsonVal::Obj(acc + ms.subrange(k, ms.len() as int)));
    } else {
        assert(sep == '}');
        assert(vend + 1 == end);
        assert(acc.push((key, ms[k].1)) =~= acc + ms.subrange(k, ms.len() as int));
        assert(JsonVal::Obj(acc.push((key, ms[k].1))) =~= JsonVal::Obj(
            acc + ms.subrange(k, ms.len() as int),
        ));
    }
}

/// The allowance a rendering needs never exceeds its length plus one.
proof fn lemma_fuel_le_len(j: JsonVal)
    ensures
        sp_fuel_for(j) <= sp_render(j).len() + 1,
    decreases j, 0int,
{
    match j {
        JsonVal::Arr(es) => {
            if es.len() > 0 {
                lemma_fuel_items_le_len(es, 0);
            }
        },
        JsonVal::Obj(ms) => {
            if ms.len() > 0 {
                lemma_fuel_members_le_len(ms, 0);
            }
        },
        _ => {},
    }
}

proof fn lemma_fuel_items_le_len(es: Seq<JsonVal>, k: int)
    requires
        0 <= k < es.len(),
    ensures
        sp_fuel_items(es, k) <= sp_render_list(es, k).len() + 1,
    decreases es, es.len() - k,
{
    lemma_fuel_le_len(es[k]);
    lemma_render_head(es[k]);
    if k + 1 < es.len() {
        lemma_fuel_items_le_len(es, k + 1);
        lemma_render_head(es[k + 1]);
    }
}

proof fn lemma_fuel_members_le_len(ms: Seq<(Seq<char>, JsonVal)>, k: int)
    requires
        0 <= k < ms.len(),
    ensures
        sp_fuel_members(ms, k) <= sp_render_members(ms, k).len() + 1,
    decreases ms, ms.len() - k,
{
    lemma_fuel_le_len(ms[k].1);
    lemma_render_head(ms[k].1);
    if k + 1 < ms.len() {
        lemma_fuel_members_le_len(ms, k + 1);
    }
}

/// Law: parsing the rendering of any document gives exactly that document
/// back — the renderer and the parser are inverse, over the whole model.
pub proof fn lemma_json_round_trip(j: JsonVal)
    ensures
        sp_parse_json(sp_render(j)) == Ok::<JsonVal, DecodeError>(j),
{
    let s = sp_render(j);
    lemma_render_head(j);
    lemma_fuel_le_len(j);
    assert(s.subrange(0, s.len() as int) =~= s);
    lemma_value_run(s, 0, s.len() as int, j, (s.len() + 1) as nat);
    assert(sp_skip_ws(s, s.len() as int) == s.len());
}

} // verus!
