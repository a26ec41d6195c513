//! The command line of the host tool: a line `[@|w|W]<path>[ <value>]` names
//! a request. A line that begins with `@`, `w` or `W` writes, any other
//! reads; the value is a Rust literal.
//!
//! Literals are read with `syn`. What it reads from a text depends on the
//! text alone as long as the caller does not run inside a procedural macro;
//! inside one the compiler does the lexing, and nothing stated here of
//! `int_literal_of`, `bool_literal_of` and `str_literal_of` is meant for that
//! case.

use vstd::prelude::*;
use vstd::string::{StrSliceExecFns, StringSliceAdditionalSpecFns};
use vstd::utf8::*;
use crate::owned::Value;
use crate::protocol::{
    encode_msg, request_outcome, BuildError, RequestBuilder, RequestCode,
};
use crate::text::str_eq;
use crate::ty::{splice, ValueView};

verus! {

/// An integer literal as `syn` read it: its digits in base ten, and its
/// suffix.
#[derive(Debug, PartialEq, Eq)]
pub struct IntLiteral {
    pub digits: String,
    pub suffix: String,
}

/// Why a text gave no value.
#[derive(Clone, Copy, Debug, PartialEq, Eq, Structural)]
pub enum LiteralError {
    /// The text is no integer, boolean or string literal.
    NotALiteral,
    /// The integer has a suffix other than `u8`, `u16`, `u32`, `i32`.
    UnknownSuffix,
    /// The integer does not fit its type.
    OutOfRange,
}

/// Why a line gave no request.
#[derive(Clone, Copy, Debug, PartialEq, Eq, Structural)]
pub enum InterpretError {
    Literal(LiteralError),
    Build(BuildError),
}

/// A line taken apart.
#[derive(Clone, Copy, Debug, PartialEq, Eq)]
pub struct Command<'a> {
    pub code: RequestCode,
    pub path: &'a str,
    /// What stands behind the path, from the first space on.
    pub literal: Option<&'a str>,
}

/// The digits and the suffix of the integer literal that `syn` reads from a
/// text, if it reads one.
pub uninterp spec fn int_literal_of(text: Seq<char>) -> Option<(Seq<char>, Seq<char>)>;

/// The boolean literal that `syn` reads from a text, if it reads one.
pub uninterp spec fn bool_literal_of(text: Seq<char>) -> Option<bool>;

/// The contents of the string literal that `syn` reads from a text, if it
/// reads one.
pub uninterp spec fn str_literal_of(text: Seq<char>) -> Option<Seq<char>>;

/// Calls `syn::parse_str` for a `syn::LitInt` and takes its
/// `base10_digits` and `suffix`.
#[verifier::external_body]
fn parse_int_literal(text: &str) -> (r: Option<IntLiteral>)
    ensures
        match r {
            Some(l) => int_literal_of(text@) == Some((l.digits@, l.suffix@)),
            None => int_literal_of(text@) is None,
        },
{
    match syn::parse_str::<syn::LitInt>(text) {
        Ok(l) => Some(
            IntLiteral { digits: l.base10_digits().to_string(), suffix: l.suffix().to_string() },
        ),
        Err(_) => None,
    }
}

/// Calls `syn::parse_str` for a `syn::LitBool` and takes its value.
#[verifier::external_body]
fn parse_bool_literal(text: &str) -> (r: Option<bool>)
    ensures
        r == bool_literal_of(text@),
{
    match syn::parse_str::<syn::LitBool>(text) {
        Ok(l) => Some(l.value),
        Err(_) => None,
    }
}

/// Calls `syn::parse_str` for a `syn::LitStr` and takes its value.
#[verifier::external_body]
fn parse_str_literal(text: &str) -> (r: Option<String>)
    ensures
        match r {
            Some(s) => str_literal_of(text@) == Some(s@),
            None => str_literal_of(text@) is None,
        },
{
    match syn::parse_str::<syn::LitStr>(text) {
        Ok(l) => Some(l.value()),
        Err(_) => None,
    }
}

/// The number that a decimal digit stands for.
pub open spec fn digit_value(c: char) -> Option<nat> {
    if '0' <= c <= '9' {
        Some((c as u32 - '0' as u32) as nat)
    } else {
        None
    }
}

/// The number that a row of decimal digits stands for; nothing for an empty
/// row or one that holds anything but digits.
pub open spec fn decimal_value(s: Seq<char>) -> Option<nat>
    decreases s.len(),
{
    if s.len() == 0 {
        None
    } else if s.len() == 1 {
        digit_value(s[0])
    } else {
        match (decimal_value(s.drop_last()), digit_value(s.last())) {
            (Some(a), Some(d)) => Some(a * 10 + d),
            _ => None,
        }
    }
}

proof fn lemma_decimal_grows(s: Seq<char>, i: int)
    requires
        1 <= i <= s.len(),
    ensures
        decimal_value(s.take(i)) is None ==> decimal_value(s) is None,
        decimal_value(s) is Some ==> decimal_value(s)->0 >= decimal_value(s.take(i))->0,
    decreases s.len() - i,
{
    if i < s.len() {
        assert(s.take(i + 1).drop_last() =~= s.take(i));
        lemma_decimal_grows(s, i + 1);
    } else {
        assert(s.take(i) =~= s);
    }
}

/// Reads a row of decimal digits as a number up to `max`.
pub fn parse_decimal(s: &str, max: u64) -> (r: Option<u64>)
    requires
        max <= u32::MAX,
    ensures
        match r {
            Some(v) => decimal_value(s@) == Some(v as nat) && v <= max,
            None => decimal_value(s@) is None || decimal_value(s@)->0 > max,
        },
{
    let n: usize = s.unicode_len();
    if n == 0 {
        return None;
    }
    let mut acc: u64 = 0;
    let mut i: usize = 0;
    while i < n
        invariant
            n == s@.len(),
            n > 0,
            i <= n,
            max <= u32::MAX,
            acc <= max,
            i == 0 ==> acc == 0,
            i > 0 ==> decimal_value(s@.take(i as int)) == Some(acc as nat),
        decreases n - i,
    {
        let c = s.get_char(i);
        let ghost next = s@.take(i + 1);
        assert(next.drop_last() =~= s@.take(i as int));
        assert(next.last() == c);
        if !('0' <= c && c <= '9') {
            proof {
                lemma_decimal_grows(s@, i + 1);
            }
            return None;
        }
        let d: u64 = (c as u32 - '0' as u32) as u64;
        let v: u64 = acc * 10 + d;
        assert(decimal_value(next) == Some(v as nat));
        if v > max {
            proof {
                lemma_decimal_grows(s@, i + 1);
            }
            return None;
        }
        acc = v;
        i = i + 1;
    }
    assert(s@.take(n as int) =~= s@);
    Some(acc)
}

/// The number that digits with or without a minus sign before them stand
/// for.
pub open spec fn signed_value(digits: Seq<char>) -> Option<int> {
    if digits.len() > 0 && digits[0] == '-' {
        match decimal_value(digits.skip(1)) {
            Some(v) => Some(-(v as int)),
            None => None,
        }
    } else {
        match decimal_value(digits) {
            Some(v) => Some(v as int),
            None => None,
        }
    }
}

/// The value that an integer literal stands for: of the type its suffix
/// names, `i32` where it has none. The unsigned types take no minus sign.
pub open spec fn spec_int_value(digits: Seq<char>, suffix: Seq<char>) -> Result<
    ValueView,
    LiteralError,
> {
    if suffix == "u8"@ {
        match decimal_value(digits) {
            Some(v) if v <= u8::MAX => Ok(ValueView::U8(v as u8)),
            _ => Err(LiteralError::OutOfRange),
        }
    } else if suffix == "u16"@ {
        match decimal_value(digits) {
            Some(v) if v <= u16::MAX => Ok(ValueView::U16(v as u16)),
            _ => Err(LiteralError::OutOfRange),
        }
    } else if suffix == "u32"@ {
        match decimal_value(digits) {
            Some(v) if v <= u32::MAX => Ok(ValueView::U32(v as u32)),
            _ => Err(LiteralError::OutOfRange),
        }
    } else if suffix == "i32"@ || suffix == ""@ {
        match signed_value(digits) {
            Some(v) if i32::MIN <= v <= i32::MAX => Ok(ValueView::I32(v as i32)),
            _ => Err(LiteralError::OutOfRange),
        }
    } else {
        Err(LiteralError::UnknownSuffix)
    }
}

/// The value that a text stands for, given what `syn` reads from it as an
/// integer, as a boolean and as a string: the first of the three that it
/// reads decides.
pub open spec fn spec_literal_value(
    integer: Option<(Seq<char>, Seq<char>)>,
    boolean: Option<bool>,
    string: Option<Seq<char>>,
) -> Result<ValueView, LiteralError> {
    match integer {
        Some((digits, suffix)) => spec_int_value(digits, suffix),
        None => match boolean {
            Some(b) => Ok(ValueView::Bool(b)),
            None => match string {
                Some(s) => Ok(ValueView::Str(s)),
                None => Err(LiteralError::NotALiteral),
            },
        },
    }
}

/// The value of an integer literal.
pub fn int_value(lit: &IntLiteral) -> (r: Result<Value, LiteralError>)
    ensures
        match r {
            Ok(v) => spec_int_value(lit.digits@, lit.suffix@) == Ok::<ValueView, LiteralError>(v@),
            Err(e) => spec_int_value(lit.digits@, lit.suffix@) == Err::<ValueView, LiteralError>(
                e,
            ),
        },
{
    let suffix = lit.suffix.as_str();
    let digits = lit.digits.as_str();
    if str_eq(suffix, "u8") {
        match parse_decimal(digits, 0xff) {
            Some(v) => Ok(Value::U8(v as u8)),
            None => Err(LiteralError::OutOfRange),
        }
    } else if str_eq(suffix, "u16") {
        match parse_decimal(digits, 0xffff) {
            Some(v) => Ok(Value::U16(v as u16)),
            None => Err(LiteralError::OutOfRange),
        }
    } else if str_eq(suffix, "u32") {
        match parse_decimal(digits, 0xffff_ffff) {
            Some(v) => Ok(Value::U32(v as u32)),
            None => Err(LiteralError::OutOfRange),
        }
    } else if str_eq(suffix, "i32") || str_eq(suffix, "") {
        let n: usize = digits.unicode_len();
        if n > 0 && digits.get_char(0) == '-' {
            let rest = digits.substring_char(1, n);
            assert(rest@ =~= digits@.skip(1));
            match parse_decimal(rest, 0x8000_0000) {
                Some(m) => if m == 0x8000_0000 {
                    Ok(Value::I32(i32::MIN))
                } else {
                    Ok(Value::I32(-(m as i32)))
                },
                None => Err(LiteralError::OutOfRange),
            }
        } else {
            match parse_decimal(digits, 0x7fff_ffff) {
                Some(v) => Ok(Value::I32(v as i32)),
                None => Err(LiteralError::OutOfRange),
            }
        }
    } else {
        Err(LiteralError::UnknownSuffix)
    }
}

/// What an integer literal holds, if there is one.
pub open spec fn int_literal_view(integer: Option<IntLiteral>) -> Option<(Seq<char>, Seq<char>)> {
    match integer {
        Some(l) => Some((l.digits@, l.suffix@)),
        None => None,
    }
}

/// The characters of a string, if there is one.
pub open spec fn string_view(string: Option<String>) -> Option<Seq<char>> {
    match string {
        Some(s) => Some(s@),
        None => None,
    }
}

/// The value of a text, from what `syn` read of it.
pub fn literal_value(
    integer: Option<IntLiteral>,
    boolean: Option<bool>,
    string: Option<String>,
) -> (r: Result<Value, LiteralError>)
    ensures
        match r {
            Ok(v) => spec_literal_value(int_literal_view(integer), boolean, string_view(string))
                == Ok::<ValueView, LiteralError>(v@),
            Err(e) => spec_literal_value(int_literal_view(integer), boolean, string_view(string))
                == Err::<ValueView, LiteralError>(e),
        },
{
    match integer {
        Some(l) => int_value(&l),
        None => match boolean {
            Some(b) => Ok(Value::BOOL(b)),
            None => match string {
                Some(s) => Ok(Value::STR(s)),
                None => Err(LiteralError::NotALiteral),
            },
        },
    }
}

/// The value that a text stands for.
pub open spec fn spec_parse_value(text: Seq<char>) -> Result<ValueView, LiteralError> {
    spec_literal_value(int_literal_of(text), bool_literal_of(text), str_literal_of(text))
}

/// Reads a value from a literal.
pub fn parse_value(text: &str) -> (r: Result<Value, LiteralError>)
    ensures
        match r {
            Ok(v) => spec_parse_value(text@) == Ok::<ValueView, LiteralError>(v@),
            Err(e) => spec_parse_value(text@) == Err::<ValueView, LiteralError>(e),
        },
{
    literal_value(parse_int_literal(text), parse_bool_literal(text), parse_str_literal(text))
}

/// The index of the first space among the bytes, or their number where
/// there is none.
pub open spec fn first_space(bytes: Seq<u8>) -> int
    decreases bytes.len(),
{
    if bytes.len() == 0 || bytes[0] == 0x20 {
        0
    } else {
        1 + first_space(bytes.drop_first())
    }
}

/// Whether a byte marks a line as a write: `@`, `w` or `W`.
pub open spec fn is_write_mark(b: u8) -> bool {
    b == 0x40 || b == 0x77 || b == 0x57
}

/// What stands before the first space.
pub open spec fn line_head(bytes: Seq<u8>) -> Seq<u8> {
    bytes.subrange(0, first_space(bytes))
}

/// The request code of a line.
pub open spec fn line_code(bytes: Seq<u8>) -> RequestCode {
    if line_head(bytes).len() > 0 && is_write_mark(line_head(bytes)[0]) {
        RequestCode::WRITE
    } else {
        RequestCode::READ
    }
}

/// The path of a line: what stands before the first space, without the
/// mark of a write.
pub open spec fn line_path(bytes: Seq<u8>) -> Seq<u8> {
    if line_head(bytes).len() > 0 && is_write_mark(line_head(bytes)[0]) {
        line_head(bytes).skip(1)
    } else {
        line_head(bytes)
    }
}

/// The literal of a line: all from the first space on, where there is one.
pub open spec fn line_literal(bytes: Seq<u8>) -> Option<Seq<u8>> {
    if first_space(bytes) < bytes.len() {
        Some(bytes.skip(first_space(bytes)))
    } else {
        None
    }
}

proof fn lemma_first_space(bytes: Seq<u8>, i: int)
    requires
        0 <= i <= bytes.len(),
        forall|k: int| 0 <= k < i ==> bytes[k] != 0x20,
        i < bytes.len() ==> bytes[i] == 0x20,
    ensures
        first_space(bytes) == i,
    decreases i,
{
    if i > 0 {
        let rest = bytes.drop_first();
        assert forall|k: int| 0 <= k < i - 1 implies rest[k] != 0x20 by {
            assert(rest[k] == bytes[k + 1]);
        }
        lemma_first_space(rest, i - 1);
    }
}

/// Takes a line apart into request code, path and literal.
pub fn parse_line<'a>(line: &'a str) -> (r: Command<'a>)
    ensures
        r.code == line_code(line.spec_bytes()),
        r.path.spec_bytes() == line_path(line.spec_bytes()),
        match r.literal {
            Some(l) => line_literal(line.spec_bytes()) == Some(l.spec_bytes()),
            None => line_literal(line.spec_bytes()) is None,
        },
{
    let bytes = line.as_bytes();
    let n: usize = bytes.len();
    proof {
        encode_utf8_valid_utf8(line@);
    }
    let mut i: usize = 0;
    while i < n && bytes[i] != 0x20
        invariant
            n == bytes@.len(),
            i <= n,
            forall|k: int| 0 <= k < i ==> bytes@[k] != 0x20,
        decreases n - i,
    {
        i = i + 1;
    }
    proof {
        lemma_first_space(bytes@, i as int);
        if i < n {
            is_char_boundary_iff_not_is_continuation_byte(bytes@, i as int);
        } else {
            is_char_boundary_start_end_of_seq(bytes@);
        }
    }
    let (head, rest) = line.split_at(i);
    let literal = if i < n {
        Some(rest)
    } else {
        None
    };
    let head_bytes = head.as_bytes();
    if head_bytes.len() > 0 && (head_bytes[0] == 0x40 || head_bytes[0] == 0x77 || head_bytes[0]
        == 0x57) {
        proof {
            encode_utf8_valid_utf8(head@);
            reveal_with_fuel(is_char_boundary, 2);
            assert(length_of_first_scalar(head_bytes@) == 1);
            if head_bytes@.len() > 1 {
                assert(is_char_boundary(head_bytes@, 1));
            } else {
                is_char_boundary_start_end_of_seq(head_bytes@);
            }
        }
        let (_, path) = head.split_at(1);
        Command { code: RequestCode::WRITE, path, literal }
    } else {
        Command { code: RequestCode::READ, path: head, literal }
    }
}

/// The value that a line carries: none where it has no literal.
pub open spec fn line_value(bytes: Seq<u8>) -> Result<ValueView, LiteralError> {
    match line_literal(bytes) {
        None => Ok(ValueView::Unit),
        Some(l) => spec_parse_value(decode_utf8(l)),
    }
}

/// What a line comes to, for a buffer of `buf_len` bytes: the size of the
/// request built from it, or why there is none.
pub open spec fn spec_interpret(bytes: Seq<u8>, buf_len: nat) -> Result<int, InterpretError> {
    match line_value(bytes) {
        Err(e) => Err(InterpretError::Literal(e)),
        Ok(value) => match request_outcome(
            Some(decode_utf8(line_path(bytes))),
            Some(line_code(bytes)),
            value,
            buf_len,
        ) {
            Err(e) => Err(InterpretError::Build(e)),
            Ok(n) => Ok(n),
        },
    }
}

/// Builds in `buf` the request that a line names, and returns its size. On
/// an error nothing is written.
pub fn interpret(i: &str, buf: &mut [u8]) -> (r: Result<usize, InterpretError>)
    ensures
        match r {
            Ok(n) => spec_interpret(i.spec_bytes(), old(buf)@.len()) == Ok::<int, InterpretError>(
                n as int,
            ) && final(buf)@ == splice(
                old(buf)@,
                0,
                encode_msg(
                    line_code(i.spec_bytes()).spec_byte(),
                    decode_utf8(line_path(i.spec_bytes())),
                    line_value(i.spec_bytes())->Ok_0,
                ),
            ),
            Err(e) => spec_interpret(i.spec_bytes(), old(buf)@.len()) == Err::<
                int,
                InterpretError,
            >(e) && final(buf)@ == old(buf)@,
        },
{
    let cmd = parse_line(i);
    proof {
        encode_utf8_decode_utf8(cmd.path@);
    }
    let value = match cmd.literal {
        None => Value::UNIT(()),
        Some(l) => {
            proof {
                encode_utf8_decode_utf8(l@);
            }
            match parse_value(l) {
                Ok(v) => v,
                Err(e) => {
                    return Err(InterpretError::Literal(e));
                },
            }
        },
    };
    let mut builder = RequestBuilder::new(buf);
    builder.code(cmd.code);
    builder.path(cmd.path);
    builder.payload(value.borrowed());
    match builder.build() {
        Ok(n) => Ok(n),
        Err(e) => Err(InterpretError::Build(e)),
    }
}

} // verus!
