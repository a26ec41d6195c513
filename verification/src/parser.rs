//! The streaming parser: it is handed the bytes received so far, again and
//! again as they grow, and yields the message once all of it is there.

use core::ops::Range;
use vstd::prelude::*;
use vstd::slice::slice_subrange;
use vstd::string::StringSliceAdditionalSpecFns;
use vstd::utf8::*;
use crate::protocol::{
    encode_msg, fits_message, AnswerCode, Header, HEADER_SZ, MAX_PATH_SZ, MAX_PAYLOAD_SZ, SIGN,
};
use crate::ty::{
    lemma_decode_payload, splice, u16_of_le, u32_of_le, TypeTag, Value, ValueView,
};

verus! {

/// Why `try_parse` gave no message. `NeedMoreData` is no failure: the bytes
/// so far are the beginning of a message and the rest has yet to come.
#[derive(Clone, Copy, Debug, PartialEq, Eq, Structural)]
pub enum ParserError {
    NeedMoreData,
    /// The code byte names no answer code.
    BadCode,
    /// The first byte is not the protocol's sign.
    BadHeader,
    /// The header announces a path longer than `MAX_PATH_SZ`.
    BadPathSz,
    /// The header announces a payload longer than `MAX_PAYLOAD_SZ`.
    BadPayloadSz,
    /// The type byte names no type.
    BadTypeID,
    /// The path is not UTF-8, or the payload is no value of the announced
    /// type.
    BadValue,
}

/// A message: code, path and value. Path and value borrow from the buffer
/// that was parsed.
#[derive(Clone, Copy, Debug, PartialEq, Eq)]
pub struct Msg<'a>(pub AnswerCode, pub &'a str, pub Value<'a>);

/// What a `Msg` holds.
pub struct MsgView {
    pub code: AnswerCode,
    pub path: Seq<char>,
    pub value: ValueView,
}

impl<'a> View for Msg<'a> {
    type V = MsgView;

    open spec fn view(&self) -> MsgView {
        MsgView { code: self.0, path: self.1@, value: self.2@ }
    }
}

pub type ParseResult<'a> = Result<Msg<'a>, ParserError>;

/// The part of the message that the parser waits for.
pub enum ParseState {
    ParsingHeader,
    ParsingPath,
    ParsingValue,
    /// A message is complete. The parser leaves this state at once for
    /// `ParsingHeader`, so it is never in it between two calls.
    ParsingDone,
}

/// What the parser remembers between two calls: nothing, or the header it
/// has accepted, with or without the path behind it.
pub enum ParserView {
    Header,
    Path(Header),
    Value(Header),
}

/// The streaming parser. One parser serves one message at a time.
pub struct ParseMsg {
    header: Header,
    path: Range<usize>,
    payload: Range<usize>,
    pos: usize,
    state: ParseState,
}

/// The header that the first five bytes of `buf` spell.
pub open spec fn header_of(buf: Seq<u8>) -> Header {
    Header { sign: buf[0], path_sz: buf[1], payload_sz: buf[2], code: buf[3], payload_ty: buf[4] }
}

/// The fault of a header, if it has one: a wrong sign, then a path size or a
/// payload size over its bound.
pub open spec fn header_fault(h: Header) -> Option<ParserError> {
    if h.sign != SIGN {
        Some(ParserError::BadHeader)
    } else if h.path_sz > MAX_PATH_SZ {
        Some(ParserError::BadPathSz)
    } else if h.payload_sz > MAX_PAYLOAD_SZ {
        Some(ParserError::BadPayloadSz)
    } else {
        None
    }
}

/// A payload size always passes: the bound is above what its one byte can
/// say.
pub proof fn lemma_payload_size_fits(h: Header)
    ensures
        header_fault(h) != Some(ParserError::BadPayloadSz),
{
}

/// The size of the whole message that the header `h` announces.
pub open spec fn message_len(h: Header) -> int {
    HEADER_SZ + h.path_sz + h.payload_sz
}

/// The value that payload bytes stand for under a type byte.
pub open spec fn decode_value(ty_id: u8, payload: Seq<u8>) -> Result<ValueView, ParserError> {
    match TypeTag::spec_from_byte(ty_id) {
        None => Err(ParserError::BadTypeID),
        Some(tag) => match ValueView::decode(tag, payload) {
            None => Err(ParserError::BadValue),
            Some(v) => Ok(v),
        },
    }
}

/// The message that `buf` holds under the header `h`, when `buf` has at
/// least `message_len(h)` bytes. The code is looked at first, then the path,
/// then the type, then the payload; bytes behind the message are ignored.
pub open spec fn decode_body(h: Header, buf: Seq<u8>) -> Result<MsgView, ParserError> {
    let path = buf.subrange(HEADER_SZ as int, HEADER_SZ + h.path_sz);
    let payload = buf.subrange(HEADER_SZ + h.path_sz, message_len(h));
    match AnswerCode::spec_from_byte(h.code) {
        None => Err(ParserError::BadCode),
        Some(code) => if !valid_utf8(path) {
            Err(ParserError::BadValue)
        } else {
            match decode_value(h.payload_ty, payload) {
                Err(e) => Err(e),
                Ok(value) => Ok(MsgView { code, path: decode_utf8(path), value }),
            }
        },
    }
}

/// One call of the parser that has the header `h` and the path: what it
/// remembers afterwards, and what it returns.
pub open spec fn step_value(h: Header, buf: Seq<u8>) -> (ParserView, Result<MsgView, ParserError>) {
    if buf.len() < message_len(h) {
        (ParserView::Value(h), Err(ParserError::NeedMoreData))
    } else {
        match decode_body(h, buf) {
            Ok(m) => (ParserView::Header, Ok(m)),
            Err(e) => (ParserView::Value(h), Err(e)),
        }
    }
}

/// One call of the parser that has the header `h` and waits for the path.
pub open spec fn step_path(h: Header, buf: Seq<u8>) -> (ParserView, Result<MsgView, ParserError>) {
    if buf.len() < HEADER_SZ + h.path_sz {
        (ParserView::Path(h), Err(ParserError::NeedMoreData))
    } else {
        step_value(h, buf)
    }
}

/// One call of the parser that waits for a header.
pub open spec fn step_header(buf: Seq<u8>) -> (ParserView, Result<MsgView, ParserError>) {
    if buf.len() < HEADER_SZ {
        (ParserView::Header, Err(ParserError::NeedMoreData))
    } else {
        match header_fault(header_of(buf)) {
            Some(e) => (ParserView::Header, Err(e)),
            None => step_path(header_of(buf), buf),
        }
    }
}

/// One call of `try_parse` on `buf` by a parser that remembers `st`: what it
/// remembers afterwards, and what it returns. After a message the parser
/// remembers nothing; after a failure it remembers what it did before the
/// part that failed.
pub open spec fn parse_step(st: ParserView, buf: Seq<u8>) -> (
    ParserView,
    Result<MsgView, ParserError>,
) {
    match st {
        ParserView::Header => step_header(buf),
        ParserView::Path(h) => step_path(h, buf),
        ParserView::Value(h) => step_value(h, buf),
    }
}

/// Calls `core::str::from_utf8`. It returns a string exactly when the bytes
/// are well-formed UTF-8, and the string is those bytes.
#[verifier::external_body]
fn str_from_utf8<'a>(bytes: &'a [u8]) -> (r: Option<&'a str>)
    ensures
        r is Some <==> valid_utf8(bytes@),
        r matches Some(s) ==> s.spec_bytes() == bytes@,
{
    match core::str::from_utf8(bytes) {
        Ok(s) => Some(s),
        Err(_) => None,
    }
}

/// Reads bytes as a string, if they are UTF-8.
pub fn utf8_str<'a>(bytes: &'a [u8]) -> (r: Option<&'a str>)
    ensures
        r is Some <==> valid_utf8(bytes@),
        r matches Some(s) ==> s@ == decode_utf8(bytes@),
{
    let r = str_from_utf8(bytes);
    proof {
        if let Some(s) = r {
            encode_utf8_decode_utf8(s@);
        }
    }
    r
}

/// Reads the header at the start of `i`, field by field.
pub fn header_parser(i: &[u8]) -> (r: Result<Header, ParserError>)
    ensures
        i@.len() < HEADER_SZ ==> r == Err::<Header, ParserError>(ParserError::NeedMoreData),
        i@.len() >= HEADER_SZ ==> r == Ok::<Header, ParserError>(header_of(i@)),
{
    if i.len() >= HEADER_SZ {
        Ok(Header { sign: i[0], path_sz: i[1], payload_sz: i[2], code: i[3], payload_ty: i[4] })
    } else {
        Err(ParserError::NeedMoreData)
    }
}

/// Decodes a payload under its type byte.
pub fn value_parser<'a>(payload: &'a [u8], ty_id: u8) -> (r: Result<Value<'a>, ParserError>)
    ensures
        match r {
            Ok(v) => decode_value(ty_id, payload@) == Ok::<ValueView, ParserError>(v@),
            Err(e) => decode_value(ty_id, payload@) == Err::<ValueView, ParserError>(e),
        },
{
    let tag = match TypeTag::from_byte(ty_id) {
        Some(t) => t,
        None => {
            return Err(ParserError::BadTypeID);
        },
    };
    let n: usize = payload.len();
    match tag {
        TypeTag::UNIT => if n == 0 {
            Ok(Value::UNIT(()))
        } else {
            Err(ParserError::BadValue)
        },
        TypeTag::BOOL => if n == 1 {
            Ok(Value::BOOL(payload[0] != 0))
        } else {
            Err(ParserError::BadValue)
        },
        TypeTag::I32 => if n == 4 {
            Ok(Value::I32(read_u32(payload) as i32))
        } else {
            Err(ParserError::BadValue)
        },
        TypeTag::I16 => if n == 2 {
            Ok(Value::I16(read_u16(payload) as i16))
        } else {
            Err(ParserError::BadValue)
        },
        TypeTag::I8 => if n == 1 {
            Ok(Value::I8(payload[0] as i8))
        } else {
            Err(ParserError::BadValue)
        },
        TypeTag::U32 => if n == 4 {
            Ok(Value::U32(read_u32(payload)))
        } else {
            Err(ParserError::BadValue)
        },
        TypeTag::U16 => if n == 2 {
            Ok(Value::U16(read_u16(payload)))
        } else {
            Err(ParserError::BadValue)
        },
        TypeTag::U8 => if n == 1 {
            Ok(Value::U8(payload[0]))
        } else {
            Err(ParserError::BadValue)
        },
        TypeTag::STR => match utf8_str(payload) {
            Some(s) => Ok(Value::STR(s)),
            None => Err(ParserError::BadValue),
        },
        TypeTag::BYTES => Ok(Value::BYTES(payload)),
    }
}

fn read_u16(b: &[u8]) -> (r: u16)
    requires
        b@.len() == 2,
    ensures
        r == u16_of_le(b@[0], b@[1]),
{
    (b[0] as u16) | ((b[1] as u16) << 8)
}

fn read_u32(b: &[u8]) -> (r: u32)
    requires
        b@.len() == 4,
    ensures
        r == u32_of_le(b@[0], b@[1], b@[2], b@[3]),
{
    (b[0] as u32) | ((b[1] as u32) << 8) | ((b[2] as u32) << 16) | ((b[3] as u32) << 24)
}

impl ParserError {
    /// The answer code that reports this error to the other side. Waiting
    /// for more bytes is no error and has no code.
    pub fn answer_code(self) -> (r: Option<AnswerCode>)
        ensures
            r == self.spec_answer_code(),
    {
        match self {
            ParserError::NeedMoreData => None,
            ParserError::BadHeader => Some(AnswerCode::ERR_BAD_PROTO),
            _ => Some(AnswerCode::ERR_BAD_FORMAT),
        }
    }

    pub open spec fn spec_answer_code(self) -> Option<AnswerCode> {
        match self {
            ParserError::NeedMoreData => None,
            ParserError::BadHeader => Some(AnswerCode::ERR_BAD_PROTO),
            _ => Some(AnswerCode::ERR_BAD_FORMAT),
        }
    }
}

impl View for ParseMsg {
    type V = ParserView;

    closed spec fn view(&self) -> ParserView {
        match self.state {
            ParseState::ParsingHeader => ParserView::Header,
            ParseState::ParsingPath => ParserView::Path(self.header),
            ParseState::ParsingValue => ParserView::Value(self.header),
            ParseState::ParsingDone => ParserView::Header,
        }
    }
}

impl ParseMsg {
    #[verifier::type_invariant]
    spec fn consistent(self) -> bool {
        match self.state {
            ParseState::ParsingHeader => self.pos == 0,
            ParseState::ParsingPath => self.pos == HEADER_SZ,
            ParseState::ParsingValue => {
                &&& self.pos == HEADER_SZ + self.header.path_sz
                &&& self.path.start == HEADER_SZ
                &&& self.path.end == self.pos
            },
            ParseState::ParsingDone => false,
        }
    }

    /// A parser that waits for a header.
    pub fn new() -> (r: Self)
        ensures
            r@ == ParserView::Header,
    {
        ParseMsg {
            path: 0..0,
            payload: 0..0,
            pos: 0,
            state: ParseState::ParsingHeader,
            header: Header { sign: 0, path_sz: 0, payload_sz: 0, code: 0, payload_ty: 0 },
        }
    }

    /// Forgets what was parsed so far: the parser waits for a header again.
    pub fn reset(&mut self)
        ensures
            final(self)@ == ParserView::Header,
    {
        *self = ParseMsg {
            path: 0..0,
            payload: 0..0,
            pos: 0,
            state: ParseState::ParsingHeader,
            header: self.header,
        };
    }

    /// Takes all bytes received so far for the current message and goes as
    /// far as they allow: `parse_step` says how far, and what comes back.
    pub fn try_parse<'a>(&mut self, i: &'a [u8]) -> (r: Result<Msg<'a>, ParserError>)
        ensures
            final(self)@ == parse_step(old(self)@, i@).0,
            match r {
                Ok(m) => parse_step(old(self)@, i@).1 == Ok::<MsgView, ParserError>(m@),
                Err(e) => parse_step(old(self)@, i@).1 == Err::<MsgView, ParserError>(e),
            },
    {
        proof {
            use_type_invariant(&*self);
        }
        if let ParseState::ParsingHeader = self.state {
            let header = header_parser(i)?;
            if header.sign != SIGN {
                return Err(ParserError::BadHeader);
            }
            if header.path_sz as usize > MAX_PATH_SZ {
                return Err(ParserError::BadPathSz);
            }
            if header.payload_sz as usize > MAX_PAYLOAD_SZ {
                return Err(ParserError::BadPayloadSz);
            }
            *self = ParseMsg {
                header,
                path: 0..0,
                payload: 0..0,
                pos: HEADER_SZ,
                state: ParseState::ParsingPath,
            };
        }
        if let ParseState::ParsingPath = self.state {
            let path_end: usize = self.pos + self.header.path_sz as usize;
            if i.len() < path_end {
                return Err(ParserError::NeedMoreData);
            }
            *self = ParseMsg {
                header: self.header,
                path: self.pos..path_end,
                payload: 0..0,
                pos: path_end,
                state: ParseState::ParsingValue,
            };
        }
        let payload_end: usize = self.pos + self.header.payload_sz as usize;
        if i.len() < payload_end {
            return Err(ParserError::NeedMoreData);
        }
        let code = match AnswerCode::from_byte(self.header.code) {
            Some(c) => c,
            None => {
                return Err(ParserError::BadCode);
            },
        };
        let path_str = match utf8_str(slice_subrange(i, self.path.start, self.path.end)) {
            Some(s) => s,
            None => {
                return Err(ParserError::BadValue);
            },
        };
        let value = value_parser(slice_subrange(i, self.pos, payload_end), self.header.payload_ty)?;
        self.reset();
        Ok(Msg(code, path_str, value))
    }
}

/// What a parser remembers after it was handed each of `bufs` in turn,
/// starting from `st`.
pub open spec fn feed(st: ParserView, bufs: Seq<Seq<u8>>) -> ParserView
    decreases bufs.len(),
{
    if bufs.len() == 0 {
        st
    } else {
        parse_step(feed(st, bufs.drop_last()), bufs.last()).0
    }
}

/// Parsing the bytes of a message gives the message back, and leaves the
/// parser ready for the next one, whatever bytes stand behind the message.
pub proof fn lemma_parse_encoded(code: AnswerCode, path: Seq<char>, value: ValueView, rest: Seq<u8>)
    requires
        fits_message(path, value),
    ensures
        parse_step(ParserView::Header, encode_msg(code.spec_byte(), path, value) + rest) == (
            ParserView::Header,
            Ok::<MsgView, ParserError>(MsgView { code, path, value }),
        ),
{
    let path_bytes = encode_utf8(path);
    let payload = value.payload();
    let buf = encode_msg(code.spec_byte(), path, value) + rest;
    let h = header_of(buf);
    assert(h.sign == SIGN);
    assert(h.path_sz == path_bytes.len());
    assert(h.payload_sz == payload.len());
    assert(h.code == code.spec_byte());
    assert(h.payload_ty == value.tag().spec_byte());
    assert(buf.subrange(HEADER_SZ as int, HEADER_SZ + h.path_sz) =~= path_bytes);
    assert(buf.subrange(HEADER_SZ + h.path_sz, message_len(h)) =~= payload);
    code.lemma_byte_roundtrip();
    value.tag().lemma_byte_roundtrip();
    encode_utf8_valid_utf8(path);
    encode_utf8_decode_utf8(path);
    lemma_decode_payload(value);
}

/// Parsing a buffer at whose start a message was built gives the message
/// back, whatever the buffer held before.
pub proof fn lemma_parse_built(before: Seq<u8>, code: AnswerCode, path: Seq<char>, value: ValueView)
    requires
        fits_message(path, value),
        before.len() >= encode_msg(code.spec_byte(), path, value).len(),
    ensures
        parse_step(
            ParserView::Header,
            splice(before, 0, encode_msg(code.spec_byte(), path, value)),
        ) == (ParserView::Header, Ok::<MsgView, ParserError>(MsgView { code, path, value })),
{
    let message = encode_msg(code.spec_byte(), path, value);
    assert(splice(before, 0, message) =~= message + before.skip(message.len() as int));
    lemma_parse_encoded(code, path, value, before.skip(message.len() as int));
}

/// A request that was built parses to the same path and value, under the
/// answer code that shares the request code's byte.
pub proof fn lemma_parse_request(
    code: crate::protocol::RequestCode,
    path: Seq<char>,
    value: ValueView,
    rest: Seq<u8>,
)
    requires
        fits_message(path, value),
    ensures
        parse_step(ParserView::Header, encode_msg(code.spec_byte(), path, value) + rest) == (
            ParserView::Header,
            Ok::<MsgView, ParserError>(
                MsgView {
                    code: <AnswerCode as vstd::std_specs::convert::FromSpec<
                        crate::protocol::RequestCode,
                    >>::from_spec(code),
                    path,
                    value,
                },
            ),
        ),
{
    let answer = <AnswerCode as vstd::std_specs::convert::FromSpec<
        crate::protocol::RequestCode,
    >>::from_spec(code);
    assert(answer.spec_byte() == code.spec_byte());
    lemma_parse_encoded(answer, path, value, rest);
}

/// Whether a parser in state `st` can have got there on beginnings of `full`.
pub open spec fn waits_on(st: ParserView, full: Seq<u8>) -> bool {
    ||| st == ParserView::Header
    ||| full.len() >= HEADER_SZ && header_fault(header_of(full)) is None && (st
        == ParserView::Path(header_of(full)) || st == ParserView::Value(header_of(full)))
}

/// A beginning of a message that stops before the message's end makes the
/// parser ask for more, in whatever state earlier beginnings left it.
pub proof fn lemma_prefix_needs_more(st: ParserView, full: Seq<u8>, part: Seq<u8>)
    requires
        parse_step(ParserView::Header, full).1 is Ok,
        waits_on(st, full),
        part.is_prefix_of(full),
        part.len() < message_len(header_of(full)),
    ensures
        parse_step(st, part).1 == Err::<MsgView, ParserError>(ParserError::NeedMoreData),
        waits_on(parse_step(st, part).0, full),
{
    if part.len() >= HEADER_SZ {
        assert(header_of(part) == header_of(full));
    }
}

/// In whatever state beginnings of a message left the parser, the whole
/// message gives what it gives to a fresh parser.
pub proof fn lemma_resumed_parse(st: ParserView, full: Seq<u8>)
    requires
        parse_step(ParserView::Header, full).1 is Ok,
        waits_on(st, full),
    ensures
        parse_step(st, full) == parse_step(ParserView::Header, full),
{
}

/// Chunked delivery: when `full` holds a message and the parser is handed
/// beginnings of `full` that stop short of the message's end, one after the
/// other, it asks for more each time; handed `full` at last, it returns the
/// message that a single call on `full` returns.
pub proof fn lemma_chunked_parse(full: Seq<u8>, parts: Seq<Seq<u8>>)
    requires
        parse_step(ParserView::Header, full).1 is Ok,
        forall|i: int|
            0 <= i < parts.len() ==> (#[trigger] parts[i]).is_prefix_of(full) && parts[i].len()
                < message_len(header_of(full)),
    ensures
        forall|i: int|
            0 <= i < parts.len() ==> parse_step(
                feed(ParserView::Header, #[trigger] parts.subrange(0, i)),
                parts[i],
            ).1 == Err::<MsgView, ParserError>(ParserError::NeedMoreData),
        waits_on(feed(ParserView::Header, parts), full),
        parse_step(feed(ParserView::Header, parts), full) == parse_step(ParserView::Header, full),
    decreases parts.len(),
{
    if parts.len() > 0 {
        let earlier = parts.drop_last();
        assert forall|i: int| 0 <= i < earlier.len() implies (#[trigger] earlier[i]).is_prefix_of(
            full,
        ) && earlier[i].len() < message_len(header_of(full)) by {
            assert(earlier[i] == parts[i]);
        }
        lemma_chunked_parse(full, earlier);
        lemma_prefix_needs_more(feed(ParserView::Header, earlier), full, parts.last());
        assert forall|i: int| 0 <= i < parts.len() implies parse_step(
            feed(ParserView::Header, #[trigger] parts.subrange(0, i)),
            parts[i],
        ).1 == Err::<MsgView, ParserError>(ParserError::NeedMoreData) by {
            if i < parts.len() - 1 {
                assert(parts.subrange(0, i) =~= earlier.subrange(0, i));
                assert(parts[i] == earlier[i]);
            } else {
                assert(parts.subrange(0, i) =~= earlier);
            }
        }
    }
    lemma_resumed_parse(feed(ParserView::Header, parts), full);
}

} // verus!
