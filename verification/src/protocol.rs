//! The wire format: a five-byte header, the path, the payload; and the
//! builders that write a request or an answer into a caller's buffer.

use vstd::prelude::*;
use vstd::utf8::*;
use crate::ty::{copy_into, splice, Value, ValueView};

verus! {

/// The largest message, header included.
pub const MAX_MSG_SZ: usize = 512;

/// The size of the header.
pub const HEADER_SZ: usize = 5;

/// The longest path, in bytes.
pub const MAX_PATH_SZ: usize = MAX_MSG_SZ / 2 - HEADER_SZ;

/// The bound on the payload, in bytes.
pub const MAX_PAYLOAD_SZ: usize = MAX_MSG_SZ / 2;

/// The first byte of every message: signature and protocol version in one.
pub const SIGN: u8 = 0x8E;

/// What a request asks for.
#[allow(non_camel_case_types)]
#[derive(Clone, Copy, Debug, PartialEq, Eq, Structural)]
pub enum RequestCode {
    READ,
    WRITE,
}

/// How a request ended.
#[allow(non_camel_case_types)]
#[derive(Clone, Copy, Debug, PartialEq, Eq, Structural)]
pub enum AnswerCode {
    OK_READ,
    OK_WRITE,
    ERR_LOCK,
    ERR_BAD_PROTO,
    ERR_BAD_FORMAT,
    ERR_PATH,
    ERR_TYPE,
    ERR_USER,
}

/// The header of a message, field by field in wire order.
#[derive(Clone, Copy, Debug, Default, PartialEq, Eq, Structural)]
pub struct Header {
    pub sign: u8,
    pub path_sz: u8,
    pub payload_sz: u8,
    pub code: u8,
    pub payload_ty: u8,
}

/// Why a builder wrote nothing.
#[derive(Clone, Copy, Debug, PartialEq, Eq, Structural)]
pub enum BuildError {
    /// The code or the path was never supplied.
    MissingField,
    /// The path or the payload is longer than its bound.
    Oversize,
    /// The buffer is shorter than the message.
    BufferTooSmall,
}

impl RequestCode {
    pub open spec fn spec_byte(self) -> u8 {
        match self {
            RequestCode::READ => 0,
            RequestCode::WRITE => 1,
        }
    }

    pub open spec fn spec_from_byte(b: u8) -> Option<RequestCode> {
        match b {
            0 => Some(RequestCode::READ),
            1 => Some(RequestCode::WRITE),
            _ => None,
        }
    }

    pub fn byte(self) -> (r: u8)
        ensures
            r == self.spec_byte(),
    {
        match self {
            RequestCode::READ => 0,
            RequestCode::WRITE => 1,
        }
    }

    pub fn from_byte(b: u8) -> (r: Option<RequestCode>)
        ensures
            r == Self::spec_from_byte(b),
    {
        match b {
            0 => Some(RequestCode::READ),
            1 => Some(RequestCode::WRITE),
            _ => None,
        }
    }
}

impl AnswerCode {
    pub open spec fn spec_byte(self) -> u8 {
        match self {
            AnswerCode::OK_READ => 0,
            AnswerCode::OK_WRITE => 1,
            AnswerCode::ERR_LOCK => 2,
            AnswerCode::ERR_BAD_PROTO => 3,
            AnswerCode::ERR_BAD_FORMAT => 4,
            AnswerCode::ERR_PATH => 5,
            AnswerCode::ERR_TYPE => 6,
            AnswerCode::ERR_USER => 7,
        }
    }

    pub open spec fn spec_from_byte(b: u8) -> Option<AnswerCode> {
        match b {
            0 => Some(AnswerCode::OK_READ),
            1 => Some(AnswerCode::OK_WRITE),
            2 => Some(AnswerCode::ERR_LOCK),
            3 => Some(AnswerCode::ERR_BAD_PROTO),
            4 => Some(AnswerCode::ERR_BAD_FORMAT),
            5 => Some(AnswerCode::ERR_PATH),
            6 => Some(AnswerCode::ERR_TYPE),
            7 => Some(AnswerCode::ERR_USER),
            _ => None,
        }
    }

    pub fn byte(self) -> (r: u8)
        ensures
            r == self.spec_byte(),
    {
        match self {
            AnswerCode::OK_READ => 0,
            AnswerCode::OK_WRITE => 1,
            AnswerCode::ERR_LOCK => 2,
            AnswerCode::ERR_BAD_PROTO => 3,
            AnswerCode::ERR_BAD_FORMAT => 4,
            AnswerCode::ERR_PATH => 5,
            AnswerCode::ERR_TYPE => 6,
            AnswerCode::ERR_USER => 7,
        }
    }

    pub fn from_byte(b: u8) -> (r: Option<AnswerCode>)
        ensures
            r == Self::spec_from_byte(b),
    {
        match b {
            0 => Some(AnswerCode::OK_READ),
            1 => Some(AnswerCode::OK_WRITE),
            2 => Some(AnswerCode::ERR_LOCK),
            3 => Some(AnswerCode::ERR_BAD_PROTO),
            4 => Some(AnswerCode::ERR_BAD_FORMAT),
            5 => Some(AnswerCode::ERR_PATH),
            6 => Some(AnswerCode::ERR_TYPE),
            7 => Some(AnswerCode::ERR_USER),
            _ => None,
        }
    }

    /// An answer code's byte names that code again.
    pub proof fn lemma_byte_roundtrip(self)
        ensures
            Self::spec_from_byte(self.spec_byte()) == Some(self),
    {
    }
}

impl From<RequestCode> for AnswerCode {
    /// The answer that says the request was carried out.
    fn from(c: RequestCode) -> (r: AnswerCode) {
        match c {
            RequestCode::READ => AnswerCode::OK_READ,
            RequestCode::WRITE => AnswerCode::OK_WRITE,
        }
    }
}

impl vstd::std_specs::convert::FromSpecImpl<RequestCode> for AnswerCode {
    open spec fn obeys_from_spec() -> bool {
        true
    }

    open spec fn from_spec(c: RequestCode) -> AnswerCode {
        match c {
            RequestCode::READ => AnswerCode::OK_READ,
            RequestCode::WRITE => AnswerCode::OK_WRITE,
        }
    }
}

impl TryFrom<AnswerCode> for RequestCode {
    type Error = ();

    /// The request that a success code answers; an error code answers none.
    fn try_from(c: AnswerCode) -> (r: Result<RequestCode, ()>) {
        match c {
            AnswerCode::OK_READ => Ok(RequestCode::READ),
            AnswerCode::OK_WRITE => Ok(RequestCode::WRITE),
            _ => Err(()),
        }
    }
}

impl vstd::std_specs::convert::TryFromSpecImpl<AnswerCode> for RequestCode {
    open spec fn obeys_try_from_spec() -> bool {
        true
    }

    open spec fn try_from_spec(c: AnswerCode) -> Result<RequestCode, ()> {
        match c {
            AnswerCode::OK_READ => Ok(RequestCode::READ),
            AnswerCode::OK_WRITE => Ok(RequestCode::WRITE),
            _ => Err(()),
        }
    }
}

/// Whether a path and a value are short enough for one message: the path at
/// most `MAX_PATH_SZ` bytes, the payload within `MAX_PAYLOAD_SZ` and such that
/// its length fits the header's one-byte field.
pub open spec fn fits_message(path: Seq<char>, value: ValueView) -> bool {
    &&& encode_utf8(path).len() <= MAX_PATH_SZ
    &&& value.payload().len() <= MAX_PAYLOAD_SZ
    &&& value.payload().len() <= u8::MAX
}

/// The bytes of the message with this code, path and value: the header
/// (sign, path size, payload size, code, type tag), the path in UTF-8, the
/// payload.
pub open spec fn encode_msg(code: u8, path: Seq<char>, value: ValueView) -> Seq<u8> {
    seq![
        SIGN,
        encode_utf8(path).len() as u8,
        value.payload().len() as u8,
        code,
        value.tag().spec_byte(),
    ] + encode_utf8(path) + value.payload()
}

/// What building a request comes to, for a buffer of `buf_len` bytes: the
/// size of the message, or the first of the errors that applies.
pub open spec fn request_outcome(
    path: Option<Seq<char>>,
    code: Option<RequestCode>,
    value: ValueView,
    buf_len: nat,
) -> Result<int, BuildError> {
    if path is None || code is None {
        Err(BuildError::MissingField)
    } else if !fits_message(path->0, value) {
        Err(BuildError::Oversize)
    } else if buf_len < HEADER_SZ + encode_utf8(path->0).len() + value.payload().len() {
        Err(BuildError::BufferTooSmall)
    } else {
        Ok(HEADER_SZ + encode_utf8(path->0).len() + value.payload().len())
    }
}

/// What building an answer comes to, over the buffer contents `buf`, whose
/// second byte is taken as the size of the path already in place.
pub open spec fn answer_outcome(value: ValueView, buf: Seq<u8>) -> Result<int, BuildError> {
    if buf.len() < HEADER_SZ {
        Err(BuildError::BufferTooSmall)
    } else if buf[1] > MAX_PATH_SZ || value.payload().len() > MAX_PAYLOAD_SZ
        || value.payload().len() > u8::MAX {
        Err(BuildError::Oversize)
    } else if buf.len() < HEADER_SZ + buf[1] + value.payload().len() {
        Err(BuildError::BufferTooSmall)
    } else {
        Ok(HEADER_SZ + buf[1] + value.payload().len())
    }
}

/// The buffer contents after an answer was built over `buf`: payload size and
/// type tag rewritten, the code too where one was supplied, and the payload
/// placed behind the path. Sign, path size and path stay as they were.
pub open spec fn answer_bytes(buf: Seq<u8>, code: Option<AnswerCode>, value: ValueView) -> Seq<
    u8,
> {
    let with_size = buf.update(2, value.payload().len() as u8);
    let with_code = match code {
        Some(c) => with_size.update(3, c.spec_byte()),
        None => with_size,
    };
    let with_tag = with_code.update(4, value.tag().spec_byte());
    splice(with_tag, HEADER_SZ + buf[1], value.payload())
}

/// Builds a request in place, in a buffer that the caller lends.
pub struct RequestBuilder<'a> {
    pub buf: &'a mut [u8],
    pub path: Option<&'a str>,
    pub payload: Value<'a>,
    pub req_code: Option<RequestCode>,
}

impl<'a> RequestBuilder<'a> {
    /// A builder over `buf` with no code, no path and a unit payload.
    pub fn new(buf: &'a mut [u8]) -> (r: Self)
        ensures
            r.path is None,
            r.req_code is None,
            r.payload@ == ValueView::Unit,
            r.buf@ == old(buf)@,
            final(buf)@ == final(r.buf)@,
    {
        RequestBuilder { buf, path: None, payload: Value::UNIT(()), req_code: None }
    }

    /// Sets the path.
    pub fn path(&mut self, path: &'a str) -> (r: &mut Self)
        ensures
            r.path == Some(path),
            r.payload == old(self).payload,
            r.req_code == old(self).req_code,
            r.buf@ == old(self).buf@,
            final(r.buf)@ == final(old(self).buf)@,
            *final(self) == *final(r),
    {
        self.path = Some(path);
        self
    }

    /// Sets the value to send.
    pub fn payload(&mut self, value: Value<'a>) -> (r: &mut Self)
        ensures
            r.payload == value,
            r.path == old(self).path,
            r.req_code == old(self).req_code,
            r.buf@ == old(self).buf@,
            final(r.buf)@ == final(old(self).buf)@,
            *final(self) == *final(r),
    {
        self.payload = value;
        self
    }

    /// Sets the request code.
    pub fn code(&mut self, code: RequestCode) -> (r: &mut Self)
        ensures
            r.req_code == Some(code),
            r.path == old(self).path,
            r.payload == old(self).payload,
            r.buf@ == old(self).buf@,
            final(r.buf)@ == final(old(self).buf)@,
            *final(self) == *final(r),
    {
        self.req_code = Some(code);
        self
    }

    /// The path that was set, as characters.
    pub open spec fn path_view(&self) -> Option<Seq<char>> {
        match self.path {
            Some(p) => Some(p@),
            None => None,
        }
    }

    /// Writes the message at the start of the buffer and returns its size.
    /// On an error nothing is written. Bytes behind the message are never
    /// touched.
    pub fn build(&mut self) -> (r: Result<usize, BuildError>)
        ensures
            match r {
                Ok(n) => request_outcome(
                    old(self).path_view(),
                    old(self).req_code,
                    old(self).payload@,
                    old(self).buf@.len(),
                ) == Ok::<int, BuildError>(n as int),
                Err(e) => request_outcome(
                    old(self).path_view(),
                    old(self).req_code,
                    old(self).payload@,
                    old(self).buf@.len(),
                ) == Err::<int, BuildError>(e),
            },
            r is Ok ==> final(self).buf@ == splice(
                old(self).buf@,
                0,
                encode_msg(
                    old(self).req_code->0.spec_byte(),
                    old(self).path->0@,
                    old(self).payload@,
                ),
            ),
            r is Err ==> final(self).buf@ == old(self).buf@,
            r matches Ok(n) ==> n <= MAX_MSG_SZ,
            final(self).buf@.len() == old(self).buf@.len(),
            final(self).path == old(self).path,
            final(self).payload == old(self).payload,
            final(self).req_code == old(self).req_code,
            final(final(self).buf)@ == final(old(self).buf)@,
    {
        let path = match self.path {
            Some(p) => p,
            None => {
                return Err(BuildError::MissingField);
            },
        };
        let code = match self.req_code {
            Some(c) => c,
            None => {
                return Err(BuildError::MissingField);
            },
        };
        let path_bytes = path.as_bytes();
        let path_len: usize = path_bytes.len();
        let payload_len: usize = self.payload.payload_len();
        if path_len > MAX_PATH_SZ || payload_len > MAX_PAYLOAD_SZ || payload_len > 255 {
            return Err(BuildError::Oversize);
        }
        let total: usize = HEADER_SZ + path_len + payload_len;
        if self.buf.len() < total {
            return Err(BuildError::BufferTooSmall);
        }
        let ghost header = seq![
            SIGN,
            path_len as u8,
            payload_len as u8,
            code.spec_byte(),
            self.payload@.tag().spec_byte(),
        ];
        self.buf[0] = SIGN;
        self.buf[1] = path_len as u8;
        self.buf[2] = payload_len as u8;
        self.buf[3] = code.byte();
        self.buf[4] = self.payload.tag().byte();
        let ghost with_header = self.buf@;
        copy_into(self.buf, HEADER_SZ, path_bytes);
        let ghost with_path = self.buf@;
        self.payload.write_payload(self.buf, HEADER_SZ + path_len);
        proof {
            lemma_assemble(
                old(self).buf@,
                header,
                path_bytes@,
                self.payload@.payload(),
                with_header,
                with_path,
                self.buf@,
            );
        }
        Ok(total)
    }
}

/// Builds an answer in place. The buffer may still hold the request: its
/// path is then kept where it is.
pub struct AnswerBuilder<'a> {
    pub buf: &'a mut [u8],
    pub ans_code: Option<AnswerCode>,
    pub payload: Value<'a>,
}

impl<'a> AnswerBuilder<'a> {
    /// A builder over `buf` with no code and a unit payload.
    pub fn new(buf: &'a mut [u8]) -> (r: Self)
        ensures
            r.ans_code is None,
            r.payload@ == ValueView::Unit,
            r.buf@ == old(buf)@,
            final(buf)@ == final(r.buf)@,
    {
        AnswerBuilder { buf, ans_code: None, payload: Value::UNIT(()) }
    }

    /// Sets the answer code.
    pub fn code(&mut self, code: AnswerCode) -> (r: &mut Self)
        ensures
            r.ans_code == Some(code),
            r.payload == old(self).payload,
            r.buf@ == old(self).buf@,
            final(r.buf)@ == final(old(self).buf)@,
            *final(self) == *final(r),
    {
        self.ans_code = Some(code);
        self
    }

    /// Sets the value to send.
    pub fn payload(&mut self, value: Value<'a>) -> (r: &mut Self)
        ensures
            r.payload == value,
            r.ans_code == old(self).ans_code,
            r.buf@ == old(self).buf@,
            final(r.buf)@ == final(old(self).buf)@,
            *final(self) == *final(r),
    {
        self.payload = value;
        self
    }

    /// Rewrites the header's payload size and type tag, its code where one was
    /// set, and places the payload behind the path; returns the size of the
    /// answer. On an error nothing is written.
    pub fn build(&mut self) -> (r: Result<usize, BuildError>)
        ensures
            match r {
                Ok(n) => answer_outcome(old(self).payload@, old(self).buf@) == Ok::<int, BuildError>(n as int),
                Err(e) => answer_outcome(old(self).payload@, old(self).buf@) == Err::<int, BuildError>(e),
            },
            r is Ok ==> final(self).buf@ == answer_bytes(
                old(self).buf@,
                old(self).ans_code,
                old(self).payload@,
            ),
            r is Err ==> final(self).buf@ == old(self).buf@,
            r matches Ok(n) ==> n <= MAX_MSG_SZ,
            final(self).buf@.len() == old(self).buf@.len(),
            final(self).ans_code == old(self).ans_code,
            final(self).payload == old(self).payload,
            final(final(self).buf)@ == final(old(self).buf)@,
    {
        if self.buf.len() < HEADER_SZ {
            return Err(BuildError::BufferTooSmall);
        }
        let path_len: usize = self.buf[1] as usize;
        let payload_len: usize = self.payload.payload_len();
        if path_len > MAX_PATH_SZ || payload_len > MAX_PAYLOAD_SZ || payload_len > 255 {
            return Err(BuildError::Oversize);
        }
        let total: usize = HEADER_SZ + path_len + payload_len;
        if self.buf.len() < total {
            return Err(BuildError::BufferTooSmall);
        }
        self.buf[2] = payload_len as u8;
        match self.ans_code {
            Some(c) => {
                self.buf[3] = c.byte();
            },
            None => {},
        }
        self.buf[4] = self.payload.tag().byte();
        self.payload.write_payload(self.buf, HEADER_SZ + path_len);
        Ok(total)
    }
}

proof fn lemma_assemble(
    before: Seq<u8>,
    header: Seq<u8>,
    path: Seq<u8>,
    payload: Seq<u8>,
    with_header: Seq<u8>,
    with_path: Seq<u8>,
    after: Seq<u8>,
)
    requires
        header.len() == 5,
        before.len() >= 5 + path.len() + payload.len(),
        with_header.len() == before.len(),
        forall|i: int| 0 <= i < 5 ==> with_header[i] == header[i],
        forall|i: int| 5 <= i < before.len() ==> with_header[i] == before[i],
        with_path == splice(with_header, 5, path),
        after == splice(with_path, 5 + path.len() as int, payload),
    ensures
        after == splice(before, 0, header + path + payload),
{
    assert(after =~= splice(before, 0, header + path + payload));
}

/// An answer built with a code over the bytes of a message is the message
/// with that code and the answer's value, under the same path; the bytes
/// behind the message that the answer does not reach stay.
pub proof fn lemma_answer_over_message(
    code: u8,
    path: Seq<char>,
    value: ValueView,
    rest: Seq<u8>,
    answer_code: AnswerCode,
    answer: ValueView,
)
    requires
        fits_message(path, value),
        answer.payload().len() <= u8::MAX,
        answer.payload().len() <= value.payload().len() + rest.len(),
    ensures
        answer_outcome(answer, encode_msg(code, path, value) + rest) == Ok::<int, BuildError>(
            encode_msg(answer_code.spec_byte(), path, answer).len() as int,
        ),
        answer_bytes(encode_msg(code, path, value) + rest, Some(answer_code), answer) == splice(
            encode_msg(code, path, value) + rest,
            0,
            encode_msg(answer_code.spec_byte(), path, answer),
        ),
{
    let buf = encode_msg(code, path, value) + rest;
    assert(buf[1] == encode_utf8(path).len());
    assert(answer_bytes(buf, Some(answer_code), answer) =~= splice(
        buf,
        0,
        encode_msg(answer_code.spec_byte(), path, answer),
    ));
}

/// Bytes of the buffer behind a message that was built are what they were.
pub proof fn lemma_splice_keeps_rest(s: Seq<u8>, at: int, data: Seq<u8>, k: int)
    requires
        0 <= at,
        at + data.len() <= k < s.len(),
    ensures
        splice(s, at, data).len() == s.len(),
        splice(s, at, data)[k] == s[k],
{
}

impl TryFrom<u8> for AnswerCode {
    type Error = ();

    /// The answer code that a byte names; an error for a byte that names none.
    fn try_from(b: u8) -> (r: Result<AnswerCode, ()>) {
        match AnswerCode::from_byte(b) {
            Some(t) => Ok(t),
            None => Err(()),
        }
    }
}

impl vstd::std_specs::convert::TryFromSpecImpl<u8> for AnswerCode {
    open spec fn obeys_try_from_spec() -> bool {
        true
    }

    open spec fn try_from_spec(b: u8) -> Result<AnswerCode, ()> {
        match AnswerCode::spec_from_byte(b) {
            Some(t) => Ok(t),
            None => Err(()),
        }
    }
}

impl From<AnswerCode> for u8 {
    /// The byte of the answer code.
    fn from(t: AnswerCode) -> (r: u8) {
        t.byte()
    }
}

impl vstd::std_specs::convert::FromSpecImpl<AnswerCode> for u8 {
    open spec fn obeys_from_spec() -> bool {
        true
    }

    open spec fn from_spec(t: AnswerCode) -> u8 {
        t.spec_byte()
    }
}

} // verus!
