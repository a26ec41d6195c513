//! The type model: the kinds of value a register can hold, their one-byte
//! tags and their encoding as payload bytes.

use vstd::prelude::*;
use vstd::utf8::*;
use crate::protocol::AnswerCode;

verus! {

/// A value as it travels in a message. Strings and byte arrays borrow from
/// the buffer they were read from.
#[allow(non_camel_case_types)]
#[derive(Clone, Copy, Debug, PartialEq, Eq)]
pub enum Value<'a> {
    UNIT(()),
    BOOL(bool),
    I32(i32),
    I16(i16),
    I8(i8),
    U32(u32),
    U16(u16),
    U8(u8),
    STR(&'a str),
    BYTES(&'a [u8]),
}

/// The one-byte tag that names a value's kind on the wire.
#[allow(non_camel_case_types)]
#[derive(Clone, Copy, Debug, PartialEq, Eq, Structural)]
pub enum TypeTag {
    UNIT,
    BOOL,
    I32,
    I16,
    I8,
    U32,
    U16,
    U8,
    STR,
    BYTES,
}

/// What a `Value` holds, with borrowed data replaced by its contents.
pub enum ValueView {
    Unit,
    Bool(bool),
    I32(i32),
    I16(i16),
    I8(i8),
    U32(u32),
    U16(u16),
    U8(u8),
    Str(Seq<char>),
    Bytes(Seq<u8>),
}

/// The two bytes of `x`, least significant first.
pub open spec fn le_bytes_u16(x: u16) -> Seq<u8> {
    seq![(x & 0xff) as u8, ((x >> 8) & 0xff) as u8]
}

/// The four bytes of `x`, least significant first.
pub open spec fn le_bytes_u32(x: u32) -> Seq<u8> {
    seq![
        (x & 0xff) as u8,
        ((x >> 8) & 0xff) as u8,
        ((x >> 16) & 0xff) as u8,
        ((x >> 24) & 0xff) as u8,
    ]
}

/// The number whose little-endian bytes are `b0`, `b1`.
pub open spec fn u16_of_le(b0: u8, b1: u8) -> u16 {
    (b0 as u16) | ((b1 as u16) << 8)
}

/// The number whose little-endian bytes are `b0` to `b3`.
pub open spec fn u32_of_le(b0: u8, b1: u8, b2: u8, b3: u8) -> u32 {
    (b0 as u32) | ((b1 as u32) << 8) | ((b2 as u32) << 16) | ((b3 as u32) << 24)
}

impl TypeTag {
    /// The tag's byte on the wire.
    pub open spec fn spec_byte(self) -> u8 {
        match self {
            TypeTag::UNIT => 0,
            TypeTag::BOOL => 1,
            TypeTag::I32 => 2,
            TypeTag::I16 => 3,
            TypeTag::I8 => 4,
            TypeTag::U32 => 5,
            TypeTag::U16 => 6,
            TypeTag::U8 => 7,
            TypeTag::STR => 8,
            TypeTag::BYTES => 9,
        }
    }

    /// The tag that a byte names, if it names one.
    pub open spec fn spec_from_byte(b: u8) -> Option<TypeTag> {
        match b {
            0 => Some(TypeTag::UNIT),
            1 => Some(TypeTag::BOOL),
            2 => Some(TypeTag::I32),
            3 => Some(TypeTag::I16),
            4 => Some(TypeTag::I8),
            5 => Some(TypeTag::U32),
            6 => Some(TypeTag::U16),
            7 => Some(TypeTag::U8),
            8 => Some(TypeTag::STR),
            9 => Some(TypeTag::BYTES),
            _ => None,
        }
    }

    /// The number of payload bytes a value of this kind takes, where the kind
    /// fixes it; `None` for strings and byte arrays.
    pub open spec fn spec_fixed_size(self) -> Option<nat> {
        match self {
            TypeTag::UNIT => Some(0),
            TypeTag::BOOL | TypeTag::I8 | TypeTag::U8 => Some(1),
            TypeTag::I16 | TypeTag::U16 => Some(2),
            TypeTag::I32 | TypeTag::U32 => Some(4),
            TypeTag::STR | TypeTag::BYTES => None,
        }
    }

    pub fn byte(self) -> (r: u8)
        ensures
            r == self.spec_byte(),
    {
        match self {
            TypeTag::UNIT => 0,
            TypeTag::BOOL => 1,
            TypeTag::I32 => 2,
            TypeTag::I16 => 3,
            TypeTag::I8 => 4,
            TypeTag::U32 => 5,
            TypeTag::U16 => 6,
            TypeTag::U8 => 7,
            TypeTag::STR => 8,
            TypeTag::BYTES => 9,
        }
    }

    pub fn from_byte(b: u8) -> (r: Option<TypeTag>)
        ensures
            r == Self::spec_from_byte(b),
    {
        match b {
            0 => Some(TypeTag::UNIT),
            1 => Some(TypeTag::BOOL),
            2 => Some(TypeTag::I32),
            3 => Some(TypeTag::I16),
            4 => Some(TypeTag::I8),
            5 => Some(TypeTag::U32),
            6 => Some(TypeTag::U16),
            7 => Some(TypeTag::U8),
            8 => Some(TypeTag::STR),
            9 => Some(TypeTag::BYTES),
            _ => None,
        }
    }

    /// A tag's byte names that tag again, and no byte above 9 names a tag.
    pub proof fn lemma_byte_roundtrip(self)
        ensures
            Self::spec_from_byte(self.spec_byte()) == Some(self),
            self.spec_byte() <= 9,
    {
    }
}

impl Default for TypeTag {
    fn default() -> (r: TypeTag)
        ensures
            r == TypeTag::UNIT,
    {
        TypeTag::UNIT
    }
}

impl ValueView {
    /// The kind of the value.
    pub open spec fn tag(self) -> TypeTag {
        match self {
            ValueView::Unit => TypeTag::UNIT,
            ValueView::Bool(_) => TypeTag::BOOL,
            ValueView::I32(_) => TypeTag::I32,
            ValueView::I16(_) => TypeTag::I16,
            ValueView::I8(_) => TypeTag::I8,
            ValueView::U32(_) => TypeTag::U32,
            ValueView::U16(_) => TypeTag::U16,
            ValueView::U8(_) => TypeTag::U8,
            ValueView::Str(_) => TypeTag::STR,
            ValueView::Bytes(_) => TypeTag::BYTES,
        }
    }

    /// The payload bytes of the value: nothing for a unit, `00` or `01` for a
    /// boolean, little-endian two's complement for numbers, UTF-8 for a
    /// string, and the bytes themselves for a byte array.
    pub open spec fn payload(self) -> Seq<u8> {
        match self {
            ValueView::Unit => Seq::empty(),
            ValueView::Bool(b) => seq![if b { 1u8 } else { 0u8 }],
            ValueView::I32(x) => le_bytes_u32(x as u32),
            ValueView::I16(x) => le_bytes_u16(x as u16),
            ValueView::I8(x) => seq![x as u8],
            ValueView::U32(x) => le_bytes_u32(x),
            ValueView::U16(x) => le_bytes_u16(x),
            ValueView::U8(x) => seq![x],
            ValueView::Str(s) => encode_utf8(s),
            ValueView::Bytes(b) => b,
        }
    }

    /// The value of kind `tag` that the payload bytes `bytes` stand for, if
    /// they stand for one: the length must be the one the kind fixes, and a
    /// string must be valid UTF-8. A boolean is true for any byte but zero.
    pub open spec fn decode(tag: TypeTag, bytes: Seq<u8>) -> Option<ValueView> {
        match tag {
            TypeTag::UNIT => if bytes.len() == 0 {
                Some(ValueView::Unit)
            } else {
                None
            },
            TypeTag::BOOL => if bytes.len() == 1 {
                Some(ValueView::Bool(bytes[0] != 0))
            } else {
                None
            },
            TypeTag::I32 => if bytes.len() == 4 {
                Some(ValueView::I32(u32_of_le(bytes[0], bytes[1], bytes[2], bytes[3]) as i32))
            } else {
                None
            },
            TypeTag::I16 => if bytes.len() == 2 {
                Some(ValueView::I16(u16_of_le(bytes[0], bytes[1]) as i16))
            } else {
                None
            },
            TypeTag::I8 => if bytes.len() == 1 {
                Some(ValueView::I8(bytes[0] as i8))
            } else {
                None
            },
            TypeTag::U32 => if bytes.len() == 4 {
                Some(ValueView::U32(u32_of_le(bytes[0], bytes[1], bytes[2], bytes[3])))
            } else {
                None
            },
            TypeTag::U16 => if bytes.len() == 2 {
                Some(ValueView::U16(u16_of_le(bytes[0], bytes[1])))
            } else {
                None
            },
            TypeTag::U8 => if bytes.len() == 1 {
                Some(ValueView::U8(bytes[0]))
            } else {
                None
            },
            TypeTag::STR => if valid_utf8(bytes) {
                Some(ValueView::Str(decode_utf8(bytes)))
            } else {
                None
            },
            TypeTag::BYTES => Some(ValueView::Bytes(bytes)),
        }
    }
}

impl<'a> View for Value<'a> {
    type V = ValueView;

    open spec fn view(&self) -> ValueView {
        match *self {
            Value::UNIT(_) => ValueView::Unit,
            Value::BOOL(b) => ValueView::Bool(b),
            Value::I32(x) => ValueView::I32(x),
            Value::I16(x) => ValueView::I16(x),
            Value::I8(x) => ValueView::I8(x),
            Value::U32(x) => ValueView::U32(x),
            Value::U16(x) => ValueView::U16(x),
            Value::U8(x) => ValueView::U8(x),
            Value::STR(s) => ValueView::Str(s@),
            Value::BYTES(b) => ValueView::Bytes(b@),
        }
    }
}

/// `s` with the bytes from `at` on replaced by `data`, as far as `data` goes.
pub open spec fn splice(s: Seq<u8>, at: int, data: Seq<u8>) -> Seq<u8> {
    s.subrange(0, at) + data + s.subrange(at + data.len(), s.len() as int)
}

/// Copies `src` into `dst` from index `at` on.
pub fn copy_into(dst: &mut [u8], at: usize, src: &[u8])
    requires
        at + src@.len() <= old(dst)@.len(),
    ensures
        final(dst)@ == splice(old(dst)@, at as int, src@),
{
    let n: usize = src.len();
    let total: usize = dst.len();
    let mut i: usize = 0;
    while i < n
        invariant
            n == src@.len(),
            total == dst@.len(),
            i <= n,
            at + n <= dst@.len(),
            dst@.len() == old(dst)@.len(),
            forall|k: int| 0 <= k < i ==> dst@[at + k] == src@[k],
            forall|k: int|
                0 <= k < dst@.len() && !(at <= k < at + i) ==> dst@[k] == old(dst)@[k],
        decreases n - i,
    {
        dst[at + i] = src[i];
        i = i + 1;
    }
    assert(dst@ =~= splice(old(dst)@, at as int, src@));
}

impl<'a> Value<'a> {
    /// The kind of the value.
    pub fn tag(&self) -> (r: TypeTag)
        ensures
            r == self@.tag(),
    {
        match self {
            Value::UNIT(_) => TypeTag::UNIT,
            Value::BOOL(_) => TypeTag::BOOL,
            Value::I32(_) => TypeTag::I32,
            Value::I16(_) => TypeTag::I16,
            Value::I8(_) => TypeTag::I8,
            Value::U32(_) => TypeTag::U32,
            Value::U16(_) => TypeTag::U16,
            Value::U8(_) => TypeTag::U8,
            Value::STR(_) => TypeTag::STR,
            Value::BYTES(_) => TypeTag::BYTES,
        }
    }

    /// The number of bytes the value takes as a payload.
    pub fn payload_len(&self) -> (r: usize)
        ensures
            r == self@.payload().len(),
    {
        match self {
            Value::UNIT(_) => 0,
            Value::BOOL(_) | Value::I8(_) | Value::U8(_) => 1,
            Value::I16(_) | Value::U16(_) => 2,
            Value::I32(_) | Value::U32(_) => 4,
            Value::STR(s) => s.as_bytes().len(),
            Value::BYTES(b) => b.len(),
        }
    }

    /// Writes the value's payload bytes into `dst` from index `at` on.
    pub fn write_payload(&self, dst: &mut [u8], at: usize)
        requires
            at + self@.payload().len() <= old(dst)@.len(),
        ensures
            final(dst)@ == splice(old(dst)@, at as int, self@.payload()),
    {
        match self {
            Value::UNIT(_) => {},
            Value::BOOL(b) => {
                dst[at] = if *b { 1 } else { 0 };
            },
            Value::I32(x) => {
                write_u32(dst, at, *x as u32);
            },
            Value::I16(x) => {
                write_u16(dst, at, *x as u16);
            },
            Value::I8(x) => {
                dst[at] = *x as u8;
            },
            Value::U32(x) => {
                write_u32(dst, at, *x);
            },
            Value::U16(x) => {
                write_u16(dst, at, *x);
            },
            Value::U8(x) => {
                dst[at] = *x;
            },
            Value::STR(s) => {
                copy_into(dst, at, s.as_bytes());
            },
            Value::BYTES(b) => {
                copy_into(dst, at, b);
            },
        }
        assert(dst@ =~= splice(old(dst)@, at as int, self@.payload()));
    }
}

fn write_u16(dst: &mut [u8], at: usize, x: u16)
    requires
        at + 2 <= old(dst)@.len(),
    ensures
        final(dst)@ == splice(old(dst)@, at as int, le_bytes_u16(x)),
{
    dst[at] = (x & 0xff) as u8;
    dst[at + 1] = ((x >> 8) & 0xff) as u8;
    assert(dst@ =~= splice(old(dst)@, at as int, le_bytes_u16(x)));
}

fn write_u32(dst: &mut [u8], at: usize, x: u32)
    requires
        at + 4 <= old(dst)@.len(),
    ensures
        final(dst)@ == splice(old(dst)@, at as int, le_bytes_u32(x)),
{
    dst[at] = (x & 0xff) as u8;
    dst[at + 1] = ((x >> 8) & 0xff) as u8;
    dst[at + 2] = ((x >> 16) & 0xff) as u8;
    dst[at + 3] = ((x >> 24) & 0xff) as u8;
    assert(dst@ =~= splice(old(dst)@, at as int, le_bytes_u32(x)));
}

impl<'a> From<&Value<'a>> for TypeTag {
    fn from(v: &Value<'a>) -> (r: TypeTag) {
        v.tag()
    }
}

impl<'a> vstd::std_specs::convert::FromSpecImpl<&Value<'a>> for TypeTag {
    open spec fn obeys_from_spec() -> bool {
        true
    }

    open spec fn from_spec(v: &Value<'a>) -> TypeTag {
        v@.tag()
    }
}

/// Decoding the payload of a value gives the value back.
pub proof fn lemma_decode_payload(v: ValueView)
    ensures
        ValueView::decode(v.tag(), v.payload()) == Some(v),
{
    match v {
        ValueView::I32(x) => {
            let u = x as u32;
            assert(u32_of_le(
                (u & 0xff) as u8,
                ((u >> 8) & 0xff) as u8,
                ((u >> 16) & 0xff) as u8,
                ((u >> 24) & 0xff) as u8,
            ) as i32 == x) by (bit_vector)
                requires
                    u == x as u32,
            ;
        },
        ValueView::U32(u) => {
            assert(u32_of_le(
                (u & 0xff) as u8,
                ((u >> 8) & 0xff) as u8,
                ((u >> 16) & 0xff) as u8,
                ((u >> 24) & 0xff) as u8,
            ) == u) by (bit_vector);
        },
        ValueView::I16(x) => {
            let u = x as u16;
            assert(u16_of_le((u & 0xff) as u8, ((u >> 8) & 0xff) as u8) as i16 == x)
                by (bit_vector)
                requires
                    u == x as u16,
            ;
        },
        ValueView::U16(u) => {
            assert(u16_of_le((u & 0xff) as u8, ((u >> 8) & 0xff) as u8) == u) by (bit_vector);
        },
        ValueView::I8(x) => {
            assert((x as u8) as i8 == x) by (bit_vector);
        },
        ValueView::Str(s) => {
            encode_utf8_valid_utf8(s);
            encode_utf8_decode_utf8(s);
        },
        ValueView::Bytes(b) => {},
        _ => {},
    }
}

impl<'a> TryFrom<Value<'a>> for () {
    type Error = AnswerCode;

    /// What a `UNIT` value holds; `ERR_TYPE` for a value of another kind.
    fn try_from(v: Value<'a>) -> (r: Result<(), AnswerCode>) {
        match v {
            Value::UNIT(x) => Ok(x),
            _ => Err(AnswerCode::ERR_TYPE),
        }
    }
}

impl<'a> vstd::std_specs::convert::TryFromSpecImpl<Value<'a>> for () {
    open spec fn obeys_try_from_spec() -> bool {
        true
    }

    open spec fn try_from_spec(v: Value<'a>) -> Result<(), AnswerCode> {
        match v {
            Value::UNIT(x) => Ok(x),
            _ => Err(AnswerCode::ERR_TYPE),
        }
    }
}

impl<'a> TryFrom<Value<'a>> for bool {
    type Error = AnswerCode;

    /// What a `BOOL` value holds; `ERR_TYPE` for a value of another kind.
    fn try_from(v: Value<'a>) -> (r: Result<bool, AnswerCode>) {
        match v {
            Value::BOOL(x) => Ok(x),
            _ => Err(AnswerCode::ERR_TYPE),
        }
    }
}

impl<'a> vstd::std_specs::convert::TryFromSpecImpl<Value<'a>> for bool {
    open spec fn obeys_try_from_spec() -> bool {
        true
    }

    open spec fn try_from_spec(v: Value<'a>) -> Result<bool, AnswerCode> {
        match v {
            Value::BOOL(x) => Ok(x),
            _ => Err(AnswerCode::ERR_TYPE),
        }
    }
}

impl<'a> TryFrom<Value<'a>> for i32 {
    type Error = AnswerCode;

    /// What a `I32` value holds; `ERR_TYPE` for a value of another kind.
    fn try_from(v: Value<'a>) -> (r: Result<i32, AnswerCode>) {
        match v {
            Value::I32(x) => Ok(x),
            _ => Err(AnswerCode::ERR_TYPE),
        }
    }
}

impl<'a> vstd::std_specs::convert::TryFromSpecImpl<Value<'a>> for i32 {
    open spec fn obeys_try_from_spec() -> bool {
        true
    }

    open spec fn try_from_spec(v: Value<'a>) -> Result<i32, AnswerCode> {
        match v {
            Value::I32(x) => Ok(x),
            _ => Err(AnswerCode::ERR_TYPE),
        }
    }
}

impl<'a> TryFrom<Value<'a>> for i16 {
    type Error = AnswerCode;

    /// What a `I16` value holds; `ERR_TYPE` for a value of another kind.
    fn try_from(v: Value<'a>) -> (r: Result<i16, AnswerCode>) {
        match v {
            Value::I16(x) => Ok(x),
            _ => Err(AnswerCode::ERR_TYPE),
        }
    }
}

impl<'a> vstd::std_specs::convert::TryFromSpecImpl<Value<'a>> for i16 {
    open spec fn obeys_try_from_spec() -> bool {
        true
    }

    open spec fn try_from_spec(v: Value<'a>) -> Result<i16, AnswerCode> {
        match v {
            Value::I16(x) => Ok(x),
            _ => Err(AnswerCode::ERR_TYPE),
        }
    }
}

impl<'a> TryFrom<Value<'a>> for i8 {
    type Error = AnswerCode;

    /// What a `I8` value holds; `ERR_TYPE` for a value of another kind.
    fn try_from(v: Value<'a>) -> (r: Result<i8, AnswerCode>) {
        match v {
            Value::I8(x) => Ok(x),
            _ => Err(AnswerCode::ERR_TYPE),
        }
    }
}

impl<'a> vstd::std_specs::convert::TryFromSpecImpl<Value<'a>> for i8 {
    open spec fn obeys_try_from_spec() -> bool {
        true
    }

    open spec fn try_from_spec(v: Value<'a>) -> Result<i8, AnswerCode> {
        match v {
            Value::I8(x) => Ok(x),
            _ => Err(AnswerCode::ERR_TYPE),
        }
    }
}

impl<'a> TryFrom<Value<'a>> for u32 {
    type Error = AnswerCode;

    /// What a `U32` value holds; `ERR_TYPE` for a value of another kind.
    fn try_from(v: Value<'a>) -> (r: Result<u32, AnswerCode>) {
        match v {
            Value::U32(x) => Ok(x),
            _ => Err(AnswerCode::ERR_TYPE),
        }
    }
}

impl<'a> vstd::std_specs::convert::TryFromSpecImpl<Value<'a>> for u32 {
    open spec fn obeys_try_from_spec() -> bool {
        true
    }

    open spec fn try_from_spec(v: Value<'a>) -> Result<u32, AnswerCode> {
        match v {
            Value::U32(x) => Ok(x),
            _ => Err(AnswerCode::ERR_TYPE),
        }
    }
}

impl<'a> TryFrom<Value<'a>> for u16 {
    type Error = AnswerCode;

    /// What a `U16` value holds; `ERR_TYPE` for a value of another kind.
    fn try_from(v: Value<'a>) -> (r: Result<u16, AnswerCode>) {
        match v {
            Value::U16(x) => Ok(x),
            _ => Err(AnswerCode::ERR_TYPE),
        }
    }
}

impl<'a> vstd::std_specs::convert::TryFromSpecImpl<Value<'a>> for u16 {
    open spec fn obeys_try_from_spec() -> bool {
        true
    }

    open spec fn try_from_spec(v: Value<'a>) -> Result<u16, AnswerCode> {
        match v {
            Value::U16(x) => Ok(x),
            _ => Err(AnswerCode::ERR_TYPE),
        }
    }
}

impl<'a> TryFrom<Value<'a>> for u8 {
    type Error = AnswerCode;

    /// What a `U8` value holds; `ERR_TYPE` for a value of another kind.
    fn try_from(v: Value<'a>) -> (r: Result<u8, AnswerCode>) {
        match v {
            Value::U8(x) => Ok(x),
            _ => Err(AnswerCode::ERR_TYPE),
        }
    }
}

impl<'a> vstd::std_specs::convert::TryFromSpecImpl<Value<'a>> for u8 {
    open spec fn obeys_try_from_spec() -> bool {
        true
    }

    open spec fn try_from_spec(v: Value<'a>) -> Result<u8, AnswerCode> {
        match v {
            Value::U8(x) => Ok(x),
            _ => Err(AnswerCode::ERR_TYPE),
        }
    }
}

impl<'a> TryFrom<Value<'a>> for &'a str {
    type Error = AnswerCode;

    /// What a `STR` value holds; `ERR_TYPE` for a value of another kind.
    fn try_from(v: Value<'a>) -> (r: Result<&'a str, AnswerCode>) {
        match v {
            Value::STR(x) => Ok(x),
            _ => Err(AnswerCode::ERR_TYPE),
        }
    }
}

impl<'a> vstd::std_specs::convert::TryFromSpecImpl<Value<'a>> for &'a str {
    open spec fn obeys_try_from_spec() -> bool {
        true
    }

    open spec fn try_from_spec(v: Value<'a>) -> Result<&'a str, AnswerCode> {
        match v {
            Value::STR(x) => Ok(x),
            _ => Err(AnswerCode::ERR_TYPE),
        }
    }
}

impl<'a> TryFrom<Value<'a>> for &'a [u8] {
    type Error = AnswerCode;

    /// What a `BYTES` value holds; `ERR_TYPE` for a value of another kind.
    fn try_from(v: Value<'a>) -> (r: Result<&'a [u8], AnswerCode>) {
        match v {
            Value::BYTES(x) => Ok(x),
            _ => Err(AnswerCode::ERR_TYPE),
        }
    }
}

impl<'a> vstd::std_specs::convert::TryFromSpecImpl<Value<'a>> for &'a [u8] {
    open spec fn obeys_try_from_spec() -> bool {
        true
    }

    open spec fn try_from_spec(v: Value<'a>) -> Result<&'a [u8], AnswerCode> {
        match v {
            Value::BYTES(x) => Ok(x),
            _ => Err(AnswerCode::ERR_TYPE),
        }
    }
}

impl TryFrom<u8> for TypeTag {
    type Error = ();

    /// The type tag that a byte names; an error for a byte that names none.
    fn try_from(b: u8) -> (r: Result<TypeTag, ()>) {
        match TypeTag::from_byte(b) {
            Some(t) => Ok(t),
            None => Err(()),
        }
    }
}

impl vstd::std_specs::convert::TryFromSpecImpl<u8> for TypeTag {
    open spec fn obeys_try_from_spec() -> bool {
        true
    }

    open spec fn try_from_spec(b: u8) -> Result<TypeTag, ()> {
        match TypeTag::spec_from_byte(b) {
            Some(t) => Ok(t),
            None => Err(()),
        }
    }
}

impl From<TypeTag> for u8 {
    /// The byte of the type tag.
    fn from(t: TypeTag) -> (r: u8) {
        t.byte()
    }
}

impl vstd::std_specs::convert::FromSpecImpl<TypeTag> for u8 {
    open spec fn obeys_from_spec() -> bool {
        true
    }

    open spec fn from_spec(t: TypeTag) -> u8 {
        t.spec_byte()
    }
}

} // verus!
