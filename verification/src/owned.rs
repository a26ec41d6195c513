//! Values and messages that own their strings and bytes, for keeping them
//! beyond the life of the buffer they were parsed from.

use vstd::prelude::*;
use vstd::slice::slice_to_vec;
use crate::parser::MsgView;
use crate::protocol::AnswerCode;
use crate::ty::ValueView;

verus! {

/// A value that owns its data.
#[allow(non_camel_case_types)]
#[derive(Debug, PartialEq, Eq)]
pub enum Value {
    UNIT(()),
    BOOL(bool),
    I32(i32),
    I16(i16),
    I8(i8),
    U32(u32),
    U16(u16),
    U8(u8),
    STR(String),
    BYTES(Vec<u8>),
}

/// A message that owns its path and value.
#[derive(Debug, PartialEq, Eq)]
pub struct Msg(pub AnswerCode, pub String, pub Value);

impl View for Value {
    type V = ValueView;

    open spec fn view(&self) -> ValueView {
        match *self {
            Value::UNIT(_) => ValueView::Unit,
            Value::BOOL(b) => ValueView::Bool(b),
            Value::I32(x) => ValueView::I32(x),
            Value::I16(x) => ValueView::I16(x),
            Value::I8(x) => ValueView::I8(x),
            Value::U32(x) => ValueView::U32(x),
            Value::U16(x) => ValueView::U16(x),
            Value::U8(x) => ValueView::U8(x),
            Value::STR(s) => ValueView::Str(s@),
            Value::BYTES(b) => ValueView::Bytes(b@),
        }
    }
}

impl View for Msg {
    type V = MsgView;

    open spec fn view(&self) -> MsgView {
        MsgView { code: self.0, path: self.1@, value: self.2@ }
    }
}

impl Clone for Value {
    fn clone(&self) -> (r: Value)
        ensures
            r@ == self@,
    {
        Value::from_borrowed(self.borrowed())
    }
}

impl Clone for Msg {
    fn clone(&self) -> (r: Msg)
        ensures
            r@ == self@,
    {
        Msg::from_borrowed(self.borrowed())
    }
}

impl Value {
    /// The same value, borrowing from this one.
    pub fn borrowed<'a>(&'a self) -> (r: crate::ty::Value<'a>)
        ensures
            r@ == self@,
    {
        match self {
            Value::UNIT(v) => crate::ty::Value::UNIT(*v),
            Value::BOOL(v) => crate::ty::Value::BOOL(*v),
            Value::I32(v) => crate::ty::Value::I32(*v),
            Value::I16(v) => crate::ty::Value::I16(*v),
            Value::I8(v) => crate::ty::Value::I8(*v),
            Value::U32(v) => crate::ty::Value::U32(*v),
            Value::U16(v) => crate::ty::Value::U16(*v),
            Value::U8(v) => crate::ty::Value::U8(*v),
            Value::STR(v) => crate::ty::Value::STR(v.as_str()),
            Value::BYTES(v) => crate::ty::Value::BYTES(v.as_slice()),
        }
    }

    /// The same value, with strings and bytes copied.
    pub fn from_borrowed<'a>(v: crate::ty::Value<'a>) -> (r: Value)
        ensures
            r@ == v@,
    {
        match v {
            crate::ty::Value::UNIT(v) => Value::UNIT(v),
            crate::ty::Value::BOOL(v) => Value::BOOL(v),
            crate::ty::Value::I32(v) => Value::I32(v),
            crate::ty::Value::I16(v) => Value::I16(v),
            crate::ty::Value::I8(v) => Value::I8(v),
            crate::ty::Value::U32(v) => Value::U32(v),
            crate::ty::Value::U16(v) => Value::U16(v),
            crate::ty::Value::U8(v) => Value::U8(v),
            crate::ty::Value::STR(v) => Value::STR(v.to_owned()),
            crate::ty::Value::BYTES(v) => Value::BYTES(slice_to_vec(v)),
        }
    }
}

impl Msg {
    /// The same message, borrowing from this one.
    pub fn borrowed<'a>(&'a self) -> (r: crate::parser::Msg<'a>)
        ensures
            r@ == self@,
    {
        crate::parser::Msg(self.0, self.1.as_str(), self.2.borrowed())
    }

    /// The same message, with path and value copied.
    pub fn from_borrowed<'a>(m: crate::parser::Msg<'a>) -> (r: Msg)
        ensures
            r@ == m@,
    {
        Msg(m.0, m.1.to_owned(), Value::from_borrowed(m.2))
    }
}

} // verus!
