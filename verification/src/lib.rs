//! A compact request/response protocol for a register-like address space:
//! the wire codec, the schema of registers, and the dispatch of requests.

pub mod dispatch;
pub mod gen;
pub mod json;
pub mod owned;
pub mod parser;
pub mod priv_lvl;
pub mod protocol;
pub mod repl;
pub mod schema;
pub mod text;
pub mod ty;

pub use parser::{Msg, MsgView, ParseMsg, ParseResult, ParseState, ParserError, ParserView};
pub use protocol::{
    AnswerBuilder, AnswerCode, BuildError, Header, RequestBuilder, RequestCode, HEADER_SZ,
    MAX_MSG_SZ, MAX_PATH_SZ, MAX_PAYLOAD_SZ, SIGN,
};
pub use ty::{TypeTag, Value, ValueView};
