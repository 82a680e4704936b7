//! The answers of the protocol and their text on the wire.
//!
//! The text of an answer is one line without its line ending; whoever sends
//! it adds the newline.

use vstd::prelude::*;
use vstd::string::StringExecFns;
use vstd::utf8::encode_utf8;
use crate::decimal::{decimal, push_decimal, to_decimal};
use crate::store::TtlResult;

verus! {

/// An answer to one request.
#[derive(Debug, PartialEq, Eq)]
pub enum Reply {
    /// The request was carried out.
    Okay,
    /// The answer to a liveness probe.
    Pong,
    /// The value found under a key.
    Value(String),
    /// No visible value under the key.
    Missing,
    /// The remaining time-to-live of a key.
    Ttl(TtlResult),
    /// The number of entries removed.
    Count(usize),
    /// The session has to authenticate first.
    NoAuth,
    /// The password was not the configured one.
    InvalidPassword,
    /// The command, named here, came with too few arguments.
    WrongArity(String),
    /// The command, named here, is none of the protocol's.
    UnknownCommand(String),
}

/// The model of an answer, with sequences of characters for strings.
pub enum ReplyView {
    Okay,
    Pong,
    Value(Seq<char>),
    Missing,
    Ttl(TtlResult),
    Count(nat),
    NoAuth,
    InvalidPassword,
    WrongArity(Seq<char>),
    UnknownCommand(Seq<char>),
}

impl View for Reply {
    type V = ReplyView;

    open spec fn view(&self) -> ReplyView {
        match self {
            Reply::Okay => ReplyView::Okay,
            Reply::Pong => ReplyView::Pong,
            Reply::Value(v) => ReplyView::Value(v@),
            Reply::Missing => ReplyView::Missing,
            Reply::Ttl(t) => ReplyView::Ttl(*t),
            Reply::Count(n) => ReplyView::Count(*n as nat),
            Reply::NoAuth => ReplyView::NoAuth,
            Reply::InvalidPassword => ReplyView::InvalidPassword,
            Reply::WrongArity(c) => ReplyView::WrongArity(c@),
            Reply::UnknownCommand(c) => ReplyView::UnknownCommand(c@),
        }
    }
}

/// The model of an answer that may be missing.
pub open spec fn view_of(reply: Option<Reply>) -> Option<ReplyView> {
    match reply {
        Some(reply) => Some(reply@),
        None => None,
    }
}

impl ReplyView {
    /// The text of the answer on the wire.
    ///
    /// A value is framed as a bulk string: `$`, its length in bytes of
    /// UTF-8, a carriage return and a line feed, then the value itself. An
    /// absent key and a key that never expires both give `-1` as their
    /// time-to-live, so the two cannot be told apart on the wire.
    pub open spec fn wire(self) -> Seq<char> {
        match self {
            ReplyView::Okay => "+OK"@,
            ReplyView::Pong => "+PONG"@,
            ReplyView::Value(v) => "$"@ + decimal(encode_utf8(v).len()) + "\r\n"@ + v,
            ReplyView::Missing => "$-1"@,
            ReplyView::Ttl(TtlResult::Absent) => "-1"@,
            ReplyView::Ttl(TtlResult::NoExpiry) => "-1"@,
            ReplyView::Ttl(TtlResult::SecondsRemaining(n)) => decimal(n as nat),
            ReplyView::Count(n) => ":"@ + decimal(n),
            ReplyView::NoAuth => "-NOAUTH Authentication required."@,
            ReplyView::InvalidPassword => "-ERR invalid password"@,
            ReplyView::WrongArity(c) => "-ERR wrong number of arguments for '"@ + c + "'"@,
            ReplyView::UnknownCommand(c) => "-ERR: unknown command '"@ + c + "'"@,
        }
    }
}

impl Reply {
    /// Writes the answer as its text on the wire.
    pub fn to_line(&self) -> (line: String)
        ensures
            line@ == self@.wire(),
    {
        match self {
            Reply::Okay => "+OK".to_owned(),
            Reply::Pong => "+PONG".to_owned(),
            Reply::Value(v) => {
                let mut line = "$".to_owned();
                push_decimal(&mut line, v.as_str().as_bytes().len() as u128);
                line.append("\r\n");
                line.append(v.as_str());
                line
            },
            Reply::Missing => "$-1".to_owned(),
            Reply::Ttl(TtlResult::Absent) => "-1".to_owned(),
            Reply::Ttl(TtlResult::NoExpiry) => "-1".to_owned(),
            Reply::Ttl(TtlResult::SecondsRemaining(n)) => to_decimal(*n),
            Reply::Count(n) => {
                let mut line = ":".to_owned();
                push_decimal(&mut line, *n as u128);
                line
            },
            Reply::NoAuth => "-NOAUTH Authentication required.".to_owned(),
            Reply::InvalidPassword => "-ERR invalid password".to_owned(),
            Reply::WrongArity(c) => {
                let mut line = "-ERR wrong number of arguments for '".to_owned();
                line.append(c.as_str());
                line.append("'");
                line
            },
            Reply::UnknownCommand(c) => {
                let mut line = "-ERR: unknown command '".to_owned();
                line.append(c.as_str());
                line.append("'");
                line
            },
        }
    }
}

} // verus!
