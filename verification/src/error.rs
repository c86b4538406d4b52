//! The errors of the library.
use crate::arg::ParseError;
use crate::event;
use vstd::std_specs::convert::FromSpecImpl;
use vstd::string::StringExecFns;
use crate::text::{digits, push_digits};
use crate::handshake::HandshakeError;
use crate::message::PendingRequestResult;
use crate::request::RequestError;
use vstd::prelude::*;

verus! {

/// `std::io::Error`, carried through unread.
#[verifier::external_type_specification]
#[verifier::external_body]
pub struct ExIoError(std::io::Error);

/// An error coming from the `reis` crate.
#[derive(Debug)]
pub enum Error {
    UnexpectedHandshakeEvent,
    InvalidInterfaceVersion(&'static str, u32),
    Event(crate::event::Error),
    Request(RequestError),
    Parse(ParseError),
    Handshake(HandshakeError),
    Io(std::io::Error),
}

impl Error {
    /// Whether `t` is a message of the error: a fixed start, then the
    /// message of the error it carries; the text of an I/O error is its own.
    pub open spec fn is_message(&self, t: Seq<char>) -> bool {
        match self {
            Error::UnexpectedHandshakeEvent => t == "unexpected handshake event"@,
            Error::InvalidInterfaceVersion(i, v) => t == "invalid version "@ + digits(*v as nat, 10)
                + " for interface '"@ + i@ + "'"@,
            Error::Event(e) => t == "event error: "@ + e.spec_message(),
            Error::Request(e) => t == "request error: "@ + e.spec_message(),
            Error::Parse(e) => exists|u: Seq<char>| t == "parse error: "@ + u && e.is_message(u),
            Error::Handshake(e) => t == "handshake error: "@ + e.spec_message(),
            Error::Io(_) => exists|u: Seq<char>| t == "IO error: "@ + u,
        }
    }

    /// Returns the message of the error.
    pub fn to_string(&self) -> (r: String)
        ensures
            self.is_message(r@),
    {
        match self {
            Error::UnexpectedHandshakeEvent => String::from_str("unexpected handshake event"),
            Error::InvalidInterfaceVersion(i, v) => {
                let mut s = String::from_str("invalid version ");
                push_digits(&mut s, *v as u64, 10);
                s.append(" for interface '");
                s.append(i);
                s.append("'");
                s
            },
            Error::Event(e) => {
                let mut s = String::from_str("event error: ");
                s.append(e.to_string().as_str());
                s
            },
            Error::Request(e) => {
                let mut s = String::from_str("request error: ");
                s.append(e.to_string().as_str());
                s
            },
            Error::Parse(e) => {
                let mut s = String::from_str("parse error: ");
                let u = e.to_string();
                s.append(u.as_str());
                assert(e.is_message(u@));
                s
            },
            Error::Handshake(e) => {
                let mut s = String::from_str("handshake error: ");
                s.append(e.to_string().as_str());
                s
            },
            Error::Io(e) => {
                let mut s = String::from_str("IO error: ");
                let u = e.to_string();
                s.append(u.as_str());
                s
            },
        }
    }
}

/// Turns a received message, or the reason none could be read, into a
/// result: a parse error stays one, and a message for an unknown object is a
/// handshake error.
pub fn request_result<T>(result: PendingRequestResult<T>) -> (r: Result<T, Error>)
    ensures
        match result {
            PendingRequestResult::Request(m) => r == Ok::<T, Error>(m),
            PendingRequestResult::ParseError(e) => r matches Err(Error::Parse(e2)) && e2 == e,
            PendingRequestResult::InvalidObject(id) => r matches Err(Error::Handshake(HandshakeError::InvalidObject(i))) && i == id,
        },
{
    match result {
        PendingRequestResult::Request(request) => Ok(request),
        PendingRequestResult::ParseError(parse_error) => Err(Error::Parse(parse_error)),
        PendingRequestResult::InvalidObject(invalid_object) => Err(Error::Handshake(HandshakeError::InvalidObject(invalid_object))),
    }
}

impl From<event::Error> for Error {
    fn from(err: event::Error) -> (r: Self) {
        Error::Event(err)
    }
}

impl FromSpecImpl<event::Error> for Error {
    open spec fn obeys_from_spec() -> bool {
        true
    }

    open spec fn from_spec(err: event::Error) -> Self {
        Error::Event(err)
    }
}

impl From<RequestError> for Error {
    fn from(err: RequestError) -> (r: Self) {
        Error::Request(err)
    }
}

impl FromSpecImpl<RequestError> for Error {
    open spec fn obeys_from_spec() -> bool {
        true
    }

    open spec fn from_spec(err: RequestError) -> Self {
        Error::Request(err)
    }
}

impl From<ParseError> for Error {
    fn from(err: ParseError) -> (r: Self) {
        Error::Parse(err)
    }
}

impl FromSpecImpl<ParseError> for Error {
    open spec fn obeys_from_spec() -> bool {
        true
    }

    open spec fn from_spec(err: ParseError) -> Self {
        Error::Parse(err)
    }
}

impl From<HandshakeError> for Error {
    fn from(err: HandshakeError) -> (r: Self) {
        Error::Handshake(err)
    }
}

impl FromSpecImpl<HandshakeError> for Error {
    open spec fn obeys_from_spec() -> bool {
        true
    }

    open spec fn from_spec(err: HandshakeError) -> Self {
        Error::Handshake(err)
    }
}

impl From<std::io::Error> for Error {
    fn from(err: std::io::Error) -> (r: Self) {
        Error::Io(err)
    }
}

impl FromSpecImpl<std::io::Error> for Error {
    open spec fn obeys_from_spec() -> bool {
        true
    }

    open spec fn from_spec(err: std::io::Error) -> Self {
        Error::Io(err)
    }
}

} // verus!
