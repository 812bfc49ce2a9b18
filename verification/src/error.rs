//! The failures of the client.
use vstd::prelude::*;

use crate::text::{decimal, int_text};

verus! {

/// A failure of a client operation.
#[allow(inconsistent_fields)]
#[derive(Debug)]
pub enum Error {
    /// The client itself cannot go on.
    Client { response_code: Option<i32>, message: String },
    /// A broker answered with a failure code.
    Broker { response_code: i32, message: String },
    /// A server answered with a failure at the remoting level.
    Server { response_code: i32, remark: String },
    /// A remoting command is malformed.
    RemotingCommand(String),
    /// No connection to `addr`.
    Connect { addr: String },
    /// The request could not be written to `addr`.
    SendRequest { addr: String, message: String },
    /// No answer from `addr` in time.
    Timeout { addr: String, timeout_millis: i64 },
    /// A budget is used up.
    TooMuchRequest(String),
    /// The reply to a request message did not come in time.
    RequestTimeout { topic: String, timeout_millis: i64 },
    /// Bytes that cannot be decoded.
    Decode(String),
    /// A value that cannot be encoded.
    Encode(String),
    /// A failure of the operating system.
    Io(String),
    /// Malformed JSON.
    Json(String),
}

/// The text of a failure.
pub open spec fn error_text(e: Error) -> Seq<char> {
    match e {
        Error::Client { response_code, message } => "MQClientException: "@ + message@,
        Error::Broker { response_code, message } => "MQBrokerException: CODE: "@ + decimal(
            response_code as int,
        ) + " DESC: "@ + message@,
        Error::Server { response_code, remark } => "server error: CODE: "@ + decimal(
            response_code as int,
        ) + " REMARK: "@ + remark@,
        Error::RemotingCommand(m) => "remoting command: "@ + m@,
        Error::Connect { addr } => "connect to "@ + addr@ + " failed"@,
        Error::SendRequest { addr, message } => "send request to "@ + addr@ + " failed: "@ + message@,
        Error::Timeout { addr, timeout_millis } => "wait response on "@ + addr@ + " timeout, "@ + decimal(
            timeout_millis as int,
        ) + "ms"@,
        Error::TooMuchRequest(m) => "too much request: "@ + m@,
        Error::RequestTimeout { topic, timeout_millis } => "request to topic "@ + topic@ + " timeout, "@
            + decimal(timeout_millis as int) + "ms"@,
        Error::Decode(m) => "decode: "@ + m@,
        Error::Encode(m) => "encode: "@ + m@,
        Error::Io(m) => "io: "@ + m@,
        Error::Json(m) => "json: "@ + m@,
    }
}

/// The code that a failure carries.
pub open spec fn error_code(e: Error) -> Option<i32> {
    match e {
        Error::Client { response_code, message } => response_code,
        Error::Broker { response_code, message } => Some(response_code),
        Error::Server { response_code, remark } => Some(response_code),
        _ => None,
    }
}

/// `e` is a client failure with the text `message` and the code `code`.
pub open spec fn is_client(e: Error, code: Option<i32>, message: Seq<char>) -> bool {
    e matches Error::Client { response_code, message: m } && response_code == code && m@ == message
}

impl Error {
    /// A client failure without a code.
    pub fn client(message: &str) -> (r: Error)
        ensures
            is_client(r, None, message@),
    {
        Error::Client { response_code: None, message: message.to_owned() }
    }

    /// A client failure with a code.
    pub fn client_with_code(code: i32, message: &str) -> (r: Error)
        ensures
            is_client(r, Some(code), message@),
    {
        Error::Client { response_code: Some(code), message: message.to_owned() }
    }

    /// A reply that did not come in time.
    pub fn request_timeout(topic: &str, timeout_millis: i64) -> (r: Error)
        ensures
            r matches Error::RequestTimeout { topic: t, timeout_millis: ms } && t@ == topic@ && ms
                == timeout_millis,
    {
        Error::RequestTimeout { topic: topic.to_owned(), timeout_millis }
    }

    /// The code that the failure carries.
    pub fn response_code(&self) -> (r: Option<i32>)
        ensures
            r == error_code(*self),
    {
        match self {
            Error::Client { response_code, message: _ } => *response_code,
            Error::Broker { response_code, message: _ } => Some(*response_code),
            Error::Server { response_code, remark: _ } => Some(*response_code),
            _ => None,
        }
    }

    /// The text of the failure.
    pub fn text(&self) -> (r: String)
        ensures
            r@ == error_text(*self),
    {
        match self {
            Error::Client { response_code: _, message } => "MQClientException: ".to_owned().concat(
                message.as_str(),
            ),
            Error::Broker { response_code, message } => "MQBrokerException: CODE: ".to_owned().concat(
                int_text(*response_code as i64).as_str(),
            ).concat(" DESC: ").concat(message.as_str()),
            Error::Server { response_code, remark } => "server error: CODE: ".to_owned().concat(
                int_text(*response_code as i64).as_str(),
            ).concat(" REMARK: ").concat(remark.as_str()),
            Error::RemotingCommand(m) => "remoting command: ".to_owned().concat(m.as_str()),
            Error::Connect { addr } => "connect to ".to_owned().concat(addr.as_str()).concat(" failed"),
            Error::SendRequest { addr, message } => "send request to ".to_owned().concat(
                addr.as_str(),
            ).concat(" failed: ").concat(message.as_str()),
            Error::Timeout { addr, timeout_millis } => "wait response on ".to_owned().concat(
                addr.as_str(),
            ).concat(" timeout, ").concat(int_text(*timeout_millis).as_str()).concat("ms"),
            Error::TooMuchRequest(m) => "too much request: ".to_owned().concat(m.as_str()),
            Error::RequestTimeout { topic, timeout_millis } => "request to topic ".to_owned().concat(
                topic.as_str(),
            ).concat(" timeout, ").concat(int_text(*timeout_millis).as_str()).concat("ms"),
            Error::Decode(m) => "decode: ".to_owned().concat(m.as_str()),
            Error::Encode(m) => "encode: ".to_owned().concat(m.as_str()),
            Error::Io(m) => "io: ".to_owned().concat(m.as_str()),
            Error::Json(m) => "json: ".to_owned().concat(m.as_str()),
        }
    }
}

} // verus!
