//! The library's error: what failed and its message.
use vstd::prelude::*;

verus! {

#[derive(Debug, PartialEq, Eq)]
pub enum Error {
    /// A request failed on the network or got an error status.
    Http(String),
    /// Reading or writing a local file failed.
    Io(String),
    /// A response could not be parsed.
    Parse(String),
    /// The configuration file could not be read or written.
    Config(String),
    /// Runtime or data problem unrelated to the configuration file.
    Data(String),
}

impl Error {
    /// The message shown for this error.
    pub fn message(&self) -> (r: String)
        ensures
            r@ == spec_error_message(*self),
    {
        match self {
            Error::Http(m) => concat_text("network error: ", m.as_str()),
            Error::Io(m) => concat_text("io error: ", m.as_str()),
            Error::Parse(m) => concat_text("parse error: ", m.as_str()),
            Error::Config(m) => concat_text("config error: ", m.as_str()),
            Error::Data(m) => m.clone(),
        }
    }
}

pub open spec fn spec_error_message(e: Error) -> Seq<char> {
    match e {
        Error::Http(m) => "network error: "@ + m@,
        Error::Io(m) => "io error: "@ + m@,
        Error::Parse(m) => "parse error: "@ + m@,
        Error::Config(m) => "config error: "@ + m@,
        Error::Data(m) => m@,
    }
}

/// `a` followed by `b`.
pub fn concat_text(a: &str, b: &str) -> (r: String)
    ensures
        r@ == a@ + b@,
{
    let mut s = a.to_string();
    s.append(b);
    s
}

} // verus!
