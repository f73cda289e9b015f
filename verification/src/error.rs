//! What can go wrong between a client and its capture server.

use vstd::prelude::*;
use vstd::string::*;

verus! {

/// `std::io::Error`, carried through unopened.
#[verifier::external_type_specification]
#[verifier::external_body]
pub struct ExIoError(std::io::Error);

/// The errors of the client library.
#[derive(Debug)]
pub enum Error {
    /// The camera has not delivered a frame yet.
    NoFrameData,
    /// The camera is stopped.
    NotStarted,
    /// The running server delivers another pixel format than was asked for.
    IncompatibleFormat,
    /// A frame record did not fit the extents the server announced.
    FrameData,
    /// The cause is not known.
    Unknown,
    /// The source of the frames was corrupted.
    CorruptSource,
    /// The server could not be reached in time.
    Timeout,
    /// The server refused, with what it said.
    Server(String),
    /// Reading or writing failed.
    IO(std::io::Error),
    /// A record could not be decoded, with what the decoder said.
    InEncoding(String),
    /// A WebSocket failed, with what its protocol said.
    WebSocket(String),
    /// A client did not complete the WebSocket handshake.
    Handshake,
}

/// `std::io::Error::to_string`: the text of the cause, as the operating
/// system or the standard library words it.
#[verifier::external_body]
fn io_error_text(cause: &std::io::Error) -> (text: String) {
    cause.to_string()
}

impl Error {
    /// The text shown for an error, but for a failure of reading or
    /// writing, whose cause speaks for itself.
    pub open spec fn message_spec(&self) -> Option<Seq<char>> {
        match self {
            Error::NoFrameData => Some("camera has no most-recent framedata"@),
            Error::NotStarted => Some("camera is stopped"@),
            Error::IncompatibleFormat => Some("existing camera's format is incompatible"@),
            Error::FrameData => Some("invalid frame data recieved"@),
            Error::Unknown => Some("unknown error occurred"@),
            Error::CorruptSource => Some("source was corrupted"@),
            Error::Timeout => Some("camera connection timeout"@),
            Error::Server(said) => Some("server error: "@ + said@),
            Error::IO(_) => None,
            Error::InEncoding(said) => Some(said@),
            Error::WebSocket(said) => Some(said@),
            Error::Handshake => Some("something went wrong with the WebSocket handshake"@),
        }
    }

    /// The text shown to a user for this error.
    pub fn message(&self) -> (text: String)
        ensures
            self.message_spec() is Some ==> text@ == self.message_spec()->0,
    {
        match self {
            Error::NoFrameData => "camera has no most-recent framedata".to_owned(),
            Error::NotStarted => "camera is stopped".to_owned(),
            Error::IncompatibleFormat => "existing camera's format is incompatible".to_owned(),
            Error::FrameData => "invalid frame data recieved".to_owned(),
            Error::Unknown => "unknown error occurred".to_owned(),
            Error::CorruptSource => "source was corrupted".to_owned(),
            Error::Timeout => "camera connection timeout".to_owned(),
            Error::Server(said) => {
                let mut text = "server error: ".to_owned();
                text.append(said.as_str());
                text
            },
            Error::IO(cause) => io_error_text(cause),
            Error::InEncoding(said) => said.clone(),
            Error::WebSocket(said) => said.clone(),
            Error::Handshake => "something went wrong with the WebSocket handshake".to_owned(),
        }
    }
}

/// What the client library returns.
pub type Result<T> = std::result::Result<T, Error>;

} // verus!
