//! The error type of the crate.

use vstd::prelude::*;
use vstd::std_specs::convert::FromSpecImpl;

verus! {

/// `std::io::Error`, carried through as it is.
#[verifier::external_type_specification]
#[verifier::external_body]
pub struct ExIoError(std::io::Error);

/// What can go wrong when a configuration is read, changed or written.
#[derive(Debug)]
pub enum Error {
    /// Reading or writing the file failed.
    Io(std::io::Error),
    /// The file's content is malformed, or its format is not supported.
    Parse(String),
    /// A path is empty, or leads through a value that is not an object.
    Path(String),
}

/// An error as contracts see it: the kind, and the message as text.
pub enum Failure {
    Io(std::io::Error),
    Parse(Seq<char>),
    Path(Seq<char>),
}

impl View for Error {
    type V = Failure;

    open spec fn view(&self) -> Failure {
        match *self {
            Error::Io(cause) => Failure::Io(cause),
            Error::Parse(message) => Failure::Parse(message@),
            Error::Path(message) => Failure::Path(message@),
        }
    }
}

/// `io::Error::new` with the kind `InvalidData`: an I/O error that carries
/// `message`.
#[verifier::external_body]
fn invalid_data(message: String) -> std::io::Error {
    std::io::Error::new(std::io::ErrorKind::InvalidData, message)
}

impl Error {
    /// The error as one line of text: the kind, a colon, and the message.
    pub fn to_string(&self) -> (text: String)
        ensures
            match self@ {
                Failure::Io(_) => text@.len() >= 4 && text@.take(4) == "io: "@,
                Failure::Parse(message) => text@ == "parse: "@ + message,
                Failure::Path(message) => text@ == "path: "@ + message,
            },
    {
        match self {
            Error::Io(cause) => {
                let detail = cause.to_string();
                let text = "io: ".to_owned().concat(detail.as_str());
                proof {
                    reveal_strlit("io: ");
                    assert(text@.take(4) =~= "io: "@);
                }
                text
            },
            Error::Parse(message) => "parse: ".to_owned().concat(message.as_str()),
            Error::Path(message) => "path: ".to_owned().concat(message.as_str()),
        }
    }

    /// The I/O error behind this error, if there is one.
    pub fn source(&self) -> (cause: Option<&std::io::Error>)
        ensures
            match self@ {
                Failure::Io(inner) => cause == Some(&inner),
                _ => cause is None,
            },
    {
        match self {
            Error::Io(cause) => Some(cause),
            _ => None,
        }
    }
}

impl From<std::io::Error> for Error {
    fn from(cause: std::io::Error) -> (error: Error) {
        Error::Io(cause)
    }
}

impl FromSpecImpl<std::io::Error> for Error {
    open spec fn obeys_from_spec() -> bool {
        true
    }

    open spec fn from_spec(cause: std::io::Error) -> Error {
        Error::Io(cause)
    }
}

impl From<Error> for std::io::Error {
    fn from(error: Error) -> (cause: std::io::Error) {
        invalid_data(error.to_string())
    }
}

impl FromSpecImpl<Error> for std::io::Error {
    open spec fn obeys_from_spec() -> bool {
        false
    }

    open spec fn from_spec(error: Error) -> std::io::Error {
        arbitrary()
    }
}

} // verus!
