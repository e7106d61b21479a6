//! The error taxonomy of the protocol.

use vstd::prelude::*;

verus! {

/// What can go wrong while talking to a peer or handling a payload.
///
/// The variants that stand for a failure of the operating system or of a codec
/// carry that failure's description.
#[derive(Debug)]
pub enum LibError {
    /// A payload handler was given a message of another variant.
    WrongMessageType,
    /// A received image could not be decoded or encoded again.
    ImageSavingError(String),
    /// A byte sequence that had to be decodable was not.
    SerializationError(String),
    /// A read, a write or a filesystem operation failed.
    IoError(String),
    /// The peer closed the stream.
    ConnectionClosed,
    /// The configured address is no IPv4 address.
    AddressParsingError(String),
    /// The configured port is no port number.
    PortParsingError(String),
    /// An image file could not be read; carries the path as it is shown.
    ImageReadingError(String),
    /// An image path does not end in the extension `png`.
    WrongImageExtension,
    /// A file could not be read; carries the path as it is shown.
    FileReadingError(String),
    /// A path has no final component to name the file by.
    FileNameError,
}

/// The mathematical model of a [`LibError`].
pub enum Failure {
    WrongMessageType,
    ImageSavingError(Seq<char>),
    SerializationError(Seq<char>),
    IoError(Seq<char>),
    ConnectionClosed,
    AddressParsingError(Seq<char>),
    PortParsingError(Seq<char>),
    ImageReadingError(Seq<char>),
    WrongImageExtension,
    FileReadingError(Seq<char>),
    FileNameError,
}

impl Failure {
    /// The text shown to a person for this failure.
    pub open spec fn message(self) -> Seq<char> {
        match self {
            Failure::WrongMessageType => "Wrong message type"@,
            Failure::ImageSavingError(e) => "Image error: "@ + e,
            Failure::SerializationError(e) => "Serialization error: "@ + e,
            Failure::IoError(e) => "I/O error: "@ + e,
            Failure::ConnectionClosed => "I/O error: Connection closed"@,
            Failure::AddressParsingError(e) => "Address parsing error: "@ + e,
            Failure::PortParsingError(e) => "Port parsing error: "@ + e,
            Failure::ImageReadingError(p) => "Error reading image: "@ + p,
            Failure::WrongImageExtension => "Wrong image extension. Only PNG images are supported."@,
            Failure::FileReadingError(p) => "Error reading file: "@ + p,
            Failure::FileNameError => "Error parsing file name"@,
        }
    }
}

impl View for LibError {
    type V = Failure;

    open spec fn view(&self) -> Failure {
        match self {
            LibError::WrongMessageType => Failure::WrongMessageType,
            LibError::ImageSavingError(e) => Failure::ImageSavingError(e@),
            LibError::SerializationError(e) => Failure::SerializationError(e@),
            LibError::IoError(e) => Failure::IoError(e@),
            LibError::ConnectionClosed => Failure::ConnectionClosed,
            LibError::AddressParsingError(e) => Failure::AddressParsingError(e@),
            LibError::PortParsingError(e) => Failure::PortParsingError(e@),
            LibError::ImageReadingError(p) => Failure::ImageReadingError(p@),
            LibError::WrongImageExtension => Failure::WrongImageExtension,
            LibError::FileReadingError(p) => Failure::FileReadingError(p@),
            LibError::FileNameError => Failure::FileNameError,
        }
    }
}

impl LibError {
    /// Returns the text shown to a person for this error.
    pub fn message(&self) -> (text: String)
        ensures
            text@ == self@.message(),
    {
        match self {
            LibError::WrongMessageType => "Wrong message type".to_string(),
            LibError::ImageSavingError(e) => "Image error: ".to_string().concat(e.as_str()),
            LibError::SerializationError(e) => "Serialization error: ".to_string().concat(
                e.as_str(),
            ),
            LibError::IoError(e) => "I/O error: ".to_string().concat(e.as_str()),
            LibError::ConnectionClosed => "I/O error: Connection closed".to_string(),
            LibError::AddressParsingError(e) => "Address parsing error: ".to_string().concat(
                e.as_str(),
            ),
            LibError::PortParsingError(e) => "Port parsing error: ".to_string().concat(
                e.as_str(),
            ),
            LibError::ImageReadingError(p) => "Error reading image: ".to_string().concat(
                p.as_str(),
            ),
            LibError::WrongImageExtension =>
                "Wrong image extension. Only PNG images are supported.".to_string(),
            LibError::FileReadingError(p) => "Error reading file: ".to_string().concat(
                p.as_str(),
            ),
            LibError::FileNameError => "Error parsing file name".to_string(),
        }
    }
}

} // verus!
