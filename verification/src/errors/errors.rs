use crate::utils::formating_types::{decimal_text, push_decimal};
use vstd::prelude::*;
use vstd::std_specs::convert::FromSpecImpl;
use vstd::string::StringExecFns;

verus! {

/// Result of every fallible operation of the library.
pub type Result<T> = core::result::Result<T, ParseError>;

/// Everything that can go wrong while normalising input, encoding
/// integers, or reading and writing the output formats.
#[derive(Debug, PartialEq, Eq)]
pub enum ParseError {
    InvalidMac,
    InvalidIpv4,
    TooManyOctets,
    NotEnoughOctets,
    InvalidHex,
    InvalidLength,
    InvalidLengthBytes { size: usize },
    ValueTooLarge { value: u64, size: usize },
    MissingRequiredField(&'static str),
    InvalidFormat(&'static str),
    IoError(String),
    JsonError(String),
    SerdeError(String),
}

/// The message that describes an error to a reader.
pub open spec fn spec_message(error: ParseError) -> Seq<char> {
    match error {
        ParseError::InvalidMac => "Invalid MAC address"@,
        ParseError::InvalidIpv4 => "Invalid IPv4 address"@,
        ParseError::TooManyOctets => "Too many octets in IPv4"@,
        ParseError::NotEnoughOctets => "Not enough octets in IPv4"@,
        ParseError::InvalidHex => "Invalid hex value"@,
        ParseError::InvalidLength => "Invalid length"@,
        ParseError::InvalidLengthBytes { size } => "Invalid length bytes size="@ + decimal_text(
            size as nat,
        ),
        ParseError::ValueTooLarge { value, size } => "Value "@ + decimal_text(value as nat)
            + " too large for size "@ + decimal_text(size as nat),
        ParseError::MissingRequiredField(name) => "Missing required field "@ + name@,
        ParseError::InvalidFormat(msg) => "Invalid format: "@ + msg@,
        ParseError::IoError(msg) => "IO error: "@ + msg@,
        ParseError::JsonError(msg) => "JSON error: "@ + msg@,
        ParseError::SerdeError(msg) => "Serde error: "@ + msg@,
    }
}

impl ParseError {
    /// The message that describes this error to a reader.
    pub fn to_string(&self) -> (message: String)
        ensures
            message@ == spec_message(*self),
    {
        match self {
            ParseError::InvalidMac => String::from_str("Invalid MAC address"),
            ParseError::InvalidIpv4 => String::from_str("Invalid IPv4 address"),
            ParseError::TooManyOctets => String::from_str("Too many octets in IPv4"),
            ParseError::NotEnoughOctets => String::from_str("Not enough octets in IPv4"),
            ParseError::InvalidHex => String::from_str("Invalid hex value"),
            ParseError::InvalidLength => String::from_str("Invalid length"),
            ParseError::InvalidLengthBytes { size } => {
                let mut message = String::from_str("Invalid length bytes size=");
                push_decimal(&mut message, *size as u64);
                message
            },
            ParseError::ValueTooLarge { value, size } => {
                let mut message = String::from_str("Value ");
                push_decimal(&mut message, *value);
                message.append(" too large for size ");
                push_decimal(&mut message, *size as u64);
                message
            },
            ParseError::MissingRequiredField(name) => {
                let mut message = String::from_str("Missing required field ");
                message.append(name);
                message
            },
            ParseError::InvalidFormat(msg) => {
                let mut message = String::from_str("Invalid format: ");
                message.append(msg);
                message
            },
            ParseError::IoError(msg) => {
                let mut message = String::from_str("IO error: ");
                message.append(msg.as_str());
                message
            },
            ParseError::JsonError(msg) => {
                let mut message = String::from_str("JSON error: ");
                message.append(msg.as_str());
                message
            },
            ParseError::SerdeError(msg) => {
                let mut message = String::from_str("Serde error: ");
                message.append(msg.as_str());
                message
            },
        }
    }
}

/// The error with which `serde_json_core` refuses to serialise a value.
#[verifier::external_type_specification]
#[verifier::external_body]
pub struct ExSerializeError(serde_json_core::ser::Error);

/// The error with which `serde_json_core` refuses to deserialise a text.
#[verifier::external_type_specification]
#[verifier::external_body]
pub struct ExDeserializeError(serde_json_core::de::Error);

/// The name of a serialisation error, as `Debug` prints it for
/// `serde_json_core::ser::Error`. That type has one variant, which says that
/// the output buffer is full, and `Debug` prints the variant's name.
#[verifier::external_body]
fn serialize_error_name(err: &serde_json_core::ser::Error) -> (name: String)
    ensures
        name@ == "BufferFull"@,
{
    format!("{:?}", err)
}

/// The name of a deserialisation error, as `Debug` prints it for
/// `serde_json_core::de::Error`. Nothing is claimed of it.
#[verifier::external_body]
fn deserialize_error_name(err: &serde_json_core::de::Error) -> (name: String) {
    format!("{:?}", err)
}

/// The message of the error that stands for a full output buffer.
pub open spec fn buffer_full_message() -> Seq<char> {
    "Serialization error: "@ + "BufferFull"@
}

/// `error` says that the output buffer was too small for the text.
pub open spec fn is_buffer_full(error: ParseError) -> bool {
    error matches ParseError::SerdeError(message) && message@ == buffer_full_message()
}

impl From<serde_json_core::ser::Error> for ParseError {
    /// A failed serialisation, under the name of what failed.
    fn from(err: serde_json_core::ser::Error) -> (error: Self)
        ensures
            is_buffer_full(error),
    {
        let mut message = String::from_str("Serialization error: ");
        let name = serialize_error_name(&err);
        message.append(name.as_str());
        ParseError::SerdeError(message)
    }
}

/// What `from` returns is stated by `from` itself: the error holds a string
/// that is made when it runs, and no spec function names that string.
impl FromSpecImpl<serde_json_core::ser::Error> for ParseError {
    open spec fn obeys_from_spec() -> bool {
        false
    }

    open spec fn from_spec(err: serde_json_core::ser::Error) -> Self {
        arbitrary()
    }
}

impl From<serde_json_core::de::Error> for ParseError {
    /// A failed deserialisation, under the name of what failed.
    fn from(err: serde_json_core::de::Error) -> (error: Self)
        ensures
            error matches ParseError::SerdeError(message) && message@.len() >= 23
                && message@.subrange(0, 23) == "Deserialization error: "@,
    {
        let mut message = String::from_str("Deserialization error: ");
        proof {
            reveal_strlit("Deserialization error: ");
        }
        let name = deserialize_error_name(&err);
        message.append(name.as_str());
        assert(message@.subrange(0, 23) =~= "Deserialization error: "@);
        ParseError::SerdeError(message)
    }
}

/// What `from` returns is stated by `from` itself, as far as it is known.
impl FromSpecImpl<serde_json_core::de::Error> for ParseError {
    open spec fn obeys_from_spec() -> bool {
        false
    }

    open spec fn from_spec(err: serde_json_core::de::Error) -> Self {
        arbitrary()
    }
}

} // verus!
