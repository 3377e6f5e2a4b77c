//! Decoding of the cleaned text into the payload's bytes.

use vstd::prelude::*;
use vstd::string::StringExecFns;
use base64::Engine;
use crate::sanitize::{sanitize, sanitized};

verus! {

/// Why a text is no padded standard base64.
#[derive(Debug, Clone, Copy, PartialEq, Eq, Structural)]
pub enum Base64Fault {
    /// A byte outside the alphabet, or padding in the wrong place.
    InvalidByte { offset: usize, byte: u8 },
    /// A number of symbols that no encoding has.
    InvalidLength { length: usize },
    /// A last symbol with bits set that the payload cannot hold.
    InvalidLastSymbol { offset: usize, byte: u8 },
    /// Padding that is missing or not canonical.
    InvalidPadding,
}

/// Why an input yields no payload.
#[derive(Debug, Clone, Copy, PartialEq, Eq, Structural)]
pub enum DecodeError {
    /// Nothing is left of the input after cleaning.
    EmptyInput,
    /// The cleaned text is no valid base64.
    InvalidBase64(Base64Fault),
    /// The cleaned text decodes to no bytes at all.
    EmptyPayload,
}

/// What the standard base64 engine makes of `text`.
pub uninterp spec fn standard_decode(text: Seq<char>) -> Result<Seq<u8>, Base64Fault>;

/// How the base64 crate words `fault`.
pub uninterp spec fn fault_diagnostic(fault: Base64Fault) -> Seq<char>;

/// Calls `Engine::decode` of `base64::engine::general_purpose::STANDARD`.
/// The outcome is a function of the text alone, named `standard_decode`;
/// the crate's error is handed on variant by variant.
#[verifier::external_body]
fn decode_standard(text: &str) -> (r: Result<Vec<u8>, Base64Fault>)
    ensures
        match r {
            Ok(bytes) => standard_decode(text@) == Ok::<Seq<u8>, Base64Fault>(bytes@),
            Err(fault) => standard_decode(text@) == Err::<Seq<u8>, Base64Fault>(fault),
        },
{
    match base64::engine::general_purpose::STANDARD.decode(text) {
        Ok(bytes) => Ok(bytes),
        Err(base64::DecodeError::InvalidByte(offset, byte)) => Err(
            Base64Fault::InvalidByte { offset, byte },
        ),
        Err(base64::DecodeError::InvalidLength(length)) => Err(
            Base64Fault::InvalidLength { length },
        ),
        Err(base64::DecodeError::InvalidLastSymbol(offset, byte)) => Err(
            Base64Fault::InvalidLastSymbol { offset, byte },
        ),
        Err(base64::DecodeError::InvalidPadding) => Err(Base64Fault::InvalidPadding),
    }
}

/// Calls the `Display` impl of `base64::DecodeError` on the error that
/// `fault` stands for. The text is a function of the fault alone, named
/// `fault_diagnostic`.
#[verifier::external_body]
fn fault_text(fault: &Base64Fault) -> (text: String)
    ensures
        text@ == fault_diagnostic(*fault),
{
    let error = match *fault {
        Base64Fault::InvalidByte { offset, byte } => base64::DecodeError::InvalidByte(offset, byte),
        Base64Fault::InvalidLength { length } => base64::DecodeError::InvalidLength(length),
        Base64Fault::InvalidLastSymbol { offset, byte } => base64::DecodeError::InvalidLastSymbol(
            offset,
            byte,
        ),
        Base64Fault::InvalidPadding => base64::DecodeError::InvalidPadding,
    };
    error.to_string()
}

/// The payload that a decoding outcome stands for: its bytes, unless there
/// are none.
pub open spec fn accepted(outcome: Result<Seq<u8>, Base64Fault>) -> Result<Seq<u8>, DecodeError> {
    match outcome {
        Err(fault) => Err(DecodeError::InvalidBase64(fault)),
        Ok(bytes) => if bytes.len() == 0 {
            Err(DecodeError::EmptyPayload)
        } else {
            Ok(bytes)
        },
    }
}

/// The payload of a cleaned text.
pub open spec fn payload_of(cleaned: Seq<char>) -> Result<Seq<u8>, DecodeError> {
    if cleaned.len() == 0 {
        Err(DecodeError::EmptyInput)
    } else {
        accepted(standard_decode(cleaned))
    }
}

/// The payload of an input.
pub open spec fn decoded(input: Seq<char>) -> Result<Seq<u8>, DecodeError> {
    payload_of(sanitized(input))
}

/// Whether `r` is the executable form of `model`.
pub open spec fn holds_payload(r: Result<Vec<u8>, DecodeError>, model: Result<Seq<u8>, DecodeError>) -> bool {
    match r {
        Ok(bytes) => model == Ok::<Seq<u8>, DecodeError>(bytes@),
        Err(e) => model == Err::<Seq<u8>, DecodeError>(e),
    }
}

/// Turns a decoding outcome into a payload: a fault becomes
/// `InvalidBase64`, no bytes become `EmptyPayload`.
pub fn accept(outcome: Result<Vec<u8>, Base64Fault>) -> (r: Result<Vec<u8>, DecodeError>)
    ensures
        holds_payload(
            r,
            accepted(
                match outcome {
                    Ok(bytes) => Ok(bytes@),
                    Err(fault) => Err(fault),
                },
            ),
        ),
{
    match outcome {
        Err(fault) => Err(DecodeError::InvalidBase64(fault)),
        Ok(bytes) => if bytes.len() == 0 {
            Err(DecodeError::EmptyPayload)
        } else {
            Ok(bytes)
        },
    }
}

/// Cleans `input` and decodes what is left.
pub fn decode(input: &str) -> (r: Result<Vec<u8>, DecodeError>)
    ensures
        holds_payload(r, decoded(input@)),
{
    let cleaned = sanitize(input);
    if cleaned.as_str().is_empty() {
        return Err(DecodeError::EmptyInput);
    }
    accept(decode_standard(cleaned.as_str()))
}

impl DecodeError {
    /// The message of this error.
    pub open spec fn message_text(self) -> Seq<char> {
        match self {
            DecodeError::EmptyInput => "Base64 string is empty after cleaning"@,
            DecodeError::InvalidBase64(fault) => "Failed to decode base64: "@ + fault_diagnostic(
                fault,
            ) + ". Please ensure the string is valid base64."@,
            DecodeError::EmptyPayload => "Decoded data is empty"@,
        }
    }

    /// The message shown for this error.
    pub fn message(&self) -> (text: String)
        ensures
            text@ == self.message_text(),
    {
        match self {
            DecodeError::EmptyInput => String::from_str("Base64 string is empty after cleaning"),
            DecodeError::InvalidBase64(fault) => {
                let mut text = String::from_str("Failed to decode base64: ");
                let detail = fault_text(fault);
                text.append(detail.as_str());
                text.append(". Please ensure the string is valid base64.");
                text
            },
            DecodeError::EmptyPayload => String::from_str("Decoded data is empty"),
        }
    }
}

} // verus!
