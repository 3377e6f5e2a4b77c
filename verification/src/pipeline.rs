//! The whole way from the transported text to bytes, file name and extension.

use vstd::prelude::*;
use vstd::string::StringExecFns;
use crate::chars::{base64_symbol, quote_mark, white_space};
use crate::codec::{decode, decoded, payload_of, DecodeError};
use crate::detect::{
    detect, format_of, opens_with, pdf_magic, unrecognized_text, ClassifyError, FileType,
};
use crate::naming::{
    file_name, generate_filename, generate_filename_at, stamp_at, stamped_name,
    LAST_FOUR_DIGIT_SECOND,
};
use crate::sanitize::{lemma_blank_input_is_empty, lemma_wrapped_body, marker};

verus! {

/// The payload of `input` and its format, or the message of what failed.
pub open spec fn recognized(input: Seq<char>) -> Result<(Seq<u8>, FileType), Seq<char>> {
    match decoded(input) {
        Err(e) => Err(e.message_text()),
        Ok(bytes) => match format_of(bytes) {
            None => Err(unrecognized_text()),
            Some(file_type) => Ok((bytes, file_type)),
        },
    }
}

/// What the pipeline hands out for `input` at the second `now`: the bytes,
/// the file name and the extension, or the message of what failed.
pub open spec fn outcome(input: Seq<char>, now: i64) -> Result<
    (Seq<u8>, Seq<char>, Seq<char>),
    Seq<char>,
> {
    match recognized(input) {
        Err(message) => Err(message),
        Ok((bytes, file_type)) => Ok(
            (bytes, file_name(stamp_at(now), file_type), file_type.extension_text()),
        ),
    }
}

/// Whether `r` is the executable form of `model`.
pub open spec fn holds_outcome(
    r: Result<(Vec<u8>, String, String), String>,
    model: Result<(Seq<u8>, Seq<char>, Seq<char>), Seq<char>>,
) -> bool {
    match r {
        Ok((bytes, name, extension)) => model == Ok::<
            (Seq<u8>, Seq<char>, Seq<char>),
            Seq<char>,
        >((bytes@, name@, extension@)),
        Err(message) => model == Err::<(Seq<u8>, Seq<char>, Seq<char>), Seq<char>>(message@),
    }
}

/// The format of `payload` and the file name for it at the second `now`.
pub fn classify_and_name(payload: &[u8], now: i64) -> (r: Result<(FileType, String), ClassifyError>)
    ensures
        match r {
            Ok((file_type, name)) => format_of(payload@) == Some(file_type) && name@ == file_name(
                stamp_at(now),
                file_type,
            ),
            Err(_) => format_of(payload@) is None,
        },
        0 <= now <= LAST_FOUR_DIGIT_SECOND ==> match r {
            Ok((file_type, name)) => stamped_name(name@, file_type),
            Err(_) => true,
        },
{
    match detect(payload) {
        Ok(file_type) => Ok((file_type, generate_filename_at(now, &file_type))),
        Err(e) => Err(e),
    }
}

/// Decodes `input` and recognises the format of its payload.
pub fn decode_and_detect(input: &str) -> (r: Result<(Vec<u8>, FileType), String>)
    ensures
        match r {
            Ok((bytes, file_type)) => recognized(input@) == Ok::<(Seq<u8>, FileType), Seq<char>>(
                (bytes@, file_type),
            ),
            Err(message) => recognized(input@) == Err::<(Seq<u8>, FileType), Seq<char>>(message@),
        },
{
    match decode(input) {
        Err(e) => Err(e.message()),
        Ok(bytes) => match detect(bytes.as_slice()) {
            Err(e) => Err(e.message()),
            Ok(file_type) => Ok((bytes, file_type)),
        },
    }
}

/// Runs the pipeline on `base64_string` as if the clock read `now`.
pub fn decode_base64_at(base64_string: &str, now: i64) -> (r: Result<
    (Vec<u8>, String, String),
    String,
>)
    ensures
        holds_outcome(r, outcome(base64_string@, now)),
        0 <= now <= LAST_FOUR_DIGIT_SECOND ==> match (r, recognized(base64_string@)) {
            (Ok((_, name, _)), Ok((_, file_type))) => stamped_name(name@, file_type),
            _ => true,
        },
{
    match decode_and_detect(base64_string) {
        Err(message) => Err(message),
        Ok((bytes, file_type)) => {
            let name = generate_filename_at(now, &file_type);
            let extension = String::from_str(file_type.extension());
            Ok((bytes, name, extension))
        },
    }
}

/// Runs the pipeline on `base64_string`: the payload's bytes, a file name
/// stamped with the present UTC time, and the extension of its format.
pub fn decode_base64(base64_string: String) -> (r: Result<(Vec<u8>, String, String), String>)
    ensures
        exists|now: i64| holds_outcome(r, outcome(base64_string@, now)),
{
    match decode_and_detect(base64_string.as_str()) {
        Err(message) => {
            assert(holds_outcome(Err(message), outcome(base64_string@, 0)));
            Err(message)
        },
        Ok((bytes, file_type)) => {
            let name = generate_filename(&file_type);
            let extension = String::from_str(file_type.extension());
            let ghost now = choose|now: i64| name@ == file_name(stamp_at(now), file_type);
            assert(holds_outcome(Ok((bytes, name, extension)), outcome(base64_string@, now)));
            Ok((bytes, name, extension))
        },
    }
}

/// A PDF in a data URI: where the input is a lead, a scheme, the marker, a
/// body and a trail, lead and trail of quotes and white space, the scheme
/// without a `b`, the body of base64 symbols, and the body decodes to bytes
/// that open with the PDF magic, the pipeline hands out those bytes, a name
/// that ends in `.pdf`, and the extension `pdf`.
pub proof fn lemma_pdf_in_data_uri(
    lead: Seq<char>,
    scheme: Seq<char>,
    body: Seq<char>,
    trail: Seq<char>,
    bytes: Seq<u8>,
    now: i64,
)
    requires
        forall|i: int| 0 <= i < lead.len() ==> quote_mark(#[trigger] lead[i]) || white_space(lead[i]),
        forall|i: int| 0 <= i < trail.len() ==> quote_mark(#[trigger] trail[i]) || white_space(trail[i]),
        forall|i: int| 0 <= i < scheme.len() ==> #[trigger] scheme[i] != 'b',
        forall|i: int| 0 <= i < body.len() ==> base64_symbol(#[trigger] body[i]),
        payload_of(body) == Ok::<Seq<u8>, DecodeError>(bytes),
        opens_with(bytes, pdf_magic()),
    ensures
        outcome(lead + scheme + marker() + body + trail, now) == Ok::<
            (Seq<u8>, Seq<char>, Seq<char>),
            Seq<char>,
        >((bytes, file_name(stamp_at(now), FileType::Pdf), seq!['p', 'd', 'f'])),
{
    lemma_wrapped_body(lead, scheme, body, trail);
}

/// An input of quotes and white space alone, the empty one among them,
/// fails as empty input.
pub proof fn lemma_blank_input_fails(input: Seq<char>, now: i64)
    requires
        forall|i: int| 0 <= i < input.len() ==> quote_mark(#[trigger] input[i]) || white_space(input[i]),
    ensures
        decoded(input) == Err::<Seq<u8>, DecodeError>(DecodeError::EmptyInput),
        outcome(input, now) == Err::<(Seq<u8>, Seq<char>, Seq<char>), Seq<char>>(
            DecodeError::EmptyInput.message_text(),
        ),
{
    lemma_blank_input_is_empty(input);
}

/// Whether the pipeline fails, and with which message, does not hang on the
/// clock.
pub proof fn lemma_failure_is_timeless(input: Seq<char>, now: i64, then: i64)
    ensures
        outcome(input, now) is Err <==> outcome(input, then) is Err,
        outcome(input, now) is Err ==> outcome(input, now) == outcome(input, then),
{
}

} // verus!
