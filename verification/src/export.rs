//! Export: turns the base64 text that the interface hands over into the
//! bytes of the file to write.

use base64::engine::general_purpose;
use base64::Engine;
use vstd::prelude::*;
use vstd::string::StringExecFns;

verus! {

/// The error of the base64 decoder, carried as it is.
#[verifier::external_type_specification]
#[verifier::external_body]
pub struct ExDecodeError(base64::DecodeError);

/// The bytes that `text` encodes in standard base64 with padding, or `None`
/// if `text` is no such encoding: what `base64`'s `STANDARD` engine decodes.
pub uninterp spec fn standard_base64_decoding(text: Seq<char>) -> Option<Seq<u8>>;

/// Decodes `data` with `base64::engine::general_purpose::STANDARD.decode`.
///
/// The decoder is a function of its input alone: it returns the decoded
/// bytes exactly when the input is standard base64 with canonical padding,
/// and an error otherwise. The contract gives that result its name.
#[verifier::external_body]
fn decode_standard(data: &str) -> (decoded: Result<Vec<u8>, base64::DecodeError>)
    ensures
        match decoded {
            Ok(bytes) => standard_base64_decoding(data@) == Some(bytes@),
            Err(_) => standard_base64_decoding(data@) is None,
        },
{
    general_purpose::STANDARD.decode(data)
}

/// The decoder's own words for `error`, as `base64::DecodeError` displays
/// itself. Nothing is claimed of the text.
#[verifier::external_body]
fn decode_error_text(error: &base64::DecodeError) -> String {
    error.to_string()
}

/// The export data was not valid base64.
#[derive(Debug, PartialEq, Eq)]
pub struct ExportError {
    /// The decoder's account of what is wrong.
    pub detail: String,
}

impl ExportError {
    /// The message shown to the caller.
    pub fn message(&self) -> (text: String)
        ensures
            text@ == "Failed to decode base64 data: "@ + self.detail@,
    {
        let mut text = String::from_str("Failed to decode base64 data: ");
        text.append(self.detail.as_str());
        text
    }
}

/// Decodes the base64 text of an export into the bytes to write.
///
/// Succeeds exactly on standard base64 with padding, and then gives the
/// bytes that the text encodes.
pub fn decode_export(data: &str) -> (decoded: Result<Vec<u8>, ExportError>)
    ensures
        match standard_base64_decoding(data@) {
            Some(bytes) => decoded matches Ok(found) && found@ == bytes,
            None => decoded is Err,
        },
{
    match decode_standard(data) {
        Ok(bytes) => Ok(bytes),
        Err(error) => Err(ExportError { detail: decode_error_text(&error) }),
    }
}

} // verus!
