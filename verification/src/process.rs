use vstd::prelude::*;
use vstd::std_specs::convert::IntoSpec;

use crate::error::{string_context, ContextSource, StringContext};
use crate::text::{is_unicode_whitespace, trim_end_chars, trimmed_end, str_chars, string_of};

verus! {

/// An I/O error of the standard library.
#[verifier::external_type_specification]
#[verifier::external_body]
pub struct ExIoError(std::io::Error);

/// A process could not be run, or its output could not be read.
#[derive(Debug)]
pub enum ProcessError {
    Decode(StringContext),
    IO(ContextSource<std::io::Error>),
}

/// Wraps the I/O error of a result as a process error with a message.
pub trait WrapIOProcessError<T> {
    fn to_process_err<S: Into<String>>(self, message: S) -> Result<T, ProcessError>;
}

impl<T> WrapIOProcessError<T> for Result<T, std::io::Error> {
    fn to_process_err<S: Into<String>>(self, message: S) -> (r: Result<T, ProcessError>)
        ensures
            self matches Ok(v) ==> r == Ok::<T, ProcessError>(v),
            self is Err ==> (r matches Err(ProcessError::IO(c)) && (S::obeys_into_spec()
                ==> (*c.0).0 == message.into_spec())),
    {
        match self {
            Ok(v) => Ok(v),
            Err(e) => Err(ProcessError::IO(ContextSource::new(message, e))),
        }
    }
}

/// The text of `bytes` read as UTF-8 with every invalid sequence replaced by U+FFFD.
pub uninterp spec fn utf8_lossy(bytes: Seq<u8>) -> Seq<char>;

/// Calls `String::from_utf8`. Claims what its documentation states: it succeeds exactly
/// on valid UTF-8, with the decoded text, and on failure gives the bytes back.
#[verifier::external_body]
fn string_from_utf8(bytes: Vec<u8>) -> (r: Result<String, Vec<u8>>)
    ensures
        r is Ok <==> vstd::utf8::valid_utf8(bytes@),
        r matches Ok(s) ==> s@ == vstd::utf8::decode_utf8(bytes@),
        r matches Err(b) ==> b@ == bytes@,
{
    String::from_utf8(bytes).map_err(|e| e.into_bytes())
}

/// Calls `String::from_utf8_lossy`. Claims: the result is the named lossy decoding.
#[verifier::external_body]
fn string_from_utf8_lossy(bytes: &[u8]) -> (s: String)
    ensures
        s@ == utf8_lossy(bytes@),
{
    String::from_utf8_lossy(bytes).into_owned()
}

/// The message of a failed decoding: `info=<lossy text> <info>`.
pub open spec fn decode_message(bytes: Seq<u8>, info: Seq<char>) -> Seq<char> {
    "info="@ + utf8_lossy(bytes) + " "@ + info
}

/// Decodes process output as UTF-8 and strips trailing whitespace.
pub fn process_out(bytes: Vec<u8>, info: &str) -> (r: Result<String, ProcessError>)
    ensures
        r is Ok <==> vstd::utf8::valid_utf8(bytes@),
        r matches Ok(s) ==> s@ == trimmed_end(vstd::utf8::decode_utf8(bytes@)),
        r matches Err(e) ==> (e matches ProcessError::Decode(c) && (*c.0)@ == decode_message(
            bytes@,
            info@,
        )),
{
    match string_from_utf8(bytes) {
        Ok(s) => {
            let chars = str_chars(s.as_str());
            let trimmed = trim_end_chars(&chars);
            Ok(string_of(&trimmed))
        },
        Err(b) => {
            let mut message = String::from_str("info=");
            let lossy = string_from_utf8_lossy(b.as_slice());
            message.append(lossy.as_str());
            message.append(" ");
            message.append(info);
            Err(ProcessError::Decode(string_context(message)))
        },
    }
}

} // verus!
