//! The errors of the binding, and how a pending error of the engine becomes
//! one of them once it has been drained.

use vstd::prelude::*;
use vstd::string::StringExecFns;

verus! {

/// What can go wrong at the engine boundary.
#[derive(Debug)]
pub enum Error {
    /// A script threw, or the engine reported a fault while running one.
    JsException(String),
    /// A value's kind is not the kind that was asked for.
    TypeError { expected: &'static str, got: &'static str },
    /// A value has the right kind but not the shape of the native type.
    ConversionError(String),
    /// The engine could not create what was asked of it, or native code
    /// reported a failure of its own.
    RuntimeError(String),
}

/// The mathematical content of an [`Error`].
pub enum ErrorModel {
    JsException(Seq<char>),
    TypeError { expected: Seq<char>, got: Seq<char> },
    ConversionError(Seq<char>),
    RuntimeError(Seq<char>),
}

impl View for Error {
    type V = ErrorModel;

    open spec fn view(&self) -> ErrorModel {
        match self {
            Error::JsException(m) => ErrorModel::JsException(m@),
            Error::TypeError { expected, got } => ErrorModel::TypeError {
                expected: expected@,
                got: got@,
            },
            Error::ConversionError(m) => ErrorModel::ConversionError(m@),
            Error::RuntimeError(m) => ErrorModel::RuntimeError(m@),
        }
    }
}

impl ErrorModel {
    /// The line of text that describes the error to a reader.
    pub open spec fn text(self) -> Seq<char> {
        match self {
            ErrorModel::JsException(m) => "JavaScript exception: "@ + m,
            ErrorModel::TypeError { expected, got } => "type error: expected "@ + expected
                + ", got "@ + got,
            ErrorModel::ConversionError(m) => "conversion error: "@ + m,
            ErrorModel::RuntimeError(m) => "runtime error: "@ + m,
        }
    }
}

impl Error {
    /// Renders the error as one line of text.
    pub fn to_string(&self) -> (s: String)
        ensures
            s@ == self@.text(),
    {
        match self {
            Error::JsException(m) => String::from_str("JavaScript exception: ").concat(
                m.as_str(),
            ),
            Error::TypeError { expected, got } => {
                let mut s = String::from_str("type error: expected ");
                s.append(expected);
                s.append(", got ");
                s.append(got);
                s
            },
            Error::ConversionError(m) => String::from_str("conversion error: ").concat(
                m.as_str(),
            ),
            Error::RuntimeError(m) => String::from_str("runtime error: ").concat(m.as_str()),
        }
    }

}

impl Clone for Error {
    fn clone(&self) -> (e: Error)
        ensures
            e == *self,
    {
        match self {
            Error::JsException(m) => Error::JsException(m.clone()),
            Error::TypeError { expected, got } => Error::TypeError { expected: *expected, got: *got },
            Error::ConversionError(m) => Error::ConversionError(m.clone()),
            Error::RuntimeError(m) => Error::RuntimeError(m.clone()),
        }
    }
}

/// The message of the exception that a drained pending error becomes: the
/// engine's native message if there was one; else the text found in the
/// thrown value, which is the value itself if a string was thrown and the
/// `message` property of a thrown object if that is a string; else a fixed
/// fallback. A message or a text that is empty is used as it is.
pub open spec fn exception_message(native: Option<Seq<char>>, text: Option<Seq<char>>) -> Seq<
    char,
> {
    match native {
        Some(m) => m,
        None => match text {
            Some(t) => t,
            None => "unknown error"@,
        },
    }
}

/// What an operation on the engine ends in, once both latches are drained:
/// success if no error was pending, else the exception.
pub open spec fn check_error_model(
    pending: bool,
    native: Option<Seq<char>>,
    text: Option<Seq<char>>,
) -> Result<(), ErrorModel> {
    if pending {
        Err(ErrorModel::JsException(exception_message(native, text)))
    } else {
        Ok(())
    }
}

/// Decides how an operation on the engine ended, from what the two latches
/// held: `pending` is whether an error was pending at all, `native` the
/// message taken from the native latch, `text` the text found in the thrown
/// value, if it had one.
pub fn check_error(pending: bool, native: Option<String>, text: Option<String>) -> (r: Result<
    (),
    Error,
>)
    ensures
        match r {
            Ok(()) => check_error_model(pending, option_text(native), option_text(text)) == Ok::<
                (),
                ErrorModel,
            >(()),
            Err(e) => check_error_model(pending, option_text(native), option_text(text)) == Err::<
                (),
                ErrorModel,
            >(e@),
        },
{
    if !pending {
        return Ok(());
    }
    match native {
        Some(m) => Err(Error::JsException(m)),
        None => match text {
            Some(t) => Err(Error::JsException(t)),
            None => Err(Error::JsException(String::from_str("unknown error"))),
        },
    }
}

/// The text of an optional string.
pub open spec fn option_text(s: Option<String>) -> Option<Seq<char>> {
    match s {
        Some(m) => Some(m@),
        None => None,
    }
}

} // verus!
