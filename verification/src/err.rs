//! The error the file-system side reports: a message, whether retrying
//! may help, and the message of the error it stems from, if any.
use vstd::prelude::*;

use crate::text::concat_str;

verus! {

/// A file-system error. `origin` holds the rendering of the underlying
/// error it wraps, when there is one.
pub struct HxError {
    pub message: String,
    pub retry: bool,
    pub origin: Option<String>,
}

impl HxError {
    /// Wraps an underlying error, given as its rendering: the message is that
    /// rendering, and the error is kept as the cause.
    pub fn warp(retry: bool, origin: String) -> (e: HxError)
        ensures
            e.message@ == origin@,
            e.retry == retry,
            e.origin matches Some(o) && o@ == origin@,
    {
        let message = origin.clone();
        HxError { message, retry, origin: Some(origin) }
    }

    /// An error with the given message and no cause.
    pub fn warp_str(retry: bool, message: String) -> (e: HxError)
        ensures
            e.message@ == message@,
            e.retry == retry,
            e.origin is None,
    {
        HxError { message, retry, origin: None }
    }

    /// The message.
    pub fn description(&self) -> (d: &str)
        ensures
            d@ == self.message@,
    {
        self.message.as_str()
    }

    /// The rendering of the underlying error, if any.
    pub fn cause(&self) -> (c: Option<&String>)
        ensures
            match (c, self.origin) {
                (Some(a), Some(b)) => a@ == b@,
                (None, None) => true,
                _ => false,
            },
    {
        match &self.origin {
            Some(o) => Some(o),
            None => None,
        }
    }

    /// How the error is shown: `<HxFsErr: {message}>`.
    pub fn to_display_string(&self) -> (s: String)
        ensures
            s@ == "<HxFsErr: "@ + self.message@ + ">"@,
    {
        let head = concat_str("<HxFsErr: ", self.message.as_str());
        concat_str(head.as_str(), ">")
    }
}

} // verus!
