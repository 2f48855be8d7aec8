//! The error handed to JavaScript callers: a message.
use vstd::prelude::*;

use crate::text::string_of;

verus! {

/// An error for JavaScript callers, held as its message.
#[derive(Debug, Clone)]
pub struct JsError {
    msg: String,
}

impl View for JsError {
    type V = Seq<char>;

    closed spec fn view(&self) -> Seq<char> {
        self.msg@
    }
}

impl JsError {
    /// An error with the message `s`.
    pub fn new(s: &str) -> (r: Self)
        ensures
            r@ == s@,
    {
        JsError { msg: string_of(s) }
    }

    /// The message of the error.
    pub fn as_string(&self) -> (r: Option<String>)
        ensures
            r matches Some(t) && t@ == self@,
    {
        Some(self.msg.clone())
    }
}

} // verus!
