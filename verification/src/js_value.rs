//! A value handed to JavaScript callers: here, its JSON text.
use vstd::prelude::*;

use crate::text::string_of;

verus! {

/// A value for JavaScript callers, held as its JSON text.
#[derive(Debug, Clone)]
pub struct JsValue {
    msg: String,
}

impl View for JsValue {
    type V = Seq<char>;

    closed spec fn view(&self) -> Seq<char> {
        self.msg@
    }
}

impl JsValue {
    /// A value holding the text `s`.
    pub fn new(s: &str) -> (r: Self)
        ensures
            r@ == s@,
    {
        JsValue { msg: string_of(s) }
    }

    /// The text the value holds (always present).
    pub fn as_string(&self) -> (r: Option<String>)
        ensures
            r matches Some(t) && t@ == self@,
    {
        Some(self.msg.clone())
    }
}

/// The value of an empty JSON object.
pub fn empty_js_value() -> (r: JsValue)
    ensures
        r@ == "{}"@,
{
    JsValue::new("{}")
}

} // verus!
