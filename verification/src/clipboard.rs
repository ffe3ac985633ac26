//! The error a clipboard read can surface.
//!
//! Reading the clipboard itself happens outside the library; this is the
//! value a failed read is reported with.

use vstd::prelude::*;

verus! {

/// A clipboard read failure, carrying a human-readable message.
pub struct ClipboardError {
    pub message: String,
}

impl From<String> for ClipboardError {
    /// Wraps a message.
    fn from(msg: String) -> (r: Self) {
        ClipboardError { message: msg }
    }
}

impl vstd::std_specs::convert::FromSpecImpl<String> for ClipboardError {
    open spec fn obeys_from_spec() -> bool {
        true
    }

    open spec fn from_spec(msg: String) -> Self {
        ClipboardError { message: msg }
    }
}

impl ClipboardError {
    /// The message as shown to the user.
    pub fn display_string(&self) -> (r: String)
        ensures
            r@ == self.message@,
    {
        self.message.clone()
    }

    /// The debugging form: the message inside a `ClipboardError(...)`
    /// wrapper.
    pub fn debug_string(&self) -> (r: String)
        ensures
            r@ == "ClipboardError("@ + self.message@ + ")"@,
    {
        let mut out = String::from_str("ClipboardError(");
        out.append(self.message.as_str());
        out.append(")");
        out
    }
}

} // verus!
