//! Structured errors: every failure of the reader, the macro expander or
//! the evaluator carries a message, and contracts identify errors by it.
use vstd::prelude::*;

verus! {

/// An interpreter error. The view of an error is its message text.
#[derive(Debug, PartialEq, Eq)]
pub struct LispError {
    message: String,
}

impl View for LispError {
    type V = Seq<char>;

    closed spec fn view(&self) -> Seq<char> {
        self.message@
    }
}

impl LispError {
    pub fn new(message: &str) -> (r: Self)
        ensures
            r@ == message@,
    {
        LispError { message: message.to_string() }
    }

    /// The message carried by this error.
    pub fn to_string(&self) -> (r: &str)
        ensures
            r@ == self@,
    {
        self.message.as_str()
    }
}

impl Clone for LispError {
    fn clone(&self) -> (res: Self)
        ensures
            res@ == self@,
    {
        LispError { message: self.message.clone() }
    }
}

} // verus!
