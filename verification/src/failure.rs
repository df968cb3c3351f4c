//! Failures that are told in words.
use vstd::prelude::*;

verus! {

/// A failure and what is said of it.
#[derive(Debug)]
pub struct Failure {
    pub message: String,
}

impl View for Failure {
    type V = Seq<char>;

    open spec fn view(&self) -> Seq<char> {
        self.message@
    }
}

impl Failure {
    /// A failure with the given message.
    pub fn new(message: &str) -> (r: Failure)
        ensures
            r@ == message@,
    {
        Failure { message: message.to_owned() }
    }

    /// A failure whose message is two texts in a row.
    pub fn about(a: &str, b: &str) -> (r: Failure)
        ensures
            r@ == a@ + b@,
    {
        Failure { message: a.to_owned().concat(b) }
    }

    /// A failure whose message is three texts in a row.
    pub fn of(a: &str, b: &str, c: &str) -> (r: Failure)
        ensures
            r@ == a@ + b@ + c@,
    {
        Failure { message: a.to_owned().concat(b).concat(c) }
    }
}

/// A result over what its values say: the text of a string, the message of a failure.
pub open spec fn text_result(r: Result<String, Failure>) -> Result<Seq<char>, Seq<char>> {
    match r {
        Ok(s) => Ok(s@),
        Err(e) => Err(e@),
    }
}

/// Whether a result is a failure just where something stands against it, and says what.
pub open spec fn checked<T>(r: Result<T, Failure>, refusal: Option<Seq<char>>) -> bool {
    match r {
        Ok(_) => refusal is None,
        Err(e) => refusal == Some(e@),
    }
}

/// A result over the message of its failure.
pub open spec fn plain_result<T>(r: Result<T, Failure>) -> Result<T, Seq<char>> {
    match r {
        Ok(v) => Ok(v),
        Err(e) => Err(e@),
    }
}

} // verus!
