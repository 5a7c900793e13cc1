//! The envelope of every answer of the console.
use vstd::prelude::*;

verus! {

/// An answer: either data, or a code and a message that say what failed.
pub struct ApiResult<T> {
    pub data: Option<T>,
    pub success: bool,
    pub code: Option<String>,
    pub message: Option<String>,
}

impl<T> ApiResult<T> {
    /// The answer that carries `data`.
    pub fn success(data: Option<T>) -> (result: Self)
        ensures
            result.success,
            result.data == data,
            result.code is None,
            result.message is None,
    {
        ApiResult { data, success: true, code: None, message: None }
    }

    /// The answer that reports the failure `code`.
    pub fn error(code: String, message: Option<String>) -> (result: Self)
        ensures
            !result.success,
            result.data is None,
            result.code == Some(code),
            result.message == message,
    {
        ApiResult { data: None, success: false, code: Some(code), message }
    }

    /// The answer is a failure with the code `code` and, where `message`
    /// is given, that message.
    pub open spec fn is_error(self, code: Seq<char>, message: Option<Seq<char>>) -> bool {
        &&& !self.success
        &&& self.data is None
        &&& self.code matches Some(c) && c@ == code
        &&& match message {
            Some(text) => self.message matches Some(m) && m@ == text,
            None => self.message is None,
        }
    }
}

/// One page of a listing, with the size of the whole listing.
pub struct PageResult<T> {
    pub total_count: usize,
    pub list: Vec<T>,
}

/// What became of a command.
pub enum Outcome<T> {
    /// It ran and produced this.
    Done(T),
    /// It ran and failed; the text says why.
    Failed(String),
    /// It never reached whoever should run it; the text says why.
    Undelivered(String),
}

} // verus!
