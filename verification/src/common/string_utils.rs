//! Small helpers on optional strings.
use vstd::prelude::*;

verus! {

/// Helpers on strings.
pub struct StringUtils {}

impl StringUtils {
    /// The string, unless there is none or it is empty.
    pub open spec fn not_empty(v: Option<String>) -> Option<String> {
        match v {
            Some(s) => if s@.len() == 0 {
                None
            } else {
                Some(s)
            },
            None => None,
        }
    }

    /// Drops a string that is empty.
    pub fn map_not_empty(v: Option<String>) -> (out: Option<String>)
        ensures
            out == StringUtils::not_empty(v),
    {
        match v {
            Some(s) => if s.as_str().is_empty() {
                None
            } else {
                Some(s)
            },
            None => None,
        }
    }
}

} // verus!
