//! Status codes and their status lines.

use vstd::prelude::*;

verus! {

/// The status code of a response: a number from 100 to 999.
#[derive(Clone, Copy, Debug, PartialEq, Eq)]
pub struct StatusCode {
    code: u16,
}

/// Whether a number can be a status code.
pub open spec fn valid_status(code: u16) -> bool {
    100 <= code <= 999
}

/// The text that `http` shows for a status code: the number and the reason
/// phrase that `http` knows for it.
pub uninterp spec fn status_text(code: u16) -> Seq<char>;

/// Calls `http::StatusCode::from_u16` and, where that succeeds, formats the
/// status code with its `Display` impl.
///
/// Trusted: `from_u16` accepts exactly the numbers from 100 to 999, and what
/// is displayed for a number is `status_text` of it, that is, it depends on
/// the number alone.
#[verifier::external_body]
fn display_status(code: u16) -> (r: Option<String>)
    ensures
        r is Some <==> valid_status(code),
        r matches Some(s) ==> s@ == status_text(code),
{
    match http::StatusCode::from_u16(code) {
        Ok(status) => Some(status.to_string()),
        Err(_) => None,
    }
}

impl StatusCode {
    #[verifier::type_invariant]
    spec fn in_range(self) -> bool {
        valid_status(self.code)
    }

    /// The number of this status code.
    pub closed spec fn value(self) -> u16 {
        self.code
    }

    /// The status code of a number, if the number is from 100 to 999.
    pub fn new(code: u16) -> (r: Option<StatusCode>)
        ensures
            match r {
                Some(s) => valid_status(code) && s.value() == code,
                None => !valid_status(code),
            },
    {
        if 100 <= code && code <= 999 {
            Some(StatusCode { code })
        } else {
            None
        }
    }

    /// The number of this status code.
    pub fn code(&self) -> (c: u16)
        ensures
            c == self.value(),
            valid_status(c),
    {
        proof {
            use_type_invariant(self);
        }
        self.code
    }

    /// The status line of this status code.
    pub fn line(&self) -> (r: String)
        ensures
            r@ == status_text(self.value()),
    {
        proof {
            use_type_invariant(self);
        }
        match display_status(self.code) {
            Some(text) => text,
            None => unreached(),
        }
    }
}

} // verus!
