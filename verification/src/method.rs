//! The request methods the client knows.

use crate::text::same_text;
use vstd::prelude::*;

verus! {

/// A request method.
#[derive(Clone, Copy, Debug, PartialEq, Eq, Structural)]
pub enum Method {
    Get,
    Post,
    Put,
    Delete,
    Patch,
}

/// The name of a method as it is written in a request.
pub open spec fn method_name(m: Method) -> Seq<char> {
    match m {
        Method::Get => "GET"@,
        Method::Post => "POST"@,
        Method::Put => "PUT"@,
        Method::Delete => "DELETE"@,
        Method::Patch => "PATCH"@,
    }
}

/// The method that a text names, if it names one. Names are matched exactly:
/// upper case, nothing before or after.
pub open spec fn method_named(text: Seq<char>) -> Option<Method> {
    if text == "GET"@ {
        Some(Method::Get)
    } else if text == "POST"@ {
        Some(Method::Post)
    } else if text == "PUT"@ {
        Some(Method::Put)
    } else if text == "DELETE"@ {
        Some(Method::Delete)
    } else if text == "PATCH"@ {
        Some(Method::Patch)
    } else {
        None
    }
}

/// Every method is the one that its name names.
pub proof fn lemma_method_named_by_its_name(m: Method)
    ensures
        method_named(method_name(m)) == Some(m),
{
    reveal_strlit("GET");
    reveal_strlit("POST");
    reveal_strlit("PUT");
    reveal_strlit("DELETE");
    reveal_strlit("PATCH");
    assert("GET"@.len() == 3 && "POST"@.len() == 4 && "PUT"@.len() == 3);
    assert("DELETE"@.len() == 6 && "PATCH"@.len() == 5);
    assert("GET"@[0] == 'G' && "PUT"@[0] == 'P');
}

/// A text names a method only if it is that method's name.
pub proof fn lemma_method_named_only_by_name(text: Seq<char>, m: Method)
    requires
        method_named(text) == Some(m),
    ensures
        text == method_name(m),
{
}

/// The method that a text names, if it names one.
pub fn parse_method(text: &str) -> (r: Option<Method>)
    ensures
        r == method_named(text@),
{
    if same_text(text, "GET") {
        Some(Method::Get)
    } else if same_text(text, "POST") {
        Some(Method::Post)
    } else if same_text(text, "PUT") {
        Some(Method::Put)
    } else if same_text(text, "DELETE") {
        Some(Method::Delete)
    } else if same_text(text, "PATCH") {
        Some(Method::Patch)
    } else {
        None
    }
}

impl Method {
    /// The methods, in the order in which they are offered.
    pub fn all() -> (r: [Method; 5])
        ensures
            r@ == seq![Method::Get, Method::Post, Method::Put, Method::Delete, Method::Patch],
    {
        [Method::Get, Method::Post, Method::Put, Method::Delete, Method::Patch]
    }

    /// The name of this method.
    pub fn name(&self) -> (r: &'static str)
        ensures
            r@ == method_name(*self),
    {
        match self {
            Method::Get => "GET",
            Method::Post => "POST",
            Method::Put => "PUT",
            Method::Delete => "DELETE",
            Method::Patch => "PATCH",
        }
    }
}

} // verus!
