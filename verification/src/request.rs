//! From what was typed to the request that is sent.

use crate::headers::{
    header_pairs, lemma_collect_names_distinct, names, pairs, parse_headers, parsed_headers, Header,
    Pair,
};
use crate::method::{method_named, parse_method, Method};
use crate::text::lines;
use vstd::prelude::*;

verus! {

/// The description of one request.
#[derive(Clone, Debug, PartialEq, Eq)]
pub struct RequestSpec {
    pub method: Method,
    pub url: String,
    pub headers: Vec<Header>,
    pub body: Option<String>,
}

/// A request as plain values.
pub struct RequestView {
    pub method: Method,
    pub url: Seq<char>,
    pub headers: Seq<Pair>,
    pub body: Option<Seq<char>>,
}

impl View for RequestSpec {
    type V = RequestView;

    open spec fn view(&self) -> RequestView {
        RequestView {
            method: self.method,
            url: self.url@,
            headers: pairs(self.headers@),
            body: match self.body {
                Some(b) => Some(b@),
                None => None,
            },
        }
    }
}

impl RequestView {
    /// No header name occurs twice, and a body that is there is not empty.
    pub open spec fn wf(self) -> bool {
        &&& names(self.headers).no_duplicates()
        &&& self.body matches Some(b) ==> b.len() > 0
    }
}

/// The body that is attached for a body text: none for the empty text, the
/// text itself for any other.
pub open spec fn body_attached(body: Seq<char>) -> Option<Seq<char>> {
    if body.len() == 0 {
        None
    } else {
        Some(body)
    }
}

/// The request for a method, a URL, a header block and a body text.
pub open spec fn request_of(
    method: Method,
    url: Seq<char>,
    headers: Seq<char>,
    body: Seq<char>,
) -> RequestView {
    RequestView { method, url, headers: parsed_headers(headers), body: body_attached(body) }
}

/// Every request made by `request_of` is well-formed.
pub proof fn lemma_request_of_wf(
    method: Method,
    url: Seq<char>,
    headers: Seq<char>,
    body: Seq<char>,
)
    ensures
        request_of(method, url, headers, body).wf(),
{
    lemma_collect_names_distinct(header_pairs(lines(headers)));
}

/// A body text that is not empty is attached as it stands, whatever the
/// method.
pub proof fn lemma_body_attached_for_every_method(
    method: Method,
    url: Seq<char>,
    headers: Seq<char>,
    body: Seq<char>,
)
    requires
        body.len() > 0,
    ensures
        request_of(method, url, headers, body).body == Some(body),
{
}

/// Builds the request for a method, a URL, a header block and a body text.
pub fn build_request(method: Method, url: &str, headers: &str, body: &str) -> (r: RequestSpec)
    ensures
        r@ == request_of(method, url@, headers@, body@),
        r@.wf(),
{
    let parsed = parse_headers(headers);
    let attached = if body.is_empty() {
        None
    } else {
        Some(body.to_owned())
    };
    proof {
        lemma_request_of_wf(method, url@, headers@, body@);
    }
    RequestSpec { method, url: url.to_owned(), headers: parsed, body: attached }
}

/// Why no request could be made of what was typed.
#[derive(Clone, Copy, Debug, PartialEq, Eq, Structural)]
pub enum RequestError {
    /// The method text names no method.
    InvalidMethod,
}

/// The text shown for an error.
pub open spec fn request_error_text(e: RequestError) -> Seq<char> {
    match e {
        RequestError::InvalidMethod => "Invalid HTTP method"@,
    }
}

impl RequestError {
    /// The text shown for this error.
    pub fn message(&self) -> (r: String)
        ensures
            r@ == request_error_text(*self),
    {
        match self {
            RequestError::InvalidMethod => String::from_str("Invalid HTTP method"),
        }
    }
}

/// What the user typed: the four texts of the form.
#[derive(Clone, Debug, PartialEq, Eq)]
pub struct RequestForm {
    pub url: String,
    pub method: String,
    pub headers: String,
    pub body: String,
}

/// A form as plain values.
pub struct FormView {
    pub url: Seq<char>,
    pub method: Seq<char>,
    pub headers: Seq<char>,
    pub body: Seq<char>,
}

impl View for RequestForm {
    type V = FormView;

    open spec fn view(&self) -> FormView {
        FormView { url: self.url@, method: self.method@, headers: self.headers@, body: self.body@ }
    }
}

/// The request that a form asks for, or the reason why it asks for none.
pub open spec fn planned(form: FormView) -> Result<RequestView, RequestError> {
    match method_named(form.method) {
        Some(m) => Ok(request_of(m, form.url, form.headers, form.body)),
        None => Err(RequestError::InvalidMethod),
    }
}

impl Default for RequestForm {
    /// The form as it is first shown.
    fn default() -> (r: RequestForm)
        ensures
            r@ == (FormView {
                url: "https://httpbin.org/get"@,
                method: "GET"@,
                headers: Seq::empty(),
                body: Seq::empty(),
            }),
    {
        RequestForm {
            url: String::from_str("https://httpbin.org/get"),
            method: String::from_str("GET"),
            headers: String::new(),
            body: String::new(),
        }
    }
}

impl RequestForm {
    /// The request that this form asks for. There is one exactly if the
    /// method text names a method.
    pub fn request(&self) -> (r: Result<RequestSpec, RequestError>)
        ensures
            match r {
                Ok(request) => planned(self@) == Ok::<RequestView, RequestError>(request@)
                    && request@.wf(),
                Err(e) => planned(self@) == Err::<RequestView, RequestError>(e),
            },
    {
        match parse_method(self.method.as_str()) {
            Some(m) => Ok(
                build_request(m, self.url.as_str(), self.headers.as_str(), self.body.as_str()),
            ),
            None => Err(RequestError::InvalidMethod),
        }
    }
}

} // verus!
