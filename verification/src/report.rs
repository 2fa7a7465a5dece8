//! The text that is shown for the outcome of an exchange.

use crate::json::{body_shown, json_pretty, show_body};
use crate::status::{status_text, StatusCode};
use vstd::prelude::*;

verus! {

/// A response header as plain values: the name, then the bytes of the value.
pub type Field = (Seq<char>, Seq<u8>);

/// A response header. The value is held as the bytes that came.
#[derive(Clone, Debug, PartialEq, Eq)]
pub struct ResponseHeader {
    pub name: String,
    pub value: Vec<u8>,
}

/// A response: status code, headers in the order in which they came, body.
#[derive(Clone, Debug, PartialEq, Eq)]
pub struct Response {
    pub status: StatusCode,
    pub headers: Vec<ResponseHeader>,
    pub body: String,
}

/// The outcome of an exchange: a response, or the description of what went
/// wrong on the way.
#[derive(Clone, Debug, PartialEq, Eq)]
pub enum Outcome {
    Answered(Response),
    Failed(String),
}

/// A response as plain values.
pub struct ResponseView {
    pub status: u16,
    pub headers: Seq<Field>,
    pub body: Seq<char>,
}

/// An outcome as plain values.
pub enum OutcomeView {
    Answered(ResponseView),
    Failed(Seq<char>),
}

impl View for ResponseHeader {
    type V = Field;

    open spec fn view(&self) -> Field {
        (self.name@, self.value@)
    }
}

/// The views of a sequence of response headers.
pub open spec fn fields(hs: Seq<ResponseHeader>) -> Seq<Field> {
    hs.map_values(|h: ResponseHeader| h@)
}

impl View for Response {
    type V = ResponseView;

    open spec fn view(&self) -> ResponseView {
        ResponseView {
            status: self.status.value(),
            headers: fields(self.headers@),
            body: self.body@,
        }
    }
}

impl View for Outcome {
    type V = OutcomeView;

    open spec fn view(&self) -> OutcomeView {
        match self {
            Outcome::Answered(r) => OutcomeView::Answered(r@),
            Outcome::Failed(m) => OutcomeView::Failed(m@),
        }
    }
}

/// Whether a byte is a visible ASCII character, a space or a tab.
pub open spec fn visible_ascii(b: u8) -> bool {
    b == 9 || 32 <= b < 127
}

/// Whether a header value can be shown as text: every byte of it is visible
/// ASCII.
pub open spec fn printable(value: Seq<u8>) -> bool {
    forall|i: int| 0 <= i < value.len() ==> visible_ascii(#[trigger] value[i])
}

/// The bytes of a value as characters, one for one.
pub open spec fn ascii_text(value: Seq<u8>) -> Seq<char> {
    value.map_values(|b: u8| b as char)
}

/// The text shown for the value of a header: the value where it is
/// printable, a fixed text in its place where it is not.
pub open spec fn value_shown(value: Seq<u8>) -> Seq<char> {
    if printable(value) {
        ascii_text(value)
    } else {
        "Invalid header value"@
    }
}

/// Calls `http::HeaderValue::from_bytes` and, where that succeeds,
/// `HeaderValue::to_str`.
///
/// Trusted: there is a text exactly if every byte is visible ASCII, a space
/// or a tab (`from_bytes` refuses the control characters but the tab,
/// `to_str` refuses in addition what is not ASCII), and the text is then the
/// bytes read as ASCII.
#[verifier::external_body]
fn value_text(value: &[u8]) -> (r: Option<String>)
    ensures
        r is Some <==> printable(value@),
        r matches Some(s) ==> s@ == ascii_text(value@),
{
    match http::HeaderValue::from_bytes(value) {
        Ok(v) => match v.to_str() {
            Ok(text) => Some(text.to_owned()),
            Err(_) => None,
        },
        Err(_) => None,
    }
}

/// The text shown for the value of a header.
pub fn show_value(value: &[u8]) -> (r: String)
    ensures
        r@ == value_shown(value@),
{
    match value_text(value) {
        Some(text) => text,
        None => String::from_str("Invalid header value"),
    }
}

/// The line of one header: name, colon, space, value, line feed.
pub open spec fn header_line(h: Field) -> Seq<char> {
    h.0 + ": "@ + value_shown(h.1) + "\n"@
}

/// The lines of a sequence of headers, one after the other.
pub open spec fn header_block(hs: Seq<Field>) -> Seq<char>
    decreases hs.len(),
{
    if hs.len() == 0 {
        Seq::empty()
    } else {
        header_block(hs.drop_last()) + header_line(hs.last())
    }
}

/// The report of a response, given its status line and the text to show for
/// its body.
pub open spec fn report_text(status_line: Seq<char>, hs: Seq<Field>, body: Seq<char>) -> Seq<char> {
    "Status: "@ + status_line + "\n\nHeaders:\n"@ + header_block(hs) + "\nBody:\n"@ + body
}

/// The text for a failure.
pub open spec fn error_text(message: Seq<char>) -> Seq<char> {
    "Error: "@ + message
}

/// The text for a response.
pub open spec fn response_text(r: ResponseView) -> Seq<char> {
    report_text(status_text(r.status), r.headers, body_shown(r.body, json_pretty(r.body)))
}

/// The text for an outcome.
pub open spec fn outcome_text(o: OutcomeView) -> Seq<char> {
    match o {
        OutcomeView::Answered(r) => response_text(r),
        OutcomeView::Failed(m) => error_text(m),
    }
}

/// The report of a response ends with the heading of the body section and
/// the text shown for the body.
pub proof fn lemma_report_ends_with_body(status_line: Seq<char>, hs: Seq<Field>, body: Seq<char>)
    ensures
        ("\nBody:\n"@ + body).is_suffix_of(report_text(status_line, hs, body)),
{
    let head = "Status: "@ + status_line + "\n\nHeaders:\n"@ + header_block(hs);
    let tail = "\nBody:\n"@ + body;
    let whole = report_text(status_line, hs, body);
    assert(whole =~= head + tail);
    assert(tail =~= whole.subrange(whole.len() - tail.len(), whole.len() as int));
}

/// A body that is no JSON stands in the report as it came.
pub proof fn lemma_plain_body_is_shown_as_it_came(r: ResponseView)
    requires
        json_pretty(r.body) is None,
    ensures
        response_text(r) == report_text(status_text(r.status), r.headers, r.body),
        ("\nBody:\n"@ + r.body).is_suffix_of(response_text(r)),
{
    lemma_report_ends_with_body(status_text(r.status), r.headers, r.body);
}

/// A body that is JSON stands in the report as `serde_json` prints it with
/// indentation.
pub proof fn lemma_json_body_is_shown_pretty(r: ResponseView, pretty: Seq<char>)
    requires
        json_pretty(r.body) == Some(pretty),
    ensures
        response_text(r) == report_text(status_text(r.status), r.headers, pretty),
        ("\nBody:\n"@ + pretty).is_suffix_of(response_text(r)),
{
    lemma_report_ends_with_body(status_text(r.status), r.headers, pretty);
}

/// The text for a failure is its description after `Error: `, whatever the
/// description.
pub proof fn lemma_failure_text(message: Seq<char>)
    ensures
        outcome_text(OutcomeView::Failed(message)) == "Error: "@ + message,
{
}

/// Writes a report from a status line, headers and the text to show for the
/// body.
pub fn compose_report(status_line: &str, headers: &Vec<ResponseHeader>, body: &str) -> (r: String)
    ensures
        r@ == report_text(status_line@, fields(headers@), body@),
{
    let mut out = String::from_str("Status: ");
    out.append(status_line);
    out.append("\n\nHeaders:\n");
    let ghost head = out@;
    let ghost all = fields(headers@);
    proof {
        assert(all.take(0) =~= Seq::<Field>::empty());
        assert(head + header_block(all.take(0)) =~= head);
    }
    for i in 0..headers.len()
        invariant
            all == fields(headers@),
            out@ == head + header_block(all.take(i as int)),
    {
        let h = &headers[i];
        let ghost before = out@;
        out.append(h.name.as_str());
        out.append(": ");
        let value = show_value(h.value.as_slice());
        out.append(value.as_str());
        out.append("\n");
        proof {
            assert(all[i as int] == h@);
            assert(all.take(i + 1).drop_last() =~= all.take(i as int));
            assert(out@ =~= before + header_line(h@));
            assert(out@ =~= head + header_block(all.take(i + 1)));
        }
    }
    proof {
        assert(all.take(headers.len() as int) =~= all);
    }
    out.append("\nBody:\n");
    out.append(body);
    out
}

/// The text for a response.
pub fn format_response(response: &Response) -> (r: String)
    ensures
        r@ == response_text(response@),
{
    let status_line = response.status.line();
    let body = show_body(response.body.as_str());
    compose_report(status_line.as_str(), &response.headers, body.as_str())
}

/// The text for a failure with the given description.
pub fn format_error(message: &str) -> (r: String)
    ensures
        r@ == error_text(message@),
{
    let mut out = String::from_str("Error: ");
    out.append(message);
    out
}

/// The text for an outcome.
pub fn report(outcome: &Outcome) -> (r: String)
    ensures
        r@ == outcome_text(outcome@),
{
    match outcome {
        Outcome::Answered(response) => format_response(response),
        Outcome::Failed(message) => format_error(message.as_str()),
    }
}

} // verus!
