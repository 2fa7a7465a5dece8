//! Pretty-printing of JSON texts.
//!
//! Reading and printing JSON is the work of `serde_json`. What it prints for
//! a text is not spelled out here: it has a name, `json_pretty`, and the rest
//! of the library is specified over that name.

use vstd::prelude::*;

verus! {

/// What `serde_json` prints, with indentation, for the value it reads from
/// `text`; `None` where it reads no JSON value from `text`.
pub uninterp spec fn json_pretty(text: Seq<char>) -> Option<Seq<char>>;

/// The text that is shown for a body: the pretty-printed JSON where there is
/// one, the body as it stands where there is none.
pub open spec fn body_shown(body: Seq<char>, pretty: Option<Seq<char>>) -> Seq<char> {
    match pretty {
        Some(p) => p,
        None => body,
    }
}

/// Calls `serde_json::from_str` to read `text` as a `serde_json::Value` and,
/// where that succeeds, `serde_json::to_string_pretty` to print the value.
///
/// Trusted: the result is `json_pretty` of the text, that is, it depends on
/// the text alone. It is `None` where `from_str` rejects the text. It would
/// also be `None` if printing failed, which does not happen for a `Value`:
/// its keys are strings and the output is written to memory.
#[verifier::external_body]
fn reprint(text: &str) -> (r: Option<String>)
    ensures
        match r {
            Some(s) => json_pretty(text@) == Some(s@),
            None => json_pretty(text@) is None,
        },
{
    match serde_json::from_str::<serde_json::Value>(text) {
        Ok(value) => serde_json::to_string_pretty(&value).ok(),
        Err(_) => None,
    }
}

/// Chooses the text to show for a body, given the outcome of pretty-printing
/// it.
pub fn choose_body(body: &str, pretty: Option<String>) -> (r: String)
    ensures
        r@ == body_shown(
            body@,
            match pretty {
                Some(p) => Some(p@),
                None => None,
            },
        ),
{
    match pretty {
        Some(p) => p,
        None => body.to_owned(),
    }
}

/// The text to show for a body: pretty-printed where the body is JSON,
/// unchanged where it is not.
pub fn show_body(body: &str) -> (r: String)
    ensures
        r@ == body_shown(body@, json_pretty(body@)),
{
    let pretty = reprint(body);
    choose_body(body, pretty)
}

} // verus!
