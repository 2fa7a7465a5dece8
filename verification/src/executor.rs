//! One exchange, from the form to the text that is shown.
//!
//! The exchange itself is the caller's: it is handed in as a function from
//! the request to the outcome. Where the form asks for no request, that
//! function is not called.

use crate::report::{outcome_text, report, Outcome};
use crate::request::{planned, request_error_text, RequestError, RequestForm, RequestSpec, RequestView};
use vstd::prelude::*;

verus! {

/// Whether `text` is what is shown when `transport` carries out the request
/// that `view` describes.
pub open spec fn shown_after<F: FnOnce(RequestSpec) -> Outcome>(
    transport: F,
    view: RequestView,
    text: Seq<char>,
) -> bool {
    exists|request: RequestSpec, outcome: Outcome|
        request@ == view && #[trigger] call_ensures(transport, (request,), outcome) && text
            == outcome_text(outcome@)
}

/// Carries out what the form asks for and gives the text to show.
///
/// Where the method text names no method, the text is that of the error and
/// `transport` is not called. Otherwise `transport` is called once, with the
/// request of the form, and the text is the report of what it returns.
pub fn execute<F: FnOnce(RequestSpec) -> Outcome>(form: &RequestForm, transport: F) -> (r: String)
    requires
        forall|request: RequestSpec|
            planned(form@) == Ok::<RequestView, RequestError>(request@) && request@.wf()
                ==> call_requires(transport, (request,)),
    ensures
        match planned(form@) {
            Ok(view) => shown_after(transport, view, r@),
            Err(e) => r@ == request_error_text(e),
        },
{
    match form.request() {
        Ok(request) => {
            let ghost sent = request;
            let outcome = transport(request);
            let text = report(&outcome);
            proof {
                assert(call_ensures(transport, (sent,), outcome));
            }
            text
        },
        Err(e) => e.message(),
    }
}

} // verus!
