//! Whether an API answer is accepted, and the error reported when it is
//! not.
use vstd::prelude::*;

verus! {

/// The string member `error` of the JSON text `text`: `None` where the
/// text is not JSON or has no string member of that name.
pub uninterp spec fn json_error_member(text: Seq<char>) -> Option<Seq<char>>;

/// `serde_json::from_str::<serde_json::Value>` on `text`, read for its
/// `error` member with `Value::get` and `Value::as_str`; the result is
/// named by `json_error_member` and nothing more is claimed of it.
#[verifier::external_body]
pub(crate) fn error_member(text: &str) -> (r: Option<String>)
    ensures
        match r {
            Some(m) => json_error_member(text@) == Some(m@),
            None => json_error_member(text@) is None,
        },
{
    serde_json::from_str::<serde_json::Value>(text).ok().and_then(
        |body| body.get("error").and_then(|e| e.as_str()).map(String::from),
    )
}

/// The statuses the client accepts: 200 OK and 201 Created.
pub open spec fn accepted_status(status: u16) -> bool {
    status == 200 || status == 201
}

/// The error for a refused answer with status text `status_text`: the
/// `error` member of the body where there is one, else the whole body.
pub open spec fn failure_message_spec(
    status_text: Seq<char>,
    text: Seq<char>,
    member: Option<Seq<char>>,
) -> Seq<char> {
    let message = match member {
        Some(m) => m,
        None => text,
    };
    "API request failed ("@ + status_text + "): "@ + message
}

/// The error reported for a refused answer, given the status as it is
/// displayed (`404 Not Found`), the body, and the body's `error` member.
pub fn failure_message(status_text: &str, text: &str, member: Option<String>) -> (r: String)
    ensures
        r@ == failure_message_spec(
            status_text@,
            text@,
            match member {
                Some(m) => Some(m@),
                None => None,
            },
        ),
{
    let message = match member {
        Some(m) => m,
        None => String::from_str(text),
    };
    String::from_str("API request failed (").concat(status_text).concat("): ").concat(
        message.as_str(),
    )
}

/// An answer is accepted exactly when its status is 200 or 201; every other
/// status, any 4xx or 5xx among them, is refused with the message that
/// names the status and gives the body's `error` member, or else the whole
/// body.
pub proof fn lemma_response_outcome(status: u16, status_text: Seq<char>, text: Seq<char>)
    ensures
        accepted_status(status) <==> (status == 200 || status == 201),
        status >= 400 ==> !accepted_status(status),
        failure_message_spec(status_text, text, json_error_member(text)) == "API request failed ("@
            + status_text + "): "@ + match json_error_member(text) {
            Some(e) => e,
            None => text,
        },
{
}

/// Accepts an answer with status 200 or 201; refuses any other with the
/// error built from the status text and the body.
pub fn check_response(status: u16, status_text: &str, text: &str) -> (r: Result<(), String>)
    ensures
        accepted_status(status) ==> r is Ok,
        !accepted_status(status) ==> (r matches Err(m) && m@ == failure_message_spec(
            status_text@,
            text@,
            json_error_member(text@),
        )),
        r is Ok <==> (status == 200 || status == 201),
        r matches Err(m) ==> m@ == "API request failed ("@ + status_text@ + "): "@ + match json_error_member(
            text@,
        ) {
            Some(e) => e,
            None => text@,
        },
{
    if status == 200 || status == 201 {
        return Ok(());
    }
    let member = error_member(text);
    Err(failure_message(status_text, text, member))
}

} // verus!
