//! Best-effort interpretation of error responses from a remote service: a
//! structured JSON error body is preferred; otherwise known substrings
//! select a friendlier message; else the raw body is surfaced verbatim.

use vstd::prelude::*;

use crate::strutil::{dec_str, spec_contains, spec_dec, str_contains};

verus! {

/// The `error` and `message` string fields of a body that parses as a JSON
/// object, or `None` when the body is not a JSON object. A function of the
/// body alone.
pub uninterp spec fn spec_json_error_fields(body: Seq<char>) -> Option<
    (Option<Seq<char>>, Option<Seq<char>>),
>;

/// Relies on serde_json::from_str and serde_json::Value::{get, as_str}:
/// parses the body as JSON and, for an object, reads its `error` and
/// `message` string fields; the result depends on the body alone.
#[verifier::external_body]
fn json_error_fields(body: &str) -> (r: Option<(Option<String>, Option<String>)>)
    ensures
        r is Some <==> spec_json_error_fields(body@) is Some,
        r matches Some(f) ==> (spec_json_error_fields(body@) matches Some(g) && (f.0 is Some
            <==> g.0 is Some) && (f.0 matches Some(e) ==> (g.0 matches Some(ge) && e@ == ge)) && (
        f.1 is Some <==> g.1 is Some) && (f.1 matches Some(m) ==> (g.1 matches Some(gm) && m@
            == gm))),
{
    let v: serde_json::Value = match serde_json::from_str(body) {
        Ok(v) => v,
        Err(_) => return None,
    };
    if !v.is_object() {
        return None;
    }
    let error = v.get("error").and_then(|x| x.as_str()).map(|s| s.to_string());
    let message = v.get("message").and_then(|x| x.as_str()).map(|s| s.to_string());
    Some((error, message))
}

/// The detail a structured error body carries: its `error` field, else its
/// `message` field, else a fixed fallback.
pub open spec fn spec_structured_detail(f: (Option<Seq<char>>, Option<Seq<char>>)) -> Seq<char> {
    match f.0 {
        Some(e) => e,
        None => match f.1 {
            Some(m) => m,
            None => "Unknown error"@,
        },
    }
}

/// The message `parse_api_error` produces for a raw error body and a
/// context prefix.
pub open spec fn spec_parse_api_error(body: Seq<char>, ctx: Seq<char>) -> Seq<char> {
    match spec_json_error_fields(body) {
        Some(f) => ctx + ": "@ + spec_structured_detail(f),
        None => if spec_contains(body, "401"@) || spec_contains(body, "Unauthorized"@) {
            ctx + ": Unauthorized: the service rejected the credential."@
        } else if spec_contains(body, "403"@) || spec_contains(body, "Forbidden"@) {
            ctx + ": Access denied."@
        } else if spec_contains(body, "429"@) || spec_contains(body, "Too Many Requests"@) {
            ctx + ": Rate limit exceeded. Please try again later."@
        } else {
            ctx + ": "@ + body
        },
    }
}

/// Interprets an error body: a structured JSON error is preferred, known
/// substrings select a friendlier message, and anything else is surfaced
/// verbatim behind the context prefix.
pub fn parse_api_error(error_text: &str, context_msg: &str) -> (r: String)
    ensures
        r@ == spec_parse_api_error(error_text@, context_msg@),
{
    match json_error_fields(error_text) {
        Some(fields) => {
            let mut s = context_msg.to_owned();
            s.append(": ");
            match fields.0 {
                Some(e) => s.append(e.as_str()),
                None => match fields.1 {
                    Some(m) => s.append(m.as_str()),
                    None => s.append("Unknown error"),
                },
            }
            proof {
                assert(s@ =~= spec_parse_api_error(error_text@, context_msg@));
            }
            s
        },
        None => {
            let mut s = context_msg.to_owned();
            if str_contains(error_text, "401") || str_contains(error_text, "Unauthorized") {
                s.append(": Unauthorized: the service rejected the credential.");
            } else if str_contains(error_text, "403") || str_contains(error_text, "Forbidden") {
                s.append(": Access denied.");
            } else if str_contains(error_text, "429") || str_contains(
                error_text,
                "Too Many Requests",
            ) {
                s.append(": Rate limit exceeded. Please try again later.");
            } else {
                s.append(": ");
                s.append(error_text);
            }
            proof {
                assert(s@ =~= spec_parse_api_error(error_text@, context_msg@));
            }
            s
        },
    }
}

/// The message surfaced for a non-success HTTP response: the status code in
/// front of the interpreted body.
pub open spec fn spec_http_error(status: nat, msg: Seq<char>) -> Seq<char> {
    "[HTTP "@ + spec_dec(status) + "] "@ + msg
}

/// Builds the HTTP error message for a non-success status code.
pub fn http_error(status: u16, msg: &str) -> (r: String)
    ensures
        r@ == spec_http_error(status as nat, msg@),
{
    let mut s = "[HTTP ".to_owned();
    s.append(dec_str(status as u64).as_str());
    s.append("] ");
    s.append(msg);
    proof {
        assert(s@ =~= spec_http_error(status as nat, msg@));
    }
    s
}

} // verus!
