//! What becomes of a request to EDGAR that does not bring a document.

use vstd::prelude::*;
use crate::lists::at_most;
use crate::text::{characters, decimal, owned, text_of};

verus! {

/// How many characters of a refusal are quoted at most.
pub const MAX_SNIPPET: usize = 200;

/// The phrase that `reqwest::StatusCode` prints behind a status code: the
/// standard's reason phrase, or that the code is unknown.
pub uninterp spec fn reason_phrase(code: u16) -> Seq<char>;

/// Calls `reqwest::StatusCode::from_u16` and prints what it gives. Claimed: the
/// text is the code in decimal, a space and a phrase that depends on the code
/// alone.
#[verifier::external_body]
fn status_line(code: u16) -> (r: String)
    requires
        100 <= code < 1000,
    ensures
        r@ == decimal(code as nat) + " "@ + reason_phrase(code),
{
    reqwest::StatusCode::from_u16(code).unwrap().to_string()
}

/// Whether a status code stands for success.
pub open spec fn is_success(code: u16) -> bool {
    200 <= code < 300
}

/// What a refused request is answered: for a missing document, for too many
/// requests, and for everything else, with the status and the start of the
/// body.
pub open spec fn refusal(
    code: u16,
    status: Seq<char>,
    url: Seq<char>,
    body: Seq<char>,
) -> Option<Seq<char>> {
    if is_success(code) {
        None
    } else if code == 404 {
        Some("SEC EDGAR returned 404 (not found) for "@ + url)
    } else if code == 429 {
        Some(
            "SEC EDGAR rate limit exceeded (429). The fair-access limit is 10 req/sec; retry shortly."@,
        )
    } else {
        Some(
            "SEC EDGAR returned "@ + status + " for "@ + url + ": "@ + at_most(
                body,
                MAX_SNIPPET as int,
            ),
        )
    }
}

fn snippet(body: &str) -> (r: String)
    ensures
        r@ == at_most(body@, MAX_SNIPPET as int),
{
    let chars = characters(body);
    let to: usize = if chars.len() < MAX_SNIPPET {
        chars.len()
    } else {
        MAX_SNIPPET
    };
    assert(chars@.subrange(0, to as int) =~= at_most(body@, MAX_SNIPPET as int));
    text_of(&chars, 0, to)
}

/// What a refused request is answered, given how its status prints; nothing
/// where the request succeeded.
pub fn refusal_with_status(code: u16, status: &str, url: &str, body: &str) -> (r: Option<String>)
    ensures
        match r {
            Some(e) => refusal(code, status@, url@, body@) == Some(e@),
            None => refusal(code, status@, url@, body@) is None,
        },
{
    if 200 <= code && code < 300 {
        None
    } else if code == 404 {
        Some(owned("SEC EDGAR returned 404 (not found) for ").concat(url))
    } else if code == 429 {
        Some(
            owned(
                "SEC EDGAR rate limit exceeded (429). The fair-access limit is 10 req/sec; retry shortly.",
            ),
        )
    } else {
        Some(
            owned("SEC EDGAR returned ").concat(status).concat(" for ").concat(url).concat(
                ": ",
            ).concat(snippet(body).as_str()),
        )
    }
}

/// What a refused request is answered; nothing where the request succeeded.
pub fn check_status(code: u16, url: &str, body: &str) -> (r: Option<String>)
    requires
        100 <= code < 1000,
    ensures
        match r {
            Some(e) => refusal(
                code,
                decimal(code as nat) + " "@ + reason_phrase(code),
                url@,
                body@,
            ) == Some(e@),
            None => is_success(code),
        },
{
    let status = status_line(code);
    refusal_with_status(code, status.as_str(), url, body)
}

/// What is answered when a request could not be sent.
pub fn request_failed(url: &str, cause: &str) -> (r: String)
    ensures
        r@ == "HTTP request failed: "@ + url@ + ": "@ + cause@,
{
    owned("HTTP request failed: ").concat(url).concat(": ").concat(cause)
}

/// What is answered when a document is no JSON.
pub fn parse_failed(url: &str, cause: &str) -> (r: String)
    ensures
        r@ == "failed to parse JSON response from "@ + url@ + ": "@ + cause@,
{
    owned("failed to parse JSON response from ").concat(url).concat(": ").concat(cause)
}

/// What is answered when a document breaks off.
pub fn read_failed(url: &str, cause: &str) -> (r: String)
    ensures
        r@ == "failed to read response from "@ + url@ + ": "@ + cause@,
{
    owned("failed to read response from ").concat(url).concat(": ").concat(cause)
}

/// What is answered when no client can be built.
pub fn client_failed(cause: &str) -> (r: String)
    ensures
        r@ == "failed to build HTTP client: "@ + cause@,
{
    owned("failed to build HTTP client: ").concat(cause)
}

/// Success is never refused, and everything else always is: a missing document
/// and too many requests with a text of their own, any other status with the
/// status, the address and the beginning of the body, at most two hundred
/// characters of it.
pub proof fn every_other_status_is_refused(
    code: u16,
    status: Seq<char>,
    url: Seq<char>,
    body: Seq<char>,
)
    ensures
        refusal(code, status, url, body) is None <==> 200 <= code <= 299,
        code == 404 ==> refusal(code, status, url, body) == Some(
            "SEC EDGAR returned 404 (not found) for "@ + url,
        ),
        code == 429 ==> refusal(code, status, url, body) == Some(
            "SEC EDGAR rate limit exceeded (429). The fair-access limit is 10 req/sec; retry shortly."@,
        ),
        !(200 <= code <= 299) && code != 404 && code != 429 ==> refusal(code, status, url, body)
            == Some(
            "SEC EDGAR returned "@ + status + " for "@ + url + ": "@ + if body.len() <= 200 {
                body
            } else {
                body.take(200)
            },
        ),
{
}

} // verus!
