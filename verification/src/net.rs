//! What the providers read of an endpoint URL.

use crate::agent_run::opt_view;
use vstd::prelude::*;

verus! {

/// The scheme and host of `text` as `reqwest::Url::parse` (the `url`
/// crate's WHATWG parser) reads them: `None` where parsing fails, else the
/// URL's `scheme()` and `host_str()`.
pub uninterp spec fn parsed_url(text: Seq<char>) -> Option<(Seq<char>, Option<Seq<char>>)>;

/// `reqwest::Url::parse(text)`, reduced to its scheme and host; the result
/// is named by `parsed_url`. Nothing more is claimed of the parser.
#[verifier::external_body]
pub fn parse_url(text: &str) -> (r: Option<(String, Option<String>)>)
    ensures
        r is None <==> parsed_url(text@) is None,
        r matches Some(p) ==> parsed_url(text@) == Some((p.0@, opt_view(p.1))),
{
    match reqwest::Url::parse(text) {
        Ok(url) => Some((url.scheme().to_owned(), url.host_str().map(str::to_owned))),
        Err(_) => None,
    }
}

/// The HTTP status classes the providers tell apart.
pub open spec fn is_success_status(code: u16) -> bool {
    200 <= code <= 299
}

/// A status that is worth retrying later: a server error or 429.
pub open spec fn is_transient_status(code: u16) -> bool {
    (500 <= code <= 599) || code == 429
}

} // verus!
