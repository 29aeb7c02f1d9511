//! Extracting the domain of a URL.

use vstd::prelude::*;
use crate::browser::error::BrowserError;
use crate::text::concat_strs;

verus! {

/// What url's `Url::parse` followed by `Url::host_str` gives for an input:
/// the parse error's text, or the host if the URL has one.
pub uninterp spec fn url_host_result(input: Seq<char>) -> Result<Option<Seq<char>>, Seq<char>>;

/// Parses `input` with url's `Url::parse` and reads its host with
/// `Url::host_str`. What the WHATWG parser accepts is not restated here: the
/// outcome is named by `url_host_result`, a function of the input alone.
#[verifier::external_body]
fn parse_url_host(input: &str) -> (r: Result<Option<String>, String>)
    ensures
        match (r, url_host_result(input@)) {
            (Ok(Some(h)), Ok(Some(g))) => h@ == g,
            (Ok(None), Ok(None)) => true,
            (Err(e), Err(f)) => e@ == f,
            _ => false,
        },
{
    match url::Url::parse(input) {
        Ok(u) => match u.host_str() {
            Some(h) => Ok(Some(h.to_string())),
            None => Ok(None),
        },
        Err(e) => Err(e.to_string()),
    }
}

/// What `extract_domain` yields for a parse outcome.
pub open spec fn domain_outcome(res: Result<Option<Seq<char>>, Seq<char>>, r: Result<String, BrowserError>) -> bool {
    match res {
        Err(e) => r matches Err(BrowserError::NavigationError(m)) && m@ == "Invalid URL: "@ + e,
        Ok(None) => r matches Err(BrowserError::NavigationError(m)) && m@ == "No host in URL"@,
        Ok(Some(h)) => r matches Ok(d) && d@ == h,
    }
}

/// The domain for a URL's parse outcome: the host, or a navigation error.
pub fn domain_from_parse(res: Result<Option<String>, String>) -> (r: Result<String, BrowserError>)
    ensures
        domain_outcome(
            match res {
                Err(e) => Err(e@),
                Ok(None) => Ok(None),
                Ok(Some(h)) => Ok(Some(h@)),
            },
            r,
        ),
{
    match res {
        Err(e) => Err(BrowserError::NavigationError(concat_strs("Invalid URL: ", e.as_str()))),
        Ok(None) => Err(BrowserError::NavigationError("No host in URL".to_string())),
        Ok(Some(h)) => Ok(h),
    }
}

/// The domain (host) of a URL.
pub fn extract_domain(url: &str) -> (r: Result<String, BrowserError>)
    ensures
        domain_outcome(url_host_result(url@), r),
{
    let res = parse_url_host(url);
    domain_from_parse(res)
}

} // verus!
