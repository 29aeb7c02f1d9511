//! Errors of browser automation.

use vstd::prelude::*;
use crate::text::concat_strs;

verus! {

/// Errors of browser automation.
#[derive(Debug)]
pub enum BrowserError {
    /// The browser failed
    ChromiumError(String),
    /// Navigation failed
    NavigationError(String),
    /// No element matched a selector
    SelectorNotFound(String),
    /// An operation timed out
    Timeout(String),
    /// A domain was accessed again too soon
    RateLimitExceeded(String),
}

/// The message of a browser error.
pub open spec fn browser_error_text(e: BrowserError) -> Seq<char> {
    match e {
        BrowserError::ChromiumError(s) => "chromium error: "@ + s@,
        BrowserError::NavigationError(s) => "navigation failed: "@ + s@,
        BrowserError::SelectorNotFound(s) => "selector not found: "@ + s@,
        BrowserError::Timeout(s) => "timeout: "@ + s@,
        BrowserError::RateLimitExceeded(s) => "rate limit exceeded for domain: "@ + s@,
    }
}

impl BrowserError {
    /// The error message, as displayed to users.
    pub fn message(&self) -> (r: String)
        ensures
            r@ == browser_error_text(*self),
    {
        match self {
            BrowserError::ChromiumError(s) => concat_strs("chromium error: ", s.as_str()),
            BrowserError::NavigationError(s) => concat_strs("navigation failed: ", s.as_str()),
            BrowserError::SelectorNotFound(s) => concat_strs("selector not found: ", s.as_str()),
            BrowserError::Timeout(s) => concat_strs("timeout: ", s.as_str()),
            BrowserError::RateLimitExceeded(s) => concat_strs(
                "rate limit exceeded for domain: ",
                s.as_str(),
            ),
        }
    }
}

} // verus!
