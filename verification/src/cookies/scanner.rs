//! Cookie scans: reading the SameSite column, classifying cookies by broker
//! and summing up what a scan found.

use vstd::prelude::*;
use crate::cookies::{Cookie, SameSite};
use crate::cookies::browser::{BrowserType, TargetOs, browser_type_name};
use crate::cookies::error::CookieError;
use crate::cookies::matcher::{CookieMatcher, classified, opt_text};
use crate::text::str_eq;

verus! {

/// A scanned cookie with the broker it matches, if any.
#[derive(Debug, Clone)]
pub struct ScannedCookie {
    /// The cookie
    pub cookie: Cookie,
    /// The browser it was found in
    pub browser_type: BrowserType,
    /// The profile it was found in
    pub profile_name: String,
    /// The file name of the cookie database
    pub cookie_db_filename: String,
    /// The broker the cookie belongs to
    pub matched_broker_id: Option<String>,
}

/// Result of a cookie scan.
#[derive(Debug)]
pub struct CookieScanResult {
    /// Number of cookies found
    pub total_cookies: usize,
    /// Number of cookies that belong to a broker
    pub matched_cookies: usize,
    /// Cookies per browser name, in the order the browsers first occur
    pub cookies_by_browser: Vec<(String, usize)>,
    /// Cookies per broker, in the order the brokers first occur
    pub cookies_by_broker: Vec<(String, usize)>,
    /// The cookies themselves
    pub scanned_cookies: Vec<ScannedCookie>,
}

/// The SameSite value stored in a cookie database column: 1 is `None`, 2
/// `Lax`, 3 `Strict`; 0 and anything else mean unset.
pub open spec fn same_site_of(v: i32) -> Option<SameSite> {
    if v == 1 {
        Some(SameSite::NoRestriction)
    } else if v == 2 {
        Some(SameSite::Lax)
    } else if v == 3 {
        Some(SameSite::Strict)
    } else {
        None
    }
}

/// Reads the SameSite column of a cookie database.
pub fn same_site_from_db(v: i32) -> (r: Option<SameSite>)
    ensures
        r == same_site_of(v),
{
    if v == 1 {
        Some(SameSite::NoRestriction)
    } else if v == 2 {
        Some(SameSite::Lax)
    } else if v == 3 {
        Some(SameSite::Strict)
    } else {
        None
    }
}

/// How many times `k` occurs in `s`.
pub open spec fn occurrences(s: Seq<Seq<char>>, k: Seq<char>) -> nat
    decreases s.len(),
{
    if s.len() == 0 {
        0
    } else {
        occurrences(s.drop_last(), k) + if s.last() == k { 1nat } else { 0nat }
    }
}

/// `r` counts the keys of `s`: each key once, in the order keys first occur
/// (every key of `s` is listed), with its number of occurrences.
pub open spec fn tallies(r: Seq<(String, usize)>, s: Seq<Seq<char>>) -> bool {
    &&& forall|a: int, b: int| 0 <= a < b < r.len() ==> r[a].0@ != r[b].0@
    &&& forall|k: Seq<char>| s.contains(k) <==> exists|j: int| 0 <= j < r.len() && #[trigger] r[j].0@ == k
    &&& forall|j: int| 0 <= j < r.len() ==> #[trigger] r[j].1 == occurrences(s, r[j].0@)
}

/// A key occurs at most as often as the sequence is long.
proof fn lemma_occurrences_bound(s: Seq<Seq<char>>, k: Seq<char>)
    ensures
        occurrences(s, k) <= s.len(),
        s.contains(k) <==> occurrences(s, k) > 0,
    decreases s.len(),
{
    if s.len() > 0 {
        lemma_occurrences_bound(s.drop_last(), k);
        if s.drop_last().contains(k) {
            let j = choose|j: int| 0 <= j < s.drop_last().len() && s.drop_last()[j] == k;
            assert(s[j] == k);
        }
        if s.contains(k) && s.last() != k {
            let j = choose|j: int| 0 <= j < s.len() && s[j] == k;
            assert(s.drop_last()[j] == k);
        }
    }
}

/// Counts how often each key occurs.
fn tally(keys: &Vec<String>) -> (r: Vec<(String, usize)>)
    ensures
        tallies(r@, keys@.map_values(|s: String| s@)),
{
    let ghost all = keys@.map_values(|s: String| s@);
    let mut r: Vec<(String, usize)> = Vec::new();
    let mut i: usize = 0;
    while i < keys.len()
        invariant
            all == keys@.map_values(|s: String| s@),
            i <= keys@.len(),
            tallies(r@, all.take(i as int)),
        decreases keys@.len() - i,
    {
        let key = keys[i].as_str();
        let ghost s0 = all.take(i as int);
        let ghost s1 = all.take(i + 1);
        proof {
            assert(s1.drop_last() =~= s0);
            assert(s1.last() == key@);
        }
        let mut k: usize = 0;
        while k < r.len() && !str_eq(r[k].0.as_str(), key)
            invariant
                k <= r@.len(),
                forall|j: int| 0 <= j < k ==> r@[j].0@ != key@,
            decreases r@.len() - k,
        {
            k += 1;
        }
        let ghost r0 = r@;
        if k < r.len() {
            let cnt = r[k].1;
            proof {
                assert(r0[k as int].1 == occurrences(s0, r0[k as int].0@));
                lemma_occurrences_bound(s0, key@);
            }
            let name = r[k].0.clone();
            r.set(k, (name, cnt + 1));
            proof {
                assert forall|x: Seq<char>| s1.contains(x) <==> exists|j: int| 0 <= j < r@.len() && #[trigger] r@[j].0@ == x by {
                    lemma_occurrences_bound(s0, x);
                    lemma_occurrences_bound(s1, x);
                    if s0.contains(x) {
                        let j = choose|j: int| 0 <= j < r0.len() && #[trigger] r0[j].0@ == x;
                        assert(r@[j].0@ == x);
                    }
                    if exists|j: int| 0 <= j < r@.len() && #[trigger] r@[j].0@ == x {
                        let j = choose|j: int| 0 <= j < r@.len() && #[trigger] r@[j].0@ == x;
                        assert(r0[j].0@ == x);
                    }
                }
            }
        } else {
            r.push((keys[i].clone(), 1));
            proof {
                lemma_occurrences_bound(s0, key@);
                assert(!s0.contains(key@));
                assert forall|x: Seq<char>| s1.contains(x) <==> exists|j: int| 0 <= j < r@.len() && #[trigger] r@[j].0@ == x by {
                    lemma_occurrences_bound(s0, x);
                    lemma_occurrences_bound(s1, x);
                    if s0.contains(x) {
                        let j = choose|j: int| 0 <= j < r0.len() && #[trigger] r0[j].0@ == x;
                        assert(r@[j].0@ == x);
                    }
                    if exists|j: int| 0 <= j < r@.len() && #[trigger] r@[j].0@ == x {
                        let j = choose|j: int| 0 <= j < r@.len() && #[trigger] r@[j].0@ == x;
                        if j < r0.len() {
                            assert(r0[j].0@ == x);
                        }
                    }
                    if x == key@ {
                        assert(r@[r0.len() as int].0@ == x);
                    }
                }
            }
        }
        i += 1;
    }
    assert(all.take(all.len() as int) =~= all);
    r
}

/// The browser names of the scanned cookies, in order.
pub open spec fn browser_keys(s: Seq<ScannedCookie>) -> Seq<Seq<char>> {
    s.map_values(|c: ScannedCookie| browser_type_name(c.browser_type)@)
}

/// The brokers of the matched cookies, in order.
pub open spec fn broker_keys(s: Seq<ScannedCookie>) -> Seq<Seq<char>>
    decreases s.len(),
{
    if s.len() == 0 {
        Seq::empty()
    } else {
        let rest = broker_keys(s.drop_last());
        match s.last().matched_broker_id {
            Some(b) => rest.push(b@),
            None => rest,
        }
    }
}

/// Cookie scanner; with a matcher it also tells which broker each cookie
/// belongs to.
pub struct CookieScanner {
    matcher: Option<CookieMatcher>,
}

impl CookieScanner {
    /// A scanner that does not classify cookies.
    pub fn new() -> (r: Self)
        ensures
            r.matcher() is None,
    {
        CookieScanner { matcher: None }
    }

    /// A scanner that classifies cookies with `matcher`.
    pub fn with_matcher(matcher: CookieMatcher) -> (r: Self)
        ensures
            r.matcher() == Some(matcher@),
    {
        CookieScanner { matcher: Some(matcher) }
    }

    /// Why a browser's cookies cannot be read on `os`, if they cannot:
    /// Safari's cookie format is not read on macOS and Safari is not there
    /// elsewhere; any other browser but Chrome, Edge, Brave and Firefox is
    /// unsupported.
    pub fn unsupported_for_scan(browser_type: BrowserType, os: TargetOs) -> (r: Option<CookieError>)
        ensures
            browser_type == BrowserType::Safari && os == TargetOs::MacOs ==> (r matches Some(
                CookieError::ParseError(m),
            ) && m@ == "Safari cookie parsing not yet implemented. Safari uses .binarycookies format which requires specialized parsing."@),
            browser_type == BrowserType::Safari && os != TargetOs::MacOs ==> (r matches Some(
                CookieError::BrowserNotFound(m),
            ) && m@ == "Safari only supported on macOS"@),
            browser_type == BrowserType::Other ==> (r matches Some(CookieError::BrowserNotFound(m))
                && m@ == "Unsupported browser type"@),
            browser_type != BrowserType::Safari && browser_type != BrowserType::Other ==> r is None,
    {
        match browser_type {
            BrowserType::Safari => match os {
                TargetOs::MacOs => Some(
                    CookieError::ParseError(
                        "Safari cookie parsing not yet implemented. Safari uses .binarycookies format which requires specialized parsing.".to_string(),
                    ),
                ),
                _ => Some(CookieError::BrowserNotFound("Safari only supported on macOS".to_string())),
            },
            BrowserType::Other => Some(CookieError::BrowserNotFound("Unsupported browser type".to_string())),
            _ => None,
        }
    }

    /// The matcher's entries, if the scanner has one.
    pub closed spec fn matcher(self) -> Option<Seq<crate::cookies::matcher::MatcherEntry>> {
        match self.matcher {
            Some(m) => Some(m@),
            None => None,
        }
    }

    /// The broker a cookie belongs to, if the scanner classifies cookies.
    pub fn classify(&self, cookie: &Cookie) -> (r: Option<String>)
        ensures
            match self.matcher() {
                None => r is None,
                Some(es) => classified(es, cookie.name@, cookie.domain@, opt_text(r)),
            },
    {
        match &self.matcher {
            Some(m) => m.match_cookie(cookie),
            None => None,
        }
    }

    /// Sums up the scanned cookies: totals, matched count, counts per browser
    /// and per broker.
    pub fn build_scan_result(&self, scanned_cookies: Vec<ScannedCookie>) -> (r: CookieScanResult)
        ensures
            r.total_cookies == scanned_cookies@.len(),
            r.matched_cookies == broker_keys(scanned_cookies@).len(),
            tallies(r.cookies_by_browser@, browser_keys(scanned_cookies@)),
            tallies(r.cookies_by_broker@, broker_keys(scanned_cookies@)),
            r.scanned_cookies@ == scanned_cookies@,
    {
        let ghost s = scanned_cookies@;
        let mut browsers: Vec<String> = Vec::new();
        let mut brokers: Vec<String> = Vec::new();
        let mut i: usize = 0;
        while i < scanned_cookies.len()
            invariant
                s == scanned_cookies@,
                i <= s.len(),
                browsers@.map_values(|x: String| x@) == browser_keys(s.take(i as int)),
                brokers@.map_values(|x: String| x@) == broker_keys(s.take(i as int)),
                brokers@.len() <= i,
            decreases s.len() - i,
        {
            let c = &scanned_cookies[i];
            proof {
                assert(s.take(i + 1).drop_last() =~= s.take(i as int));
                assert(s.take(i + 1).last() == s[i as int]);
            }
            browsers.push(c.browser_type.as_str().to_string());
            match &c.matched_broker_id {
                Some(b) => {
                    brokers.push(b.clone());
                },
                None => {},
            }
            proof {
                let f = |x: String| x@;
                assert(browser_keys(s.take(i + 1)) =~= browser_keys(s.take(i as int)).push(
                    browser_type_name(c.browser_type)@,
                ));
                assert(browsers@.map_values(f) =~= browser_keys(s.take(i + 1)));
                assert(brokers@.map_values(f) =~= broker_keys(s.take(i + 1)));
            }
            i += 1;
        }
        assert(s.take(s.len() as int) =~= s);
        let by_browser = tally(&browsers);
        let by_broker = tally(&brokers);
        assert(brokers@.len() == brokers@.map_values(|x: String| x@).len());
        CookieScanResult {
            total_cookies: scanned_cookies.len(),
            matched_cookies: brokers.len(),
            cookies_by_browser: by_browser,
            cookies_by_broker: by_broker,
            scanned_cookies,
        }
    }
}

/// The sum of the counts of a tally.
pub open spec fn tally_sum(r: Seq<(String, usize)>) -> int
    decreases r.len(),
{
    if r.len() == 0 {
        0
    } else {
        tally_sum(r.drop_last()) + r.last().1
    }
}

impl Default for CookieScanner {
    fn default() -> (r: Self)
        ensures
            r.matcher() is None,
    {
        Self::new()
    }
}

/// The summed occurrences in `s` of each key of `ks`.
pub open spec fn sum_occurrences(ks: Seq<Seq<char>>, s: Seq<Seq<char>>) -> int
    decreases ks.len(),
{
    if ks.len() == 0 {
        0
    } else {
        sum_occurrences(ks.drop_last(), s) + occurrences(s, ks.last())
    }
}

/// How many keys of `ks` equal `x`.
pub open spec fn key_count(ks: Seq<Seq<char>>, x: Seq<char>) -> int
    decreases ks.len(),
{
    if ks.len() == 0 {
        0
    } else {
        key_count(ks.drop_last(), x) + if ks.last() == x { 1int } else { 0int }
    }
}

/// One more item adds its key's multiplicity in `ks` to the sum.
proof fn lemma_sum_push(ks: Seq<Seq<char>>, s: Seq<Seq<char>>, x: Seq<char>)
    ensures
        sum_occurrences(ks, s.push(x)) == sum_occurrences(ks, s) + key_count(ks, x),
    decreases ks.len(),
{
    if ks.len() > 0 {
        lemma_sum_push(ks.drop_last(), s, x);
        assert(s.push(x).drop_last() =~= s);
    }
}

/// A key listed once in distinct keys is counted once.
proof fn lemma_key_count_one(ks: Seq<Seq<char>>, x: Seq<char>)
    requires
        forall|a: int, b: int| 0 <= a < b < ks.len() ==> ks[a] != ks[b],
        ks.contains(x),
    ensures
        key_count(ks, x) == 1,
    decreases ks.len(),
{
    let init = ks.drop_last();
    assert forall|a: int, b: int| 0 <= a < b < init.len() implies init[a] != init[b] by {
        assert(init[a] == ks[a] && init[b] == ks[b]);
    }
    if ks.last() == x {
        if init.contains(x) {
            let j = choose|j: int| 0 <= j < init.len() && init[j] == x;
            assert(ks[j] == ks[ks.len() - 1]);
        }
        lemma_key_count_zero(init, x);
    } else {
        let j = choose|j: int| 0 <= j < ks.len() && ks[j] == x;
        assert(init[j] == x);
        lemma_key_count_one(init, x);
    }
}

/// A key not listed is not counted.
proof fn lemma_key_count_zero(ks: Seq<Seq<char>>, x: Seq<char>)
    requires
        !ks.contains(x),
    ensures
        key_count(ks, x) == 0,
    decreases ks.len(),
{
    if ks.len() > 0 {
        assert(!ks.drop_last().contains(x)) by {
            if ks.drop_last().contains(x) {
                let j = choose|j: int| 0 <= j < ks.drop_last().len() && ks.drop_last()[j] == x;
                assert(ks[j] == x);
            }
        }
        lemma_key_count_zero(ks.drop_last(), x);
        assert(ks[ks.len() - 1] != x);
    }
}

/// Distinct keys that cover every item of `s` sum up to its length.
proof fn lemma_sum_covers(ks: Seq<Seq<char>>, s: Seq<Seq<char>>)
    requires
        forall|a: int, b: int| 0 <= a < b < ks.len() ==> ks[a] != ks[b],
        forall|i: int| 0 <= i < s.len() ==> ks.contains(#[trigger] s[i]),
    ensures
        sum_occurrences(ks, s) == s.len(),
    decreases s.len(),
{
    if s.len() == 0 {
        lemma_sum_empty(ks, s);
    } else {
        let init = s.drop_last();
        assert forall|i: int| 0 <= i < init.len() implies ks.contains(#[trigger] init[i]) by {
            assert(init[i] == s[i]);
        }
        lemma_sum_covers(ks, init);
        lemma_sum_push(ks, init, s.last());
        assert(init.push(s.last()) =~= s);
        assert(ks.contains(s[s.len() - 1]));
        lemma_key_count_one(ks, s.last());
    }
}

/// Nothing occurs in the empty sequence.
proof fn lemma_sum_empty(ks: Seq<Seq<char>>, s: Seq<Seq<char>>)
    requires
        s.len() == 0,
    ensures
        sum_occurrences(ks, s) == 0,
    decreases ks.len(),
{
    if ks.len() > 0 {
        lemma_sum_empty(ks.drop_last(), s);
    }
}

/// The keys of a tally, in order.
pub open spec fn tally_keys(r: Seq<(String, usize)>) -> Seq<Seq<char>> {
    r.map_values(|p: (String, usize)| p.0@)
}

/// A tally's sum is the summed occurrences of its keys.
proof fn lemma_tally_sum_keys(r: Seq<(String, usize)>, s: Seq<Seq<char>>)
    requires
        forall|j: int| 0 <= j < r.len() ==> #[trigger] r[j].1 == occurrences(s, r[j].0@),
    ensures
        tally_sum(r) == sum_occurrences(tally_keys(r), s),
    decreases r.len(),
{
    if r.len() > 0 {
        let init = r.drop_last();
        assert forall|j: int| 0 <= j < init.len() implies #[trigger] init[j].1 == occurrences(s, init[j].0@) by {
            assert(init[j] == r[j]);
        }
        lemma_tally_sum_keys(init, s);
        assert(tally_keys(r).drop_last() =~= tally_keys(init));
        assert(r[r.len() - 1].1 == occurrences(s, r[r.len() - 1].0@));
    }
}

/// A tally counts everything once: the counts of a tally of `s` add up to
/// the length of `s`. For a scan, the per-browser counts add up to the
/// number of cookies and the per-broker counts to the number of matched
/// cookies.
pub proof fn law_tally_counts_everything(r: Seq<(String, usize)>, s: Seq<Seq<char>>)
    requires
        tallies(r, s),
    ensures
        tally_sum(r) == s.len(),
{
    let ks = tally_keys(r);
    assert forall|a: int, b: int| 0 <= a < b < ks.len() implies ks[a] != ks[b] by {
        assert(r[a].0@ != r[b].0@);
    }
    assert forall|i: int| 0 <= i < s.len() implies ks.contains(#[trigger] s[i]) by {
        assert(s.contains(s[i]));
        let j = choose|j: int| 0 <= j < r.len() && #[trigger] r[j].0@ == s[i];
        assert(ks[j] == s[i]);
    }
    lemma_sum_covers(ks, s);
    lemma_tally_sum_keys(r, s);
}

} // verus!
