//! Matching cookies against the cookie patterns of brokers.

use vstd::prelude::*;
use crate::cookies::Cookie;
use crate::cookies::error::CookieError;
use crate::text::{str_eq, str_starts_with, str_ends_with, concat_strs, starts_with, ends_with, utf8_len};

verus! {

/// A pattern or a text holds no backslash. globset reads such a pattern,
/// and matches such a text, alike on every platform; with a backslash its
/// reading depends on whether the platform takes the backslash for a path
/// separator.
pub open spec fn portable(s: Seq<char>) -> bool {
    !s.contains('\\')
}

/// Every one of `ps` is portable.
pub open spec fn all_portable(ps: Seq<Seq<char>>) -> bool {
    forall|i: int| 0 <= i < ps.len() ==> portable(#[trigger] ps[i])
}

/// What globset's `Glob::new` gives for a portable pattern: `None` when it
/// parses, else the error's text.
pub uninterp spec fn glob_parse_error(pattern: Seq<char>) -> Option<Seq<char>>;

/// What globset's `GlobSetBuilder::build` gives for a list of portable
/// patterns: `None` when the set builds, else the error's text.
pub uninterp spec fn glob_set_build_error(patterns: Seq<Seq<char>>) -> Option<Seq<char>>;

/// Whether globset's `GlobSet::is_match` finds that the set built from
/// `patterns` matches `text` (all of them portable).
pub uninterp spec fn glob_set_match(patterns: Seq<Seq<char>>, text: Seq<char>) -> bool;

/// The UTF-8 bytes of the patterns, and one more for each pattern.
pub open spec fn patterns_size(ps: Seq<Seq<char>>) -> nat
    decreases ps.len(),
{
    if ps.len() == 0 {
        0
    } else {
        patterns_size(ps.drop_last()) + utf8_len(ps.last()) + 1
    }
}

/// The patterns of the globs added to a globset builder, in order.
pub uninterp spec fn builder_patterns(b: globset::GlobSetBuilder) -> Seq<Seq<char>>;

/// The patterns of the globs a glob set was built from, in order.
pub uninterp spec fn glob_set_patterns(s: globset::GlobSet) -> Seq<Seq<char>>;

/// globset's parsed glob.
#[verifier::external_type_specification]
#[verifier::external_body]
pub struct ExGlob(globset::Glob);

/// globset's builder of glob sets.
#[verifier::external_type_specification]
#[verifier::external_body]
pub struct ExGlobSetBuilder(globset::GlobSetBuilder);

/// globset's set of globs, matched all at once.
#[verifier::external_type_specification]
#[verifier::external_body]
pub struct ExGlobSet(globset::GlobSet);

/// A parsed glob together with the pattern it was parsed from. Only
/// `parse_glob` builds one.
pub struct ParsedGlob {
    pattern: String,
    glob: globset::Glob,
}

impl View for ParsedGlob {
    type V = Seq<char>;

    closed spec fn view(&self) -> Seq<char> {
        self.pattern@
    }
}

/// Parses a pattern with globset's `Glob::new` (default options). On a
/// portable pattern the outcome is the one `glob_parse_error` names; on a
/// pattern with a backslash it depends on the platform and is not stated.
#[verifier::external_body]
fn parse_glob(pattern: &str) -> (r: Result<ParsedGlob, String>)
    ensures
        r matches Ok(g) ==> g@ == pattern@,
        portable(pattern@) ==> match (r, glob_parse_error(pattern@)) {
            (Ok(_), None) => true,
            (Err(e), Some(t)) => e@ == t,
            _ => false,
        },
{
    match globset::Glob::new(pattern) {
        Ok(glob) => Ok(ParsedGlob { pattern: pattern.to_string(), glob }),
        Err(e) => Err(e.to_string()),
    }
}

/// globset's `GlobSetBuilder::new`: a builder with no globs.
#[verifier::external_body]
fn new_glob_set_builder() -> (r: globset::GlobSetBuilder)
    ensures
        builder_patterns(r) == Seq::<Seq<char>>::empty(),
{
    globset::GlobSetBuilder::new()
}

/// globset's `GlobSetBuilder::add`: appends the glob to the builder.
#[verifier::external_body]
fn add_to_builder(builder: &mut globset::GlobSetBuilder, glob: ParsedGlob)
    ensures
        builder_patterns(*final(builder)) == builder_patterns(*old(builder)).push(glob@),
{
    builder.add(glob.glob);
}

/// globset's `GlobSetBuilder::build`: a set of the globs added so far. For
/// portable patterns the outcome is the one `glob_set_build_error` names;
/// otherwise only what a built set holds is stated. globset builds an
/// aho-corasick automaton over the literal parts of the globs and unwraps
/// that build, which fails only past 2^31 - 1 states or patterns; the bound
/// on the patterns' size keeps clear of it.
#[verifier::external_body]
fn build_glob_set(builder: &globset::GlobSetBuilder) -> (r: Result<globset::GlobSet, String>)
    requires
        patterns_size(builder_patterns(*builder)) < 0x7fff_0000,
    ensures
        r matches Ok(s) ==> glob_set_patterns(s) == builder_patterns(*builder),
        all_portable(builder_patterns(*builder)) ==> match (r, glob_set_build_error(builder_patterns(*builder))) {
            (Ok(_), None) => true,
            (Err(e), Some(t)) => e@ == t,
            _ => false,
        },
{
    match builder.build() {
        Ok(set) => Ok(set),
        Err(e) => Err(e.to_string()),
    }
}

/// globset's `GlobSet::is_match`: whether some glob of the set matches the
/// text. Stated for a portable text and set, where `glob_set_match` names
/// it; with a backslash the answer depends on the platform.
#[verifier::external_body]
fn glob_set_is_match(set: &globset::GlobSet, text: &str) -> (r: bool)
    ensures
        portable(text@) && all_portable(glob_set_patterns(*set)) ==> r == glob_set_match(
            glob_set_patterns(*set),
            text@,
        ),
{
    set.is_match(text)
}

/// A broker's cookie patterns.
#[derive(Debug, Clone)]
pub struct BrokerCookiePattern {
    /// The broker the cookies belong to
    pub broker_id: String,
    /// Glob patterns over cookie names
    pub patterns: Vec<String>,
    /// Domains the cookies are set on
    pub domains: Vec<String>,
}

/// The texts of a list of strings.
pub open spec fn texts(v: Seq<String>) -> Seq<Seq<char>> {
    v.map_values(|s: String| s@)
}

/// The error of the first pattern that does not parse, if any.
pub open spec fn first_parse_error(s: Seq<Seq<char>>) -> Option<Seq<char>>
    decreases s.len(),
{
    if s.len() == 0 {
        None
    } else if first_parse_error(s.drop_last()) is Some {
        first_parse_error(s.drop_last())
    } else {
        glob_parse_error(s.last())
    }
}

/// What goes wrong first when one broker's patterns are compiled: the first
/// pattern that does not parse, else the set of them failing to build.
pub open spec fn broker_glob_error(patterns: Seq<Seq<char>>) -> Option<Seq<char>> {
    match first_parse_error(patterns) {
        Some(t) => Some(t),
        None => glob_set_build_error(patterns),
    }
}

/// The error of the first broker whose patterns do not compile, if any.
pub open spec fn first_broker_error(bs: Seq<BrokerCookiePattern>) -> Option<Seq<char>>
    decreases bs.len(),
{
    if bs.len() == 0 {
        None
    } else if first_broker_error(bs.drop_last()) is Some {
        first_broker_error(bs.drop_last())
    } else {
        broker_glob_error(texts(bs.last().patterns@))
    }
}

/// No broker pattern holds a backslash.
pub open spec fn brokers_portable(bs: Seq<BrokerCookiePattern>) -> bool {
    forall|i: int| 0 <= i < bs.len() ==> all_portable(#[trigger] texts(bs[i].patterns@))
}

/// `d1` and `d2` name the same domain once a leading dot is dropped from one
/// of them, or one ends with the other's dotted form.
pub open spec fn dot_prefix_match(d1: Seq<char>, d2: Seq<char>) -> bool {
    if starts_with(d2, "."@) {
        d1 == d2.drop_first() || ends_with(d1, d2)
    } else if starts_with(d1, "."@) {
        d2 == d1.drop_first() || ends_with(d2, d1)
    } else {
        false
    }
}

/// One domain is a subdomain of the other.
pub open spec fn subdomain_match(d1: Seq<char>, d2: Seq<char>) -> bool {
    ends_with(d1, "."@ + d2) || ends_with(d2, "."@ + d1)
}

/// A cookie domain matches one broker domain: exactly, with dot-prefix
/// handling, or as a subdomain either way.
pub open spec fn domain_match(cookie_domain: Seq<char>, broker_domain: Seq<char>) -> bool {
    cookie_domain == broker_domain || dot_prefix_match(cookie_domain, broker_domain)
        || subdomain_match(cookie_domain, broker_domain)
}

/// A cookie domain matches some broker domain.
pub open spec fn domain_matches_any(cookie_domain: Seq<char>, domains: Seq<Seq<char>>) -> bool {
    exists|i: int| 0 <= i < domains.len() && domain_match(cookie_domain, #[trigger] domains[i])
}

/// A dot-prefixed cookie domain (`.spokeo.com`) matches every broker
/// domain without a leading dot that ends with it (`www.spokeo.com`), and
/// its undotted form (`spokeo.com`).
pub proof fn law_dotted_cookie_domain_matches(cookie_domain: Seq<char>, domains: Seq<Seq<char>>, i: int)
    requires
        0 <= i < domains.len(),
        starts_with(cookie_domain, "."@),
        !starts_with(domains[i], "."@),
        ends_with(domains[i], cookie_domain) || domains[i] == cookie_domain.drop_first(),
    ensures
        domain_matches_any(cookie_domain, domains),
{
    assert(domain_match(cookie_domain, domains[i]));
}

/// A cookie domain matches a dot-prefixed broker domain (`.spokeo.com`)
/// when it ends with it (`www.spokeo.com`) or is its undotted form.
pub proof fn law_dotted_broker_domain_matches(cookie_domain: Seq<char>, domains: Seq<Seq<char>>, i: int)
    requires
        0 <= i < domains.len(),
        starts_with(domains[i], "."@),
        ends_with(cookie_domain, domains[i]) || cookie_domain == domains[i].drop_first(),
    ensures
        domain_matches_any(cookie_domain, domains),
{
    assert(domain_match(cookie_domain, domains[i]));
}

/// A cookie domain matches a broker domain it equals, and one it is a
/// subdomain of (or that is a subdomain of it) across a dot.
pub proof fn law_same_or_subdomain_matches(cookie_domain: Seq<char>, domains: Seq<Seq<char>>, i: int)
    requires
        0 <= i < domains.len(),
        cookie_domain == domains[i] || ends_with(cookie_domain, "."@ + domains[i]) || ends_with(
            domains[i],
            "."@ + cookie_domain,
        ),
    ensures
        domain_matches_any(cookie_domain, domains),
{
    assert(domain_match(cookie_domain, domains[i]));
}

/// One broker's entry: its identifier, glob patterns and domains.
pub type MatcherEntry = (Seq<char>, Seq<Seq<char>>, Seq<Seq<char>>);

/// A cookie with this name and domain belongs to the broker of `e`.
pub open spec fn entry_matches(e: MatcherEntry, name: Seq<char>, domain: Seq<char>) -> bool {
    glob_set_match(e.1, name) && domain_matches_any(domain, e.2)
}

/// The broker a cookie belongs to: the first entry whose patterns match the
/// name and whose domains match the domain.
pub open spec fn first_matching_broker(es: Seq<MatcherEntry>, name: Seq<char>, domain: Seq<char>) -> Option<Seq<char>>
    decreases es.len(),
{
    if es.len() == 0 {
        None
    } else if first_matching_broker(es.drop_last(), name, domain) is Some {
        first_matching_broker(es.drop_last(), name, domain)
    } else if entry_matches(es.last(), name, domain) {
        Some(es.last().0)
    } else {
        None
    }
}

/// No pattern of any entry holds a backslash.
pub open spec fn entries_portable(es: Seq<MatcherEntry>) -> bool {
    forall|i: int| 0 <= i < es.len() ==> all_portable(#[trigger] es[i].1)
}

/// The text of an optional string.
pub open spec fn opt_text(r: Option<String>) -> Option<Seq<char>> {
    match r {
        Some(s) => Some(s@),
        None => None,
    }
}

/// `r` is what classifying a cookie with this name and domain against the
/// entries `es` may give: the first matching broker when the name and the
/// patterns are portable, and in any case a broker whose domains match.
pub open spec fn classified(es: Seq<MatcherEntry>, name: Seq<char>, domain: Seq<char>, r: Option<Seq<char>>) -> bool {
    &&& portable(name) && entries_portable(es) ==> r == first_matching_broker(es, name, domain)
    &&& r matches Some(id) ==> exists|i: int|
        0 <= i < es.len() && #[trigger] es[i].0 == id && domain_matches_any(domain, es[i].2)
}

/// Whether `domain1` and `domain2` match with dot-prefix handling.
fn domains_match_with_dot_prefix(domain1: &str, domain2: &str) -> (r: bool)
    ensures
        r == dot_prefix_match(domain1@, domain2@),
{
    proof {
        reveal_strlit(".");
    }
    if str_starts_with(domain2, ".") {
        let tail = drop_first_char(domain2);
        str_eq(domain1, tail.as_str()) || str_ends_with(domain1, domain2)
    } else if str_starts_with(domain1, ".") {
        let tail = drop_first_char(domain1);
        str_eq(domain2, tail.as_str()) || str_ends_with(domain2, domain1)
    } else {
        false
    }
}

/// `s` without its first character.
fn drop_first_char(s: &str) -> (r: String)
    requires
        s@.len() > 0,
    ensures
        r@ == s@.drop_first(),
{
    let c = crate::text::to_chars(s);
    let mut out: Vec<char> = Vec::new();
    let mut i: usize = 1;
    while i < c.len()
        invariant
            1 <= i <= c@.len(),
            c@ == s@,
            out@ == c@.subrange(1, i as int),
        decreases c@.len() - i,
    {
        out.push(c[i]);
        i += 1;
        assert(out@ =~= c@.subrange(1, i as int));
    }
    assert(c@.subrange(1, c@.len() as int) =~= s@.drop_first());
    crate::text::string_from_chars(&out)
}

/// Whether one domain is a subdomain of the other.
fn is_subdomain(domain1: &str, domain2: &str) -> (r: bool)
    ensures
        r == subdomain_match(domain1@, domain2@),
{
    let d2 = concat_strs(".", domain2);
    let d1 = concat_strs(".", domain1);
    str_ends_with(domain1, d2.as_str()) || str_ends_with(domain2, d1.as_str())
}

/// Whether a cookie domain matches any of the broker domains.
pub fn domain_matches(cookie_domain: &str, broker_domains: &Vec<String>) -> (r: bool)
    ensures
        r == domain_matches_any(cookie_domain@, texts(broker_domains@)),
{
    let mut i: usize = 0;
    while i < broker_domains.len()
        invariant
            i <= broker_domains@.len(),
            forall|j: int| 0 <= j < i ==> !domain_match(cookie_domain@, #[trigger] texts(broker_domains@)[j]),
        decreases broker_domains@.len() - i,
    {
        let b = broker_domains[i].as_str();
        if str_eq(cookie_domain, b) || domains_match_with_dot_prefix(cookie_domain, b)
            || is_subdomain(cookie_domain, b) {
            assert(domain_match(cookie_domain@, texts(broker_domains@)[i as int]));
            return true;
        }
        assert(!domain_match(cookie_domain@, texts(broker_domains@)[i as int]));
        i += 1;
    }
    false
}

/// Matches cookies against the cookie patterns of brokers.
pub struct CookieMatcher {
    patterns: Vec<(String, globset::GlobSet, Vec<String>)>,
}

/// The entry a compiled broker pattern stands for.
pub open spec fn entry_of(p: (String, globset::GlobSet, Vec<String>)) -> MatcherEntry {
    (p.0@, glob_set_patterns(p.1), texts(p.2@))
}

/// The entry a broker's cookie pattern gives.
pub open spec fn entry_for(b: BrokerCookiePattern) -> MatcherEntry {
    (b.broker_id@, texts(b.patterns@), texts(b.domains@))
}

impl View for CookieMatcher {
    type V = Seq<MatcherEntry>;

    closed spec fn view(&self) -> Seq<MatcherEntry> {
        self.patterns@.map_values(|p: (String, globset::GlobSet, Vec<String>)| entry_of(p))
    }
}

impl CookieMatcher {
    /// Compiles the patterns of each broker into one glob set, broker by
    /// broker. Fails with a parse error on the first pattern that does not
    /// parse, or on the first broker whose set does not build.
    pub fn new(broker_patterns: Vec<BrokerCookiePattern>) -> (r: Result<Self, CookieError>)
        requires
            forall|i: int|
                0 <= i < broker_patterns@.len() ==> patterns_size(texts(#[trigger] broker_patterns@[i].patterns@))
                    < 0x7fff_0000,
        ensures
            r matches Ok(m) ==> m@ == broker_patterns@.map_values(|b: BrokerCookiePattern| entry_for(b)),
            r is Ok || r matches Err(CookieError::ParseError(_)),
            brokers_portable(broker_patterns@) ==> (r is Ok <==> first_broker_error(broker_patterns@) is None),
            brokers_portable(broker_patterns@) ==> (first_broker_error(broker_patterns@) matches Some(t)
                ==> (r matches Err(CookieError::ParseError(e)) && e@ == t)),
    {
        let ghost all = broker_patterns@;
        let mut patterns: Vec<(String, globset::GlobSet, Vec<String>)> = Vec::new();
        let mut i: usize = 0;
        while i < broker_patterns.len()
            invariant
                all == broker_patterns@,
                i <= all.len(),
                forall|j: int| 0 <= j < all.len() ==> patterns_size(texts(#[trigger] all[j].patterns@)) < 0x7fff_0000,
                brokers_portable(all) ==> first_broker_error(all.take(i as int)) is None,
                patterns@.map_values(|p: (String, globset::GlobSet, Vec<String>)| entry_of(p))
                    == all.take(i as int).map_values(|b: BrokerCookiePattern| entry_for(b)),
            decreases all.len() - i,
        {
            let broker = &broker_patterns[i];
            let ghost t = texts(broker.patterns@);
            assert(patterns_size(texts(all[i as int].patterns@)) < 0x7fff_0000);
            proof {
                assert(all.take(i + 1).drop_last() =~= all.take(i as int));
                assert(all.take(i + 1).last() == all[i as int]);
                if brokers_portable(all) {
                    assert(all_portable(texts(all[i as int].patterns@)));
                }
            }
            let mut builder = new_glob_set_builder();
            let mut k: usize = 0;
            while k < broker.patterns.len()
                invariant
                    all == broker_patterns@,
                    i < all.len(),
                    *broker == all[i as int],
                    t == texts(broker.patterns@),
                    patterns_size(t) < 0x7fff_0000,
                    k <= t.len(),
                    brokers_portable(all) ==> all_portable(t),
                    brokers_portable(all) ==> first_broker_error(all.take(i as int)) is None,
                    brokers_portable(all) ==> first_parse_error(t.take(k as int)) is None,
                    builder_patterns(builder) == t.take(k as int),
                decreases t.len() - k,
            {
                proof {
                    assert(t.take(k + 1).drop_last() =~= t.take(k as int));
                    assert(t.take(k + 1).last() == t[k as int]);
                }
                match parse_glob(broker.patterns[k].as_str()) {
                    Ok(g) => {
                        add_to_builder(&mut builder, g);
                        proof {
                            assert(builder_patterns(builder) =~= t.take(k + 1));
                        }
                    },
                    Err(e) => {
                        proof {
                            if brokers_portable(all) {
                                assert(t[k as int] == broker.patterns@[k as int]@);
                                assert(portable(t[k as int]));
                                assert(first_parse_error(t.take(k + 1)) == glob_parse_error(t[k as int]));
                                lemma_first_parse_error_prefix(t, k as int + 1);
                                assert(broker_glob_error(t) == Some(e@));
                                assert(all.take(i + 1).drop_last() =~= all.take(i as int));
                                assert(all.take(i + 1).last().patterns@ == broker.patterns@);
                                assert(first_broker_error(all.take(i + 1)) == Some(e@));
                                lemma_first_broker_error_prefix(all, i as int + 1);
                            }
                        }
                        return Err(CookieError::ParseError(e));
                    },
                }
                k += 1;
            }
            proof {
                assert(t.take(t.len() as int) =~= t);
            }
            let set = match build_glob_set(&builder) {
                Ok(set) => set,
                Err(e) => {
                    proof {
                        if brokers_portable(all) {
                            lemma_first_broker_error_prefix(all, i as int + 1);
                        }
                    }
                    return Err(CookieError::ParseError(e));
                },
            };
            let entry = (broker.broker_id.clone(), set, clone_strings(&broker.domains));
            let ghost before = patterns@;
            proof {
                assert(entry_of(entry) == entry_for(all[i as int]));
            }
            patterns.push(entry);
            proof {
                let f = |p: (String, globset::GlobSet, Vec<String>)| entry_of(p);
                let g = |b: BrokerCookiePattern| entry_for(b);
                assert(patterns@ == before.push(entry));
                assert(patterns@.map_values(f) =~= before.map_values(f).push(entry_of(entry)));
                assert(all.take(i + 1) =~= all.take(i as int).push(all[i as int]));
                assert(all.take(i + 1).map_values(g) =~= all.take(i as int).map_values(g).push(
                    entry_for(all[i as int]),
                ));
            }
            i += 1;
        }
        assert(all.take(all.len() as int) =~= all);
        Ok(CookieMatcher { patterns })
    }

    /// The broker a cookie belongs to: the first broker (in order) with a
    /// pattern matching the cookie's name and a domain matching its domain.
    pub fn match_cookie(&self, cookie: &Cookie) -> (r: Option<String>)
        ensures
            classified(self@, cookie.name@, cookie.domain@, opt_text(r)),
    {
        let ghost es = self@;
        let ghost exact = portable(cookie.name@) && entries_portable(es);
        let mut i: usize = 0;
        while i < self.patterns.len()
            invariant
                es == self@,
                exact == (portable(cookie.name@) && entries_portable(es)),
                i <= self.patterns@.len(),
                exact ==> first_matching_broker(es.take(i as int), cookie.name@, cookie.domain@) is None,
            decreases self.patterns@.len() - i,
        {
            let (broker_id, name_patterns, domains) = &self.patterns[i];
            proof {
                assert(es.take(i + 1).drop_last() =~= es.take(i as int));
                assert(es.take(i + 1).last() == es[i as int]);
                assert(es[i as int] == entry_of(self.patterns@[i as int]));
                if exact {
                    assert(all_portable(es[i as int].1));
                }
            }
            if glob_set_is_match(name_patterns, cookie.name.as_str()) {
                if domain_matches(cookie.domain.as_str(), domains) {
                    let r = broker_id.clone();
                    proof {
                        if exact {
                            lemma_first_match_extends(es, i as int + 1, cookie.name@, cookie.domain@);
                        }
                        assert(es[i as int].0 == r@);
                    }
                    return Some(r);
                }
            }
            i += 1;
        }
        assert(es.take(es.len() as int) =~= es);
        None
    }

    /// The identifiers of all brokers that have patterns, in order.
    pub fn get_broker_ids(&self) -> (r: Vec<String>)
        ensures
            r@.len() == self@.len(),
            forall|i: int| 0 <= i < r@.len() ==> #[trigger] r@[i]@ == self@[i].0,
    {
        let mut r: Vec<String> = Vec::new();
        let mut i: usize = 0;
        while i < self.patterns.len()
            invariant
                i <= self.patterns@.len(),
                r@.len() == i,
                forall|j: int| 0 <= j < i ==> #[trigger] r@[j]@ == self@[j].0,
            decreases self.patterns@.len() - i,
        {
            r.push(self.patterns[i].0.clone());
            i += 1;
        }
        r
    }
}

/// Copies a list of strings.
fn clone_strings(v: &Vec<String>) -> (r: Vec<String>)
    ensures
        r@ == v@,
{
    let mut r: Vec<String> = Vec::new();
    let mut i: usize = 0;
    while i < v.len()
        invariant
            i <= v@.len(),
            r@ == v@.take(i as int),
        decreases v@.len() - i,
    {
        r.push(v[i].clone());
        i += 1;
        assert(r@ =~= v@.take(i as int));
    }
    assert(v@.take(v@.len() as int) =~= v@);
    r
}

/// An error in a prefix of the patterns is the first error of all of them.
proof fn lemma_first_parse_error_prefix(t: Seq<Seq<char>>, k: int)
    requires
        0 <= k <= t.len(),
        first_parse_error(t.take(k)) is Some,
    ensures
        first_parse_error(t) == first_parse_error(t.take(k)),
    decreases t.len() - k,
{
    if k < t.len() {
        assert(t.take(k + 1).drop_last() =~= t.take(k));
        lemma_first_parse_error_prefix(t, k + 1);
    } else {
        assert(t.take(k) =~= t);
    }
}

/// An error among the first `k` brokers is the first error of all brokers.
proof fn lemma_first_broker_error_prefix(bs: Seq<BrokerCookiePattern>, k: int)
    requires
        0 <= k <= bs.len(),
        first_broker_error(bs.take(k)) is Some,
    ensures
        first_broker_error(bs) == first_broker_error(bs.take(k)),
    decreases bs.len() - k,
{
    if k < bs.len() {
        assert(bs.take(k + 1).drop_last() =~= bs.take(k));
        lemma_first_broker_error_prefix(bs, k + 1);
    } else {
        assert(bs.take(k) =~= bs);
    }
}

/// A match among the first `k` entries is the first match of all entries.
proof fn lemma_first_match_extends(es: Seq<MatcherEntry>, k: int, name: Seq<char>, domain: Seq<char>)
    requires
        0 < k <= es.len(),
        first_matching_broker(es.take(k), name, domain) is Some,
    ensures
        first_matching_broker(es, name, domain) == first_matching_broker(es.take(k), name, domain),
    decreases es.len() - k,
{
    if k < es.len() {
        assert(es.take(k + 1).drop_last() =~= es.take(k));
        lemma_first_match_extends(es, k + 1, name, domain);
    } else {
        assert(es.take(k) =~= es);
    }
}

} // verus!
