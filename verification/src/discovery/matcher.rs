//! The matcher: regexes compiled from the user's PII, and the search of a
//! text for them line by line.

use vstd::prelude::*;
use crate::text::{
    to_chars, string_from_chars, concat_strs, digits, digits_only, lowercase, to_lowercase, utf8_len,
    char_len_utf8, u64_to_string, decimal,
};
use crate::discovery::types::{AddressInfo, ScanConfig, UserPii, PiiMatch, PiiType, pii_type_rank};
use crate::discovery::regexes::{CompiledRegex, regex_escape, escaped, regex_builds, regex_is_match};
use crate::discovery::patterns::{
    parse_date, parse_date_spec, truncate, truncated, mask_ssn, masked_ssn, format_address,
    address_fields, find_first_valid_pair, pick_report_line, report_line, pair_ok, first_pair,
    pair_before,
};
use crate::text::{lines, lines_of, join_with};

verus! {

/// A compiled regex as plain values: its pattern and whether it ignores case.
pub type RegexView = (Seq<char>, bool);

/// What the matcher holds for one address: the address and the regexes of
/// its street, city, state and ZIP code (each when it could be built).
pub struct AddressModel {
    /// The address
    pub info: AddressInfo,
    /// Regex of the street
    pub street: Option<RegexView>,
    /// Regex of the city
    pub city: Option<RegexView>,
    /// Regex of the state
    pub state: Option<RegexView>,
    /// Regex of the ZIP code
    pub zip: Option<RegexView>,
}

/// What a matcher holds: each PII item with the regex(es) it searches with.
pub struct MatcherModel {
    /// Emails and their regexes
    pub emails: Seq<(Seq<char>, RegexView)>,
    /// Phones and their regexes (one per format)
    pub phones: Seq<(Seq<char>, Seq<RegexView>)>,
    /// The SSN and its regex
    pub ssn: Option<(Seq<char>, RegexView)>,
    /// Addresses and the regexes of their parts
    pub addresses: Seq<AddressModel>,
    /// Names and their regexes
    pub names: Seq<(Seq<char>, RegexView)>,
    /// The date of birth and its regex
    pub dob: Option<(Seq<char>, RegexView)>,
}

/// The texts of a list of strings.
pub open spec fn texts(v: Seq<String>) -> Seq<Seq<char>> {
    v.map_values(|s: String| s@)
}

/// The text of an optional string.
pub open spec fn opt_text(o: Option<String>) -> Option<Seq<char>> {
    match o {
        Some(s) => Some(s@),
        None => None,
    }
}

/// The regex searched for an email: the lowercased email, escaped, ignoring
/// case.
pub open spec fn email_regex(e: Seq<char>) -> RegexView {
    (escaped(lowercase(e)), true)
}

/// The emails whose regex builds, each with its regex, in order.
pub open spec fn compiled_emails(es: Seq<Seq<char>>) -> Seq<(Seq<char>, RegexView)>
    decreases es.len(),
{
    if es.len() == 0 {
        Seq::empty()
    } else {
        compiled_emails(es.drop_last()) + if regex_builds(email_regex(es.last()).0, true) {
            seq![(es.last(), email_regex(es.last()))]
        } else {
            Seq::empty()
        }
    }
}

/// The formats searched for a phone with digits `d` (at least ten):
/// `(555) 123-4567`, `555-123-4567`, `555.123.4567` and the bare digits,
/// each bounded by word boundaries.
pub open spec fn phone_formats(d: Seq<char>) -> Seq<Seq<char>> {
    let a = d.subrange(0, 3);
    let b = d.subrange(3, 6);
    let c = d.subrange(6, 10);
    seq![
        "\\("@ + a + "\\)\\s*"@ + b + "-"@ + c + "\\b"@,
        "\\b"@ + a + "-"@ + b + "-"@ + c + "\\b"@,
        "\\b"@ + a + "\\."@ + b + "\\."@ + c + "\\b"@,
        "\\b"@ + d + "\\b"@,
    ]
}

/// The patterns of `ps` that build (case-sensitive), in order.
pub open spec fn building(ps: Seq<Seq<char>>) -> Seq<RegexView>
    decreases ps.len(),
{
    if ps.len() == 0 {
        Seq::empty()
    } else {
        building(ps.drop_last()) + if regex_builds(ps.last(), false) {
            seq![(ps.last(), false)]
        } else {
            Seq::empty()
        }
    }
}

/// The phones with at least ten digits and some format that builds, each
/// with the formats that build, in order.
pub open spec fn compiled_phones(ps: Seq<Seq<char>>) -> Seq<(Seq<char>, Seq<RegexView>)>
    decreases ps.len(),
{
    if ps.len() == 0 {
        Seq::empty()
    } else {
        let p = ps.last();
        let d = digits(p);
        compiled_phones(ps.drop_last()) + if d.len() >= 10 && building(phone_formats(d)).len() > 0 {
            seq![(p, building(phone_formats(d)))]
        } else {
            Seq::empty()
        }
    }
}

/// The regex of the dotted form of a phone number with digits `d`
/// (`555.123.4567`), dots taken literally, within word boundaries.
pub open spec fn dotted_phone_regex(d: Seq<char>) -> Seq<char> {
    "\\b"@ + d.subrange(0, 3) + "\\."@ + d.subrange(3, 6) + "\\."@ + d.subrange(6, 10) + "\\b"@
}

/// The regex of the dashed form of a phone number (`555-123-4567`).
pub open spec fn dashed_phone_regex(d: Seq<char>) -> Seq<char> {
    "\\b"@ + d.subrange(0, 3) + "-"@ + d.subrange(3, 6) + "-"@ + d.subrange(6, 10) + "\\b"@
}

/// The regex of the parenthesised form (`(555) 123-4567`, any spacing).
pub open spec fn parenthesised_phone_regex(d: Seq<char>) -> Seq<char> {
    "\\("@ + d.subrange(0, 3) + "\\)\\s*"@ + d.subrange(3, 6) + "-"@ + d.subrange(6, 10) + "\\b"@
}

/// A phone number is searched in four forms: parenthesised, dashed,
/// dotted and as bare digits, each its own pattern.
pub proof fn law_phone_formats_cover_all_forms(d: Seq<char>)
    requires
        d.len() >= 10,
    ensures
        phone_formats(d).len() == 4,
        phone_formats(d).contains(parenthesised_phone_regex(d)),
        phone_formats(d).contains(dashed_phone_regex(d)),
        phone_formats(d).contains(dotted_phone_regex(d)),
        phone_formats(d).contains("\\b"@ + d + "\\b"@),
{
    assert(phone_formats(d)[0] == parenthesised_phone_regex(d));
    assert(phone_formats(d)[1] == dashed_phone_regex(d));
    assert(phone_formats(d)[2] == dotted_phone_regex(d));
    assert(phone_formats(d)[3] == "\\b"@ + d + "\\b"@);
}

/// A pattern among `ps` that builds is among the patterns that build.
proof fn lemma_building_keeps(ps: Seq<Seq<char>>, x: Seq<char>)
    requires
        ps.contains(x),
        regex_builds(x, false),
    ensures
        building(ps).contains((x, false)),
    decreases ps.len(),
{
    let i = choose|i: int| 0 <= i < ps.len() && ps[i] == x;
    if i == ps.len() - 1 {
        let b = building(ps);
        assert(b[b.len() - 1] == (x, false));
    } else {
        assert(ps.drop_last()[i] == x);
        lemma_building_keeps(ps.drop_last(), x);
        let j = choose|j: int| 0 <= j < building(ps.drop_last()).len() && building(ps.drop_last())[j] == (x, false);
        assert(building(ps)[j] == (x, false));
    }
}

/// Every phone with at least ten digits is compiled with each of its
/// forms whose regex builds: in particular its dotted form, so a dotted
/// number is searched for.
pub proof fn law_phone_compiled_with_dotted_form(ps: Seq<Seq<char>>, k: int)
    requires
        0 <= k < ps.len(),
        digits(ps[k]).len() >= 10,
        regex_builds(dotted_phone_regex(digits(ps[k])), false),
    ensures
        exists|j: int|
            0 <= j < compiled_phones(ps).len() && (#[trigger] compiled_phones(ps)[j]).0 == ps[k]
                && compiled_phones(ps)[j].1.contains((dotted_phone_regex(digits(ps[k])), false)),
    decreases ps.len(),
{
    let d = digits(ps[k]);
    law_phone_formats_cover_all_forms(d);
    lemma_building_keeps(phone_formats(d), dotted_phone_regex(d));
    if k == ps.len() - 1 {
        let c = compiled_phones(ps);
        assert(c[c.len() - 1] == (ps[k], building(phone_formats(d))));
    } else {
        assert(ps.drop_last()[k] == ps[k]);
        law_phone_compiled_with_dotted_form(ps.drop_last(), k);
        let j = choose|j: int|
            0 <= j < compiled_phones(ps.drop_last()).len() && (#[trigger] compiled_phones(ps.drop_last())[j]).0 == ps[k]
                && compiled_phones(ps.drop_last())[j].1.contains((dotted_phone_regex(d), false));
        assert(compiled_phones(ps)[j] == compiled_phones(ps.drop_last())[j]);
    }
}

/// A matcher built for phones compiles the dotted form of every phone the
/// user gave (with at least ten digits, its regex building).
pub proof fn law_matcher_searches_dotted_phones(pii: UserPii, config: ScanConfig, k: int)
    requires
        config.scan_phones,
        0 <= k < pii.phones@.len(),
        digits(pii.phones@[k]@).len() >= 10,
        regex_builds(dotted_phone_regex(digits(pii.phones@[k]@)), false),
    ensures
        exists|j: int|
            0 <= j < model_of(pii, config).phones.len() && (#[trigger] model_of(pii, config).phones[j]).0
                == pii.phones@[k]@ && model_of(pii, config).phones[j].1.contains(
                (dotted_phone_regex(digits(pii.phones@[k]@)), false),
            ),
{
    let ps = texts(pii.phones@);
    assert(ps[k] == pii.phones@[k]@);
    law_phone_compiled_with_dotted_form(ps, k);
    assert(model_of(pii, config).phones == compiled_phones(ps));
    let j = choose|j: int|
        0 <= j < compiled_phones(ps).len() && (#[trigger] compiled_phones(ps)[j]).0 == ps[k]
            && compiled_phones(ps)[j].1.contains((dotted_phone_regex(digits(ps[k])), false));
    assert(model_of(pii, config).phones[j] == compiled_phones(ps)[j]);
}

/// The pattern of an SSN with nine digits `d`: the three groups, optionally
/// separated by a hyphen or a space, within word boundaries.
pub open spec fn ssn_regex_pattern(d: Seq<char>) -> Seq<char> {
    "\\b"@ + d.subrange(0, 3) + "[-\\s]?"@ + d.subrange(3, 5) + "[-\\s]?"@ + d.subrange(5, 9)
        + "\\b"@
}

/// The SSN with its regex, when it has nine digits and the regex builds.
pub open spec fn compiled_ssn(s: Option<Seq<char>>) -> Option<(Seq<char>, RegexView)> {
    match s {
        Some(x) => if digits(x).len() == 9 && regex_builds(ssn_regex_pattern(digits(x)), false) {
            Some((x, (ssn_regex_pattern(digits(x)), false)))
        } else {
            None
        },
        None => None,
    }
}

/// The regex of an address part or a name: at least `min` bytes long, the
/// text escaped after a word boundary (and before one when `word_end`),
/// ignoring case, when it builds.
pub open spec fn field_regex(s: Option<Seq<char>>, min: nat, word_end: bool) -> Option<RegexView> {
    match s {
        Some(x) => {
            let pat = "\\b"@ + escaped(x) + if word_end { "\\b"@ } else { Seq::empty() };
            if utf8_len(x) >= min && regex_builds(pat, true) {
                Some((pat, true))
            } else {
                None
            }
        },
        None => None,
    }
}

/// The regex of a ZIP code: its digits (at least five) within word
/// boundaries, when it builds.
pub open spec fn zip_regex(s: Option<Seq<char>>) -> Option<RegexView> {
    match s {
        Some(x) => {
            let pat = "\\b"@ + digits(x) + "\\b"@;
            if digits(x).len() >= 5 && regex_builds(pat, false) {
                Some((pat, false))
            } else {
                None
            }
        },
        None => None,
    }
}

/// The regexes of an address's parts.
pub open spec fn address_model(a: AddressInfo) -> AddressModel {
    AddressModel {
        info: a,
        street: field_regex(opt_text(a.street), 5, false),
        city: field_regex(opt_text(a.city), 3, true),
        state: field_regex(opt_text(a.state), 2, true),
        zip: zip_regex(opt_text(a.zip)),
    }
}

/// The address has a regex for some part.
pub open spec fn has_some_regex(m: AddressModel) -> bool {
    m.street is Some || m.city is Some || m.state is Some || m.zip is Some
}

/// The addresses with a regex for some part, in order.
pub open spec fn compiled_addresses(s: Seq<AddressInfo>) -> Seq<AddressModel>
    decreases s.len(),
{
    if s.len() == 0 {
        Seq::empty()
    } else {
        compiled_addresses(s.drop_last()) + if has_some_regex(address_model(s.last())) {
            seq![address_model(s.last())]
        } else {
            Seq::empty()
        }
    }
}

/// The names of at least three bytes whose regex builds, each with its
/// regex, in order.
pub open spec fn compiled_names(ns: Seq<Seq<char>>) -> Seq<(Seq<char>, RegexView)>
    decreases ns.len(),
{
    if ns.len() == 0 {
        Seq::empty()
    } else {
        compiled_names(ns.drop_last()) + match field_regex(Some(ns.last()), 3, true) {
            Some(rv) => seq![(ns.last(), rv)],
            None => Seq::empty(),
        }
    }
}

/// A number written with at least two digits (zero-padded).
pub open spec fn pad2(n: nat) -> Seq<char> {
    if n < 10 {
        "0"@ + decimal(n)
    } else {
        decimal(n)
    }
}

/// The pattern of a date of birth: `MM/DD/YYYY`, `MM-DD-YYYY` or
/// `YYYY-MM-DD`, each within word boundaries.
pub open spec fn dob_regex_pattern(m: nat, d: nat, y: nat) -> Seq<char> {
    "\\b"@ + pad2(m) + "/"@ + pad2(d) + "/"@ + decimal(y) + "\\b|\\b"@ + pad2(m) + "-"@ + pad2(d)
        + "-"@ + decimal(y) + "\\b|\\b"@ + decimal(y) + "-"@ + pad2(m) + "-"@ + pad2(d) + "\\b"@
}

/// The date of birth with its regex, when it parses and the regex builds.
pub open spec fn compiled_dob(s: Option<Seq<char>>) -> Option<(Seq<char>, RegexView)> {
    match s {
        Some(x) => match parse_date_spec(x) {
            Some((m, d, y)) => if regex_builds(dob_regex_pattern(m as nat, d as nat, y as nat), false) {
                Some((x, (dob_regex_pattern(m as nat, d as nat, y as nat), false)))
            } else {
                None
            },
            None => None,
        },
        None => None,
    }
}

/// What `Matcher::new` compiles from the user's PII under a configuration.
pub open spec fn model_of(pii: UserPii, config: ScanConfig) -> MatcherModel {
    MatcherModel {
        emails: if config.scan_emails { compiled_emails(texts(pii.emails@)) } else { Seq::empty() },
        phones: if config.scan_phones { compiled_phones(texts(pii.phones@)) } else { Seq::empty() },
        ssn: if config.scan_ssn { compiled_ssn(opt_text(pii.ssn)) } else { None },
        addresses: if config.scan_addresses { compiled_addresses(pii.addresses@) } else { Seq::empty() },
        names: if config.scan_names { compiled_names(texts(pii.names@)) } else { Seq::empty() },
        dob: if config.scan_dob { compiled_dob(opt_text(pii.date_of_birth)) } else { None },
    }
}

/// Pattern matcher for finding the user's own PII in text.
pub struct Matcher {
    email_patterns: Vec<(String, CompiledRegex)>,
    phone_patterns: Vec<(String, Vec<CompiledRegex>)>,
    ssn_pattern: Option<(String, CompiledRegex)>,
    address_patterns: Vec<AddressPattern>,
    name_patterns: Vec<(String, CompiledRegex)>,
    dob_pattern: Option<(String, CompiledRegex)>,
    config: ScanConfig,
}

/// An address with the regexes of its parts.
struct AddressPattern {
    info: AddressInfo,
    street_regex: Option<CompiledRegex>,
    city_regex: Option<CompiledRegex>,
    state_regex: Option<CompiledRegex>,
    zip_regex: Option<CompiledRegex>,
}

/// The plain values of an optional compiled regex.
pub open spec fn opt_rv(o: Option<CompiledRegex>) -> Option<RegexView> {
    match o {
        Some(r) => Some(r@),
        None => None,
    }
}

/// The plain values of a list of compiled regexes.
pub open spec fn rvs(v: Seq<CompiledRegex>) -> Seq<RegexView> {
    v.map_values(|r: CompiledRegex| r@)
}

/// The plain values of a list of items with their regexes.
pub open spec fn item_rvs(v: Seq<(String, CompiledRegex)>) -> Seq<(Seq<char>, RegexView)> {
    v.map_values(|p: (String, CompiledRegex)| (p.0@, p.1@))
}

/// The plain values of an optional item with its regex.
pub open spec fn opt_item_rv(o: Option<(String, CompiledRegex)>) -> Option<(Seq<char>, RegexView)> {
    match o {
        Some(p) => Some((p.0@, p.1@)),
        None => None,
    }
}

/// The plain values of an address with its regexes.
spec fn address_view(p: AddressPattern) -> AddressModel {
    AddressModel {
        info: p.info,
        street: opt_rv(p.street_regex),
        city: opt_rv(p.city_regex),
        state: opt_rv(p.state_regex),
        zip: opt_rv(p.zip_regex),
    }
}

impl Matcher {
    /// What the matcher holds.
    pub closed spec fn model(self) -> MatcherModel {
        MatcherModel {
            emails: item_rvs(self.email_patterns@),
            phones: self.phone_patterns@.map_values(
                |p: (String, Vec<CompiledRegex>)| (p.0@, rvs(p.1@)),
            ),
            ssn: opt_item_rv(self.ssn_pattern),
            addresses: self.address_patterns@.map_values(|p: AddressPattern| address_view(p)),
            names: item_rvs(self.name_patterns@),
            dob: opt_item_rv(self.dob_pattern),
        }
    }
}

/// Whether the UTF-8 encoding of `s` takes at least `min` bytes.
fn utf8_len_at_least(s: &str, min: usize) -> (r: bool)
    requires
        min < usize::MAX - 4,
    ensures
        r == (utf8_len(s@) >= min),
{
    let c = to_chars(s);
    let mut n: usize = 0;
    let mut i: usize = 0;
    while i < c.len() && n < min
        invariant
            c@ == s@,
            i <= c@.len(),
            n == utf8_len(c@.take(i as int)),
            n < min + 4,
            min < usize::MAX - 4,
        decreases c@.len() - i,
    {
        proof {
            assert(c@.take(i + 1).drop_last() =~= c@.take(i as int));
        }
        n = n + char_len_utf8(c[i]);
        i += 1;
    }
    proof {
        if n >= min {
            crate::discovery::patterns::lemma_utf8_len_prefix_monotone(c@, i as int);
        } else {
            assert(c@.take(i as int) =~= c@);
        }
    }
    n >= min
}

/// The characters `a..b` of `c` as a string.
fn slice_string(c: &Vec<char>, a: usize, b: usize) -> (r: String)
    requires
        a <= b <= c@.len(),
    ensures
        r@ == c@.subrange(a as int, b as int),
{
    let mut out: Vec<char> = Vec::new();
    let mut i: usize = a;
    while i < b
        invariant
            a <= i <= b <= c@.len(),
            out@ == c@.subrange(a as int, i as int),
        decreases b - i,
    {
        out.push(c[i]);
        i += 1;
        assert(out@ =~= c@.subrange(a as int, i as int));
    }
    string_from_chars(&out)
}

/// Concatenates a list of pieces.
fn join_all(parts: &Vec<String>) -> (r: String)
    ensures
        r@ == concat_all(texts(parts@)),
{
    let mut r = String::new();
    let mut i: usize = 0;
    while i < parts.len()
        invariant
            i <= parts@.len(),
            r@ == concat_all(texts(parts@).take(i as int)),
        decreases parts@.len() - i,
    {
        proof {
            assert(texts(parts@).take(i + 1).drop_last() =~= texts(parts@).take(i as int));
        }
        r = concat_strs(r.as_str(), parts[i].as_str());
        i += 1;
    }
    assert(texts(parts@).take(parts@.len() as int) =~= texts(parts@));
    r
}

/// The pieces concatenated in order.
pub open spec fn concat_all(s: Seq<Seq<char>>) -> Seq<char>
    decreases s.len(),
{
    if s.len() == 0 {
        Seq::empty()
    } else {
        concat_all(s.drop_last()) + s.last()
    }
}

/// Compiles the email regexes.
fn compile_emails(emails: &Vec<String>) -> (r: Vec<(String, CompiledRegex)>)
    ensures
        item_rvs(r@) == compiled_emails(texts(emails@)),
{
    let mut r: Vec<(String, CompiledRegex)> = Vec::new();
    let mut i: usize = 0;
    while i < emails.len()
        invariant
            i <= emails@.len(),
            item_rvs(r@) == compiled_emails(texts(emails@).take(i as int)),
        decreases emails@.len() - i,
    {
        let ghost t = texts(emails@);
        proof {
            assert(t.take(i + 1).drop_last() =~= t.take(i as int));
            assert(t.take(i + 1).last() == emails@[i as int]@);
        }
        let lower = to_lowercase(emails[i].as_str());
        let escaped_email = regex_escape(lower.as_str());
        let ghost r0 = r@;
        match CompiledRegex::build(escaped_email.as_str(), true) {
            Some(re) => {
                r.push((emails[i].clone(), re));
                proof {
                    assert(item_rvs(r@) =~= item_rvs(r0).push((emails@[i as int]@, email_regex(emails@[i as int]@))));
                }
            },
            None => {
                assert(item_rvs(r@) =~= item_rvs(r0));
            },
        }
        i += 1;
    }
    assert(texts(emails@).take(emails@.len() as int) =~= texts(emails@));
    r
}

/// The format patterns of a phone with the digits `d`.
fn phone_format_strings(d: &Vec<char>) -> (r: Vec<String>)
    requires
        d@.len() >= 10,
    ensures
        texts(r@) == phone_formats(d@),
{
    let a = slice_string(d, 0, 3);
    let b = slice_string(d, 3, 6);
    let c = slice_string(d, 6, 10);
    let all = slice_string(d, 0, d.len());
    assert(all@ =~= d@);
    let p1 = join_all(&vec!["\\(".to_string(), a.clone(), "\\)\\s*".to_string(), b.clone(), "-".to_string(), c.clone(), "\\b".to_string()]);
    let p2 = join_all(&vec!["\\b".to_string(), a.clone(), "-".to_string(), b.clone(), "-".to_string(), c.clone(), "\\b".to_string()]);
    let p3 = join_all(&vec!["\\b".to_string(), a.clone(), "\\.".to_string(), b.clone(), "\\.".to_string(), c.clone(), "\\b".to_string()]);
    let p4 = join_all(&vec!["\\b".to_string(), all, "\\b".to_string()]);
    proof {
        reveal_with_fuel(concat_all, 8);
    }
    let r = vec![p1, p2, p3, p4];
    assert(texts(r@) =~= phone_formats(d@));
    r
}

/// Compiles the patterns that build (case-sensitive), in order.
fn compile_building(pats: &Vec<String>) -> (r: Vec<CompiledRegex>)
    ensures
        rvs(r@) == building(texts(pats@)),
{
    let mut r: Vec<CompiledRegex> = Vec::new();
    let mut i: usize = 0;
    while i < pats.len()
        invariant
            i <= pats@.len(),
            rvs(r@) == building(texts(pats@).take(i as int)),
        decreases pats@.len() - i,
    {
        let ghost t = texts(pats@);
        proof {
            assert(t.take(i + 1).drop_last() =~= t.take(i as int));
            assert(t.take(i + 1).last() == pats@[i as int]@);
        }
        let ghost r0 = r@;
        match CompiledRegex::build(pats[i].as_str(), false) {
            Some(re) => {
                r.push(re);
                proof {
                    assert(rvs(r@) =~= rvs(r0).push((pats@[i as int]@, false)));
                }
            },
            None => {
                assert(rvs(r@) =~= rvs(r0));
            },
        }
        i += 1;
    }
    assert(texts(pats@).take(pats@.len() as int) =~= texts(pats@));
    r
}

/// The plain values of a list of phones with their regexes.
pub open spec fn phone_rvs(v: Seq<(String, Vec<CompiledRegex>)>) -> Seq<(Seq<char>, Seq<RegexView>)> {
    v.map_values(|p: (String, Vec<CompiledRegex>)| (p.0@, rvs(p.1@)))
}

/// Compiles the phone regexes.
fn compile_phones(phones: &Vec<String>) -> (r: Vec<(String, Vec<CompiledRegex>)>)
    ensures
        phone_rvs(r@) == compiled_phones(texts(phones@)),
{
    let mut r: Vec<(String, Vec<CompiledRegex>)> = Vec::new();
    let mut i: usize = 0;
    while i < phones.len()
        invariant
            i <= phones@.len(),
            phone_rvs(r@) == compiled_phones(texts(phones@).take(i as int)),
        decreases phones@.len() - i,
    {
        let ghost t = texts(phones@);
        proof {
            assert(t.take(i + 1).drop_last() =~= t.take(i as int));
            assert(t.take(i + 1).last() == phones@[i as int]@);
        }
        let ghost r0 = r@;
        let normalized = digits_only(phones[i].as_str());
        let d = to_chars(normalized.as_str());
        if d.len() >= 10 {
            let pats = phone_format_strings(&d);
            let regexes = compile_building(&pats);
            if regexes.len() > 0 {
                r.push((phones[i].clone(), regexes));
                proof {
                    assert(phone_rvs(r@) =~= phone_rvs(r0).push((phones@[i as int]@, building(phone_formats(d@)))));
                }
            } else {
                assert(phone_rvs(r@) =~= phone_rvs(r0));
            }
        } else {
            assert(phone_rvs(r@) =~= phone_rvs(r0));
        }
        i += 1;
    }
    assert(texts(phones@).take(phones@.len() as int) =~= texts(phones@));
    r
}

/// Compiles the SSN regex.
fn compile_ssn(ssn: &Option<String>) -> (r: Option<(String, CompiledRegex)>)
    ensures
        opt_item_rv(r) == compiled_ssn(opt_text(*ssn)),
{
    match ssn {
        Some(s) => {
            let normalized = digits_only(s.as_str());
            let d = to_chars(normalized.as_str());
            if d.len() == 9 {
                let a = slice_string(&d, 0, 3);
                let b = slice_string(&d, 3, 5);
                let c = slice_string(&d, 5, 9);
                let pat = join_all(&vec!["\\b".to_string(), a, "[-\\s]?".to_string(), b, "[-\\s]?".to_string(), c, "\\b".to_string()]);
                proof {
                    reveal_with_fuel(concat_all, 8);
                }
                assert(pat@ == ssn_regex_pattern(d@));
                match CompiledRegex::build(pat.as_str(), false) {
                    Some(re) => Some((s.clone(), re)),
                    None => None,
                }
            } else {
                None
            }
        },
        None => None,
    }
}

/// Compiles the regex of an address part or a name.
fn compile_field(s: &Option<String>, min: usize, word_end: bool) -> (r: Option<CompiledRegex>)
    requires
        min < 10,
    ensures
        opt_rv(r) == field_regex(opt_text(*s), min as nat, word_end),
{
    match s {
        Some(x) => {
            if !utf8_len_at_least(x.as_str(), min) {
                return None;
            }
            let e = regex_escape(x.as_str());
            let a = concat_strs("\\b", e.as_str());
            let pat = if word_end { concat_strs(a.as_str(), "\\b") } else { a };
            proof {
                if !word_end {
                    assert(pat@ =~= "\\b"@ + escaped(x@) + Seq::<char>::empty());
                }
            }
            CompiledRegex::build(pat.as_str(), true)
        },
        None => None,
    }
}

/// Compiles the regex of a ZIP code.
fn compile_zip(z: &Option<String>) -> (r: Option<CompiledRegex>)
    ensures
        opt_rv(r) == zip_regex(opt_text(*z)),
{
    match z {
        Some(x) => {
            let d = digits_only(x.as_str());
            let dc = to_chars(d.as_str());
            if dc.len() < 5 {
                return None;
            }
            let a = concat_strs("\\b", d.as_str());
            let pat = concat_strs(a.as_str(), "\\b");
            CompiledRegex::build(pat.as_str(), false)
        },
        None => None,
    }
}

/// Compiles the address regexes.
fn compile_addresses(addresses: &Vec<AddressInfo>) -> (r: Vec<AddressPattern>)
    ensures
        r@.map_values(|p: AddressPattern| address_view(p)) == compiled_addresses(addresses@),
{
    let mut r: Vec<AddressPattern> = Vec::new();
    let mut i: usize = 0;
    while i < addresses.len()
        invariant
            i <= addresses@.len(),
            r@.map_values(|p: AddressPattern| address_view(p)) == compiled_addresses(addresses@.take(i as int)),
        decreases addresses@.len() - i,
    {
        let addr = &addresses[i];
        proof {
            assert(addresses@.take(i + 1).drop_last() =~= addresses@.take(i as int));
            assert(addresses@.take(i + 1).last() == *addr);
        }
        let street_regex = compile_field(&addr.street, 5, false);
        let city_regex = compile_field(&addr.city, 3, true);
        let state_regex = compile_field(&addr.state, 2, true);
        let zip_regex = compile_zip(&addr.zip);
        let ghost r0 = r@;
        if street_regex.is_some() || city_regex.is_some() || state_regex.is_some() || zip_regex.is_some() {
            let p = AddressPattern { info: addr.clone(), street_regex, city_regex, state_regex, zip_regex };
            assert(address_view(p) == address_model(*addr));
            r.push(p);
            proof {
                let f = |p: AddressPattern| address_view(p);
                assert(r@.map_values(f) =~= r0.map_values(f).push(address_model(*addr)));
            }
        } else {
            proof {
                let f = |p: AddressPattern| address_view(p);
                assert(r@.map_values(f) =~= r0.map_values(f));
            }
        }
        i += 1;
    }
    assert(addresses@.take(addresses@.len() as int) =~= addresses@);
    r
}

/// Compiles the name regexes.
fn compile_names(names: &Vec<String>) -> (r: Vec<(String, CompiledRegex)>)
    ensures
        item_rvs(r@) == compiled_names(texts(names@)),
{
    let mut r: Vec<(String, CompiledRegex)> = Vec::new();
    let mut i: usize = 0;
    while i < names.len()
        invariant
            i <= names@.len(),
            item_rvs(r@) == compiled_names(texts(names@).take(i as int)),
        decreases names@.len() - i,
    {
        let ghost t = texts(names@);
        proof {
            assert(t.take(i + 1).drop_last() =~= t.take(i as int));
            assert(t.take(i + 1).last() == names@[i as int]@);
        }
        let ghost r0 = r@;
        let name = Some(names[i].clone());
        match compile_field(&name, 3, true) {
            Some(re) => {
                r.push((names[i].clone(), re));
                proof {
                    assert(item_rvs(r@) =~= item_rvs(r0).push((names@[i as int]@, re@)));
                }
            },
            None => {
                assert(item_rvs(r@) =~= item_rvs(r0));
            },
        }
        i += 1;
    }
    assert(texts(names@).take(names@.len() as int) =~= texts(names@));
    r
}

/// A number with at least two digits (zero-padded), as `{:02}` writes it.
fn pad2_string(n: u32) -> (r: String)
    ensures
        r@ == pad2(n as nat),
{
    let d = u64_to_string(n as u64);
    if n < 10 {
        concat_strs("0", d.as_str())
    } else {
        d
    }
}

/// Compiles the date-of-birth regex.
fn compile_dob(dob: &Option<String>) -> (r: Option<(String, CompiledRegex)>)
    ensures
        opt_item_rv(r) == compiled_dob(opt_text(*dob)),
{
    match dob {
        Some(s) => match parse_date(s.as_str()) {
            Some((m, d, y)) => {
                let mm = pad2_string(m);
                let dd = pad2_string(d);
                let yy = u64_to_string(y as u64);
                let pat = join_all(&vec![
                    "\\b".to_string(), mm.clone(), "/".to_string(), dd.clone(), "/".to_string(), yy.clone(),
                    "\\b|\\b".to_string(), mm.clone(), "-".to_string(), dd.clone(), "-".to_string(), yy.clone(),
                    "\\b|\\b".to_string(), yy, "-".to_string(), mm, "-".to_string(), dd, "\\b".to_string(),
                ]);
                proof {
                    reveal_with_fuel(concat_all, 20);
                }
                assert(pat@ == dob_regex_pattern(m as nat, d as nat, y as nat));
                match CompiledRegex::build(pat.as_str(), false) {
                    Some(re) => Some((s.clone(), re)),
                    None => None,
                }
            },
            None => None,
        },
        None => None,
    }
}

impl Matcher {
    /// Compiles the regexes for the user's PII, for the kinds the
    /// configuration enables.
    pub fn new(user_pii: &UserPii, config: &ScanConfig) -> (r: Self)
        ensures
            r.model() == model_of(*user_pii, *config),
    {
        let email_patterns = if config.scan_emails { compile_emails(&user_pii.emails) } else { Vec::new() };
        let phone_patterns = if config.scan_phones { compile_phones(&user_pii.phones) } else { Vec::new() };
        let ssn_pattern = if config.scan_ssn { compile_ssn(&user_pii.ssn) } else { None };
        let address_patterns = if config.scan_addresses {
            compile_addresses(&user_pii.addresses)
        } else {
            Vec::new()
        };
        let name_patterns = if config.scan_names { compile_names(&user_pii.names) } else { Vec::new() };
        let dob_pattern = if config.scan_dob { compile_dob(&user_pii.date_of_birth) } else { None };
        let r = Matcher {
            email_patterns,
            phone_patterns,
            ssn_pattern,
            address_patterns,
            name_patterns,
            dob_pattern,
            config: config.clone(),
        };
        proof {
            assert(item_rvs(Seq::<(String, CompiledRegex)>::empty()) =~= Seq::empty());
            assert(Seq::<(String, Vec<CompiledRegex>)>::empty().map_values(
                |p: (String, Vec<CompiledRegex>)| (p.0@, rvs(p.1@)),
            ) =~= Seq::empty());
            assert(Seq::<AddressPattern>::empty().map_values(|p: AddressPattern| address_view(p)) =~= Seq::empty());
            assert(r.model().phones == phone_rvs(r.phone_patterns@));
        }
        r
    }

    /// Whether the matcher has nothing to search for.
    pub fn is_empty(&self) -> (r: bool)
        ensures
            r == (self.model().emails.len() == 0 && self.model().phones.len() == 0
                && self.model().ssn is None && self.model().addresses.len() == 0
                && self.model().names.len() == 0 && self.model().dob is None),
    {
        self.email_patterns.len() == 0 && self.phone_patterns.len() == 0 && self.ssn_pattern.is_none()
            && self.address_patterns.len() == 0 && self.name_patterns.len() == 0
            && self.dob_pattern.is_none()
    }
}

/// A match as plain values: type, matched value, line number, line content.
pub type MatchView = (PiiType, Seq<char>, nat, Seq<char>);

/// The plain values of a match.
pub open spec fn view_of(m: PiiMatch) -> MatchView {
    (m.pii_type, m.matched_value@, m.line_number as nat, m.line_content@)
}

/// The plain values of a list of matches.
pub open spec fn views_of(v: Seq<PiiMatch>) -> Seq<MatchView> {
    v.map_values(|m: PiiMatch| view_of(m))
}

/// The line content reported with a match: the line cut to 200 bytes.
pub open spec fn shown(line: Seq<char>) -> Seq<char> {
    truncated(line, 200)
}

/// The regex matches the line.
pub open spec fn rv_matches(rv: RegexView, line: Seq<char>) -> bool {
    regex_is_match(rv.0, rv.1, line)
}

/// A match of type `t` for each item whose regex matches the line, in order.
pub open spec fn item_hits(items: Seq<(Seq<char>, RegexView)>, t: PiiType, line: Seq<char>, ln: nat) -> Seq<MatchView>
    decreases items.len(),
{
    if items.len() == 0 {
        Seq::empty()
    } else {
        item_hits(items.drop_last(), t, line, ln) + if rv_matches(items.last().1, line) {
            seq![(t, items.last().0, ln, shown(line))]
        } else {
            Seq::empty()
        }
    }
}

/// Some regex of the list matches the line.
pub open spec fn any_rv_matches(rs: Seq<RegexView>, line: Seq<char>) -> bool {
    exists|i: int| 0 <= i < rs.len() && rv_matches(#[trigger] rs[i], line)
}

/// The first phone (in order) with a format matching the line.
pub open spec fn first_phone(phones: Seq<(Seq<char>, Seq<RegexView>)>, line: Seq<char>) -> Option<Seq<char>>
    decreases phones.len(),
{
    if phones.len() == 0 {
        None
    } else if first_phone(phones.drop_last(), line) is Some {
        first_phone(phones.drop_last(), line)
    } else if any_rv_matches(phones.last().1, line) {
        Some(phones.last().0)
    } else {
        None
    }
}

/// The matches of one optional item of type `t` on a line, its value shown as
/// `value`.
pub open spec fn opt_hit(item: Option<(Seq<char>, RegexView)>, t: PiiType, value: Seq<char>, line: Seq<char>, ln: nat) -> Seq<MatchView> {
    match item {
        Some((o, rv)) => if rv_matches(rv, line) {
            seq![(t, value, ln, shown(line))]
        } else {
            Seq::empty()
        },
        None => Seq::empty(),
    }
}

/// The simple matches on one line, in the order they are looked for:
/// emails, the first matching phone, the SSN (masked), names, the date of
/// birth.
pub open spec fn simple_hits(m: MatcherModel, line: Seq<char>, ln: nat) -> Seq<MatchView> {
    item_hits(m.emails, PiiType::Email, line, ln) + match first_phone(m.phones, line) {
        Some(o) => seq![(PiiType::Phone, o, ln, shown(line))],
        None => Seq::empty(),
    } + opt_hit(
        m.ssn,
        PiiType::Ssn,
        match m.ssn {
            Some((o, _)) => masked_ssn(o),
            None => Seq::empty(),
        },
        line,
        ln,
    ) + item_hits(m.names, PiiType::Name, line, ln) + opt_hit(
        m.dob,
        PiiType::DateOfBirth,
        match m.dob {
            Some((o, _)) => o,
            None => Seq::empty(),
        },
        line,
        ln,
    )
}

/// The first match of type `t` in `s`.
pub open spec fn first_of_type(s: Seq<MatchView>, t: PiiType) -> Option<MatchView>
    decreases s.len(),
{
    if s.len() == 0 {
        None
    } else if first_of_type(s.drop_last(), t) is Some {
        first_of_type(s.drop_last(), t)
    } else if s.last().0 == t {
        Some(s.last())
    } else {
        None
    }
}

/// The lines (0-based) where a part's regex matches, tagged with the part.
pub open spec fn part_lines(rv: Option<RegexView>, ls: Seq<Seq<char>>, tag: &'static str) -> Seq<(usize, &'static str)>
    decreases ls.len(),
{
    if ls.len() == 0 {
        Seq::empty()
    } else {
        part_lines(rv, ls.drop_last(), tag) + match rv {
            Some(r) => if rv_matches(r, ls.last()) {
                seq![((ls.len() - 1) as usize, tag)]
            } else {
                Seq::empty()
            },
            None => Seq::empty(),
        }
    }
}

/// Where an address's parts occur: street lines, then city, state and ZIP
/// lines.
pub open spec fn components(a: AddressModel, ls: Seq<Seq<char>>) -> Seq<(usize, &'static str)> {
    part_lines(a.street, ls, "street") + part_lines(a.city, ls, "city") + part_lines(a.state, ls, "state")
        + part_lines(a.zip, ls, "zip")
}

/// The line (0-based) an address is reported on by proximity: that of the
/// first pair of its parts within five lines that form a valid pair.
pub open spec fn proximity_line(cs: Seq<(usize, &'static str)>) -> Option<usize> {
    if exists|i: int, j: int| pair_ok(cs, 5, i, j) {
        let (i, j) = choose|i: int, j: int| first_pair(cs, 5, i, j);
        Some(report_line(cs[i].0, cs[i].1@, cs[j].0, cs[j].1@))
    } else {
        None
    }
}

/// The first address (index) reported by proximity on line `l`.
pub open spec fn first_proximity_address(addrs: Seq<AddressModel>, ls: Seq<Seq<char>>, l: usize) -> Option<int>
    decreases addrs.len(),
{
    if addrs.len() == 0 {
        None
    } else if first_proximity_address(addrs.drop_last(), ls, l) is Some {
        first_proximity_address(addrs.drop_last(), ls, l)
    } else if proximity_line(components(addrs.last(), ls)) == Some(l) {
        Some(addrs.len() - 1)
    } else {
        None
    }
}

/// The address has only a street to look for.
pub open spec fn street_only(a: AddressModel) -> bool {
    a.city is None && a.state is None && a.zip is None
}

/// The first street-only address (index) whose street matches the line.
pub open spec fn first_street_only_address(addrs: Seq<AddressModel>, line: Seq<char>) -> Option<int>
    decreases addrs.len(),
{
    if addrs.len() == 0 {
        None
    } else if first_street_only_address(addrs.drop_last(), line) is Some {
        first_street_only_address(addrs.drop_last(), line)
    } else if street_only(addrs.last()) && (addrs.last().street matches Some(r) && rv_matches(r, line)) {
        Some(addrs.len() - 1)
    } else {
        None
    }
}

/// The address reported on line `l` (0-based): the first found by proximity,
/// else the first street-only address matching there.
pub open spec fn address_on_line(addrs: Seq<AddressModel>, ls: Seq<Seq<char>>, l: usize) -> Option<int> {
    if first_proximity_address(addrs, ls, l) is Some {
        first_proximity_address(addrs, ls, l)
    } else {
        first_street_only_address(addrs, ls[l as int])
    }
}

/// The text an address is reported as: its present parts joined by `", "`.
pub open spec fn address_text(a: AddressInfo) -> Seq<char> {
    join_with(address_fields(a), ", "@)
}

/// An optional match as a sequence of at most one.
pub open spec fn opt_seq(o: Option<MatchView>) -> Seq<MatchView> {
    match o {
        Some(m) => seq![m],
        None => Seq::empty(),
    }
}

/// An optional index as an integer.
pub open spec fn opt_index(o: Option<usize>) -> Option<int> {
    match o {
        Some(a) => Some(a as int),
        None => None,
    }
}

/// The address match reported on line `l` (0-based), if any.
pub open spec fn address_report(m: MatcherModel, ls: Seq<Seq<char>>, l: int) -> Seq<MatchView> {
    opt_seq(
        match address_on_line(m.addresses, ls, l as usize) {
            Some(a) => Some(
                (PiiType::Address, address_text(m.addresses[a].info), (l + 1) as nat, shown(ls[l])),
            ),
            None => None,
        },
    )
}

/// What is reported for line `l` (0-based), one match per type at most, in
/// the order of the type identifiers (address, dob, email, name, phone,
/// ssn): of each type the first match found on the line.
pub open spec fn line_report(m: MatcherModel, ls: Seq<Seq<char>>, l: int) -> Seq<MatchView> {
    address_report(m, ls, l) + firsts(simple_hits(m, ls[l], (l + 1) as nat), reported_types())
}

/// The types other than address reported per line, in the order of their
/// identifiers: dob, email, name, phone, ssn.
pub open spec fn reported_types() -> Seq<PiiType> {
    seq![PiiType::DateOfBirth, PiiType::Email, PiiType::Name, PiiType::Phone, PiiType::Ssn]
}

/// What `find_all` reports for lines `0..n`: line by line, the report of
/// each line.
pub open spec fn report(m: MatcherModel, ls: Seq<Seq<char>>, n: int) -> Seq<MatchView>
    decreases n,
{
    if n <= 0 {
        Seq::empty()
    } else {
        report(m, ls, n - 1) + line_report(m, ls, n - 1)
    }
}

/// Copies a match.
fn copy_match(m: &PiiMatch) -> (r: PiiMatch)
    ensures
        view_of(r) == view_of(*m),
{
    PiiMatch {
        pii_type: m.pii_type,
        matched_value: m.matched_value.clone(),
        line_number: m.line_number,
        line_content: m.line_content.clone(),
    }
}

/// Mapping a sequence with one more element appends the element's image.
proof fn lemma_map_push<A, B>(s: Seq<A>, x: A, f: spec_fn(A) -> B)
    ensures
        s.push(x).map_values(f) == s.map_values(f).push(f(x)),
{
    assert(s.push(x).map_values(f) =~= s.map_values(f).push(f(x)));
}

/// A first element found among the first `k` is the first of all.
proof fn lemma_first_of_type_prefix(s: Seq<MatchView>, k: int, t: PiiType)
    requires
        0 <= k <= s.len(),
        first_of_type(s.take(k), t) is Some,
    ensures
        first_of_type(s, t) == first_of_type(s.take(k), t),
    decreases s.len() - k,
{
    if k < s.len() {
        assert(s.take(k + 1).drop_last() =~= s.take(k));
        lemma_first_of_type_prefix(s, k + 1, t);
    } else {
        assert(s.take(k) =~= s);
    }
}

/// The position of the first match of type `t`.
fn first_index_of_type(hits: &Vec<PiiMatch>, t: PiiType) -> (r: Option<usize>)
    ensures
        match (r, first_of_type(views_of(hits@), t)) {
            (Some(i), Some(v)) => i < hits@.len() && view_of(hits@[i as int]) == v,
            (None, None) => true,
            _ => false,
        },
{
    let ghost vs = views_of(hits@);
    let mut i: usize = 0;
    while i < hits.len()
        invariant
            vs == views_of(hits@),
            i <= hits@.len(),
            first_of_type(vs.take(i as int), t) is None,
        decreases hits@.len() - i,
    {
        proof {
            assert(vs.take(i + 1).drop_last() =~= vs.take(i as int));
            assert(vs.take(i + 1).last() == view_of(hits@[i as int]));
        }
        if hits[i].pii_type == t {
            proof {
                lemma_first_of_type_prefix(vs, i as int + 1, t);
            }
            return Some(i);
        }
        i += 1;
    }
    assert(vs.take(vs.len() as int) =~= vs);
    None
}

/// Two first pairs are the same pair.
proof fn lemma_first_pair_unique(cs: Seq<(usize, &'static str)>, i1: int, j1: int, i2: int, j2: int)
    requires
        first_pair(cs, 5, i1, j1),
        first_pair(cs, 5, i2, j2),
    ensures
        i1 == i2 && j1 == j2,
{
    assert(!pair_before(i2, j2, i1, j1));
    assert(!pair_before(i1, j1, i2, j2));
}

/// Every part line lies within the text.
proof fn lemma_part_lines_bound(rv: Option<RegexView>, ls: Seq<Seq<char>>, tag: &'static str, k: int)
    requires
        0 <= k < part_lines(rv, ls, tag).len(),
        ls.len() <= usize::MAX,
    ensures
        part_lines(rv, ls, tag)[k].0 < ls.len(),
    decreases ls.len(),
{
    if ls.len() > 0 {
        let p = part_lines(rv, ls.drop_last(), tag);
        if k < p.len() {
            lemma_part_lines_bound(rv, ls.drop_last(), tag, k);
        }
    }
}

impl Matcher {
    /// Appends the lines where an optional part regex matches, tagged.
    fn collect_part(rv: &Option<CompiledRegex>, ls: &Vec<String>, tag: &'static str, out: &mut Vec<(usize, &'static str)>)
        ensures
            final(out)@ == old(out)@ + part_lines(opt_rv(*rv), texts(ls@), tag),
    {
        let ghost t = texts(ls@);
        let ghost start = out@;
        let mut l: usize = 0;
        while l < ls.len()
            invariant
                t == texts(ls@),
                l <= ls@.len(),
                out@ == start + part_lines(opt_rv(*rv), t.take(l as int), tag),
            decreases ls@.len() - l,
        {
            proof {
                assert(t.take(l + 1).drop_last() =~= t.take(l as int));
                assert(t.take(l + 1).last() == ls@[l as int]@);
            }
            match rv {
                Some(re) => {
                    if re.is_match(ls[l].as_str()) {
                        out.push((l, tag));
                        assert(out@ =~= start + part_lines(opt_rv(*rv), t.take(l + 1), tag));
                    } else {
                        assert(out@ =~= start + part_lines(opt_rv(*rv), t.take(l + 1), tag));
                    }
                },
                None => {
                    assert(out@ =~= start + part_lines(opt_rv(*rv), t.take(l + 1), tag));
                },
            }
            l += 1;
        }
        assert(t.take(ls@.len() as int) =~= t);
    }

    /// Where the parts of the `a`-th address occur.
    fn components_of(&self, a: usize, ls: &Vec<String>) -> (r: Vec<(usize, &'static str)>)
        requires
            a < self.model().addresses.len(),
        ensures
            r@ == components(self.model().addresses[a as int], texts(ls@)),
    {
        let p = &self.address_patterns[a];
        let mut out: Vec<(usize, &'static str)> = Vec::new();
        Self::collect_part(&p.street_regex, ls, "street", &mut out);
        Self::collect_part(&p.city_regex, ls, "city", &mut out);
        Self::collect_part(&p.state_regex, ls, "state", &mut out);
        Self::collect_part(&p.zip_regex, ls, "zip", &mut out);
        proof {
            assert(self.model().addresses[a as int] == address_view(self.address_patterns@[a as int]));
            assert(out@ =~= components(self.model().addresses[a as int], texts(ls@)));
        }
        out
    }

    /// For each line, the address reported there, if any.
    fn address_lines(&self, ls: &Vec<String>) -> (r: Vec<Option<usize>>)
        ensures
            r@.len() == ls@.len(),
            forall|l: int| 0 <= l < ls@.len() ==> #[trigger] opt_index(r@[l]) == address_on_line(
                self.model().addresses,
                texts(ls@),
                l as usize,
            ),
    {
        let ghost t = texts(ls@);
        let ghost addrs = self.model().addresses;
        let n = ls.len();
        let na = self.address_patterns.len();
        assert(na == addrs.len());
        let mut by_line: Vec<Option<usize>> = Vec::new();
        while by_line.len() < n
            invariant
                by_line@.len() <= n,
                forall|l: int| 0 <= l < by_line@.len() ==> #[trigger] by_line@[l] is None,
            decreases n - by_line@.len(),
        {
            by_line.push(None);
        }
        let mut a: usize = 0;
        while a < na
            invariant
                t == texts(ls@),
                n == ls@.len(),
                na == addrs.len(),
                addrs == self.model().addresses,
                a <= na,
                by_line@.len() == n,
                forall|l: int| 0 <= l < n ==> #[trigger] opt_index(by_line@[l]) == first_proximity_address(
                    addrs.take(a as int),
                    t,
                    l as usize,
                ),
            decreases na - a,
        {
            let comps = self.components_of(a, ls);
            let ghost cs = comps@;
            let ghost prev = by_line@;
            proof {
                assert(addrs.take(a + 1).drop_last() =~= addrs.take(a as int));
                assert(addrs.take(a + 1).last() == addrs[a as int]);
            }
            match find_first_valid_pair(comps.as_slice(), 5) {
                Some((l1, c1, l2, c2)) => {
                    let rl = pick_report_line(l1, c1, l2, c2);
                    proof {
                        let (i, j) = choose|i: int, j: int|
                            first_pair(comps@, 5, i, j) && comps@[i] == (l1, c1) && comps@[j] == (l2, c2);
                        assert(exists|i: int, j: int| pair_ok(cs, 5, i, j));
                        let (i2, j2) = choose|i: int, j: int| first_pair(cs, 5, i, j);
                        lemma_first_pair_unique(cs, i, j, i2, j2);
                        assert(proximity_line(cs) == Some(rl));
                        // the reported line is one of the component lines
                        crate::discovery::patterns::lemma_report_line_is_a_component_line(l1, c1@, l2, c2@);
                        let comp = addrs[a as int];
                        assert(cs == part_lines(comp.street, t, "street") + part_lines(comp.city, t, "city")
                            + part_lines(comp.state, t, "state") + part_lines(comp.zip, t, "zip"));
                        lemma_components_bound(comp, t, i);
                        lemma_components_bound(comp, t, j);
                    }
                    if by_line[rl].is_none() {
                        by_line.set(rl, Some(a));
                    }
                    proof {
                        assert forall|l: int| 0 <= l < n implies #[trigger] opt_index(by_line@[l]) == first_proximity_address(
                            addrs.take(a + 1),
                            t,
                            l as usize,
                        ) by {
                            assert(opt_index(prev[l]) == first_proximity_address(addrs.take(a as int), t, l as usize));
                        }
                    }
                },
                None => {
                    proof {
                        assert(!(exists|i: int, j: int| pair_ok(cs, 5, i, j)));
                        assert(proximity_line(cs) is None);
                        assert forall|l: int| 0 <= l < n implies #[trigger] opt_index(by_line@[l]) == first_proximity_address(
                            addrs.take(a + 1),
                            t,
                            l as usize,
                        ) by {
                            assert(opt_index(prev[l]) == first_proximity_address(addrs.take(a as int), t, l as usize));
                        }
                    }
                },
            }
            a += 1;
        }
        assert(addrs.take(na as int) =~= addrs);
        let mut l: usize = 0;
        while l < n
            invariant
                t == texts(ls@),
                n == ls@.len(),
                na == addrs.len(),
                addrs == self.model().addresses,
                l <= n,
                by_line@.len() == n,
                forall|k: int| 0 <= k < n ==> #[trigger] opt_index(by_line@[k]) == (if k < l {
                    address_on_line(addrs, t, k as usize)
                } else {
                    first_proximity_address(addrs, t, k as usize)
                }),
            decreases n - l,
        {
            if by_line[l].is_none() {
                let line = ls[l].as_str();
                assert(line@ == t[l as int]);
                let mut b: usize = 0;
                let mut found: Option<usize> = None;
                while b < na && found.is_none()
                    invariant
                        na == addrs.len(),
                        addrs == self.model().addresses,
                        l < n,
                        n == ls@.len(),
                        t == texts(ls@),
                        line@ == t[l as int],
                        b <= na,
                        match found {
                            Some(x) => first_street_only_address(addrs.take(b as int), line@) == Some(x as int),
                            None => first_street_only_address(addrs.take(b as int), line@) is None,
                        },
                    decreases na - b, (if found is None { 1int } else { 0int }),
                {
                    let p = &self.address_patterns[b];
                    proof {
                        assert(addrs.take(b + 1).drop_last() =~= addrs.take(b as int));
                        assert(addrs.take(b + 1).last() == addrs[b as int]);
                        assert(addrs[b as int] == address_view(self.address_patterns@[b as int]));
                    }
                    let only = p.city_regex.is_none() && p.state_regex.is_none() && p.zip_regex.is_none();
                    let hit = match &p.street_regex {
                        Some(re) => re.is_match(line),
                        None => false,
                    };
                    if only && hit {
                        found = Some(b);
                    }
                    b += 1;
                }
                proof {
                    if found is None {
                        assert(addrs.take(b as int) =~= addrs);
                    } else {
                        lemma_first_street_only_prefix(addrs, b as int, line@);
                    }
                    assert(opt_index(found) == first_street_only_address(addrs, t[l as int]));
                    assert(opt_index(by_line@[l as int]) == first_proximity_address(addrs, t, l as usize));
                    assert(first_proximity_address(addrs, t, l as usize) is None);
                    assert(opt_index(found) == address_on_line(addrs, t, l as usize));
                }
                let ghost prev = by_line@;
                by_line.set(l, found);
                proof {
                    assert forall|k: int| 0 <= k < n implies #[trigger] opt_index(by_line@[k]) == (if k < l + 1 {
                        address_on_line(addrs, t, k as usize)
                    } else {
                        first_proximity_address(addrs, t, k as usize)
                    }) by {
                        if k != l {
                            assert(by_line@[k] == prev[k]);
                        }
                    }
                }
            } else {
                proof {
                    assert(first_proximity_address(addrs, t, l as usize) is Some);
                    assert forall|k: int| 0 <= k < n implies #[trigger] opt_index(by_line@[k]) == (if k < l + 1 {
                        address_on_line(addrs, t, k as usize)
                    } else {
                        first_proximity_address(addrs, t, k as usize)
                    }) by {
                    }
                }
            }
            l += 1;
        }
        by_line
    }
}

/// A street-only address found among the first `k` is the first of all.
proof fn lemma_first_street_only_prefix(addrs: Seq<AddressModel>, k: int, line: Seq<char>)
    requires
        0 <= k <= addrs.len(),
        first_street_only_address(addrs.take(k), line) is Some,
    ensures
        first_street_only_address(addrs, line) == first_street_only_address(addrs.take(k), line),
    decreases addrs.len() - k,
{
    if k < addrs.len() {
        assert(addrs.take(k + 1).drop_last() =~= addrs.take(k));
        lemma_first_street_only_prefix(addrs, k + 1, line);
    } else {
        assert(addrs.take(k) =~= addrs);
    }
}

/// Every component line lies within the text.
proof fn lemma_components_bound(a: AddressModel, ls: Seq<Seq<char>>, k: int)
    requires
        0 <= k < components(a, ls).len(),
        ls.len() <= usize::MAX,
    ensures
        components(a, ls)[k].0 < ls.len(),
{
    let s1 = part_lines(a.street, ls, "street");
    let s2 = part_lines(a.city, ls, "city");
    let s3 = part_lines(a.state, ls, "state");
    let s4 = part_lines(a.zip, ls, "zip");
    if k < s1.len() {
        lemma_part_lines_bound(a.street, ls, "street", k);
    } else if k < s1.len() + s2.len() {
        lemma_part_lines_bound(a.city, ls, "city", k - s1.len());
    } else if k < s1.len() + s2.len() + s3.len() {
        lemma_part_lines_bound(a.state, ls, "state", k - s1.len() - s2.len());
    } else {
        lemma_part_lines_bound(a.zip, ls, "zip", k - s1.len() - s2.len() - s3.len());
    }
}

/// A phone found among the first `k` is the first of all.
proof fn lemma_first_phone_prefix(ps: Seq<(Seq<char>, Seq<RegexView>)>, k: int, line: Seq<char>)
    requires
        0 <= k <= ps.len(),
        first_phone(ps.take(k), line) is Some,
    ensures
        first_phone(ps, line) == first_phone(ps.take(k), line),
    decreases ps.len() - k,
{
    if k < ps.len() {
        assert(ps.take(k + 1).drop_last() =~= ps.take(k));
        lemma_first_phone_prefix(ps, k + 1, line);
    } else {
        assert(ps.take(k) =~= ps);
    }
}

impl Matcher {
    /// Appends a match for each item whose regex matches the line.
    fn push_item_hits(
        items: &Vec<(String, CompiledRegex)>,
        t: PiiType,
        line: &str,
        ln: usize,
        content: &String,
        out: &mut Vec<PiiMatch>,
    )
        requires
            content@ == shown(line@),
        ensures
            views_of(final(out)@) == views_of(old(out)@) + item_hits(item_rvs(items@), t, line@, ln as nat),
    {
        let ghost start = views_of(out@);
        let ghost iv = item_rvs(items@);
        let mut i: usize = 0;
        while i < items.len()
            invariant
                iv == item_rvs(items@),
                content@ == shown(line@),
                i <= items@.len(),
                views_of(out@) == start + item_hits(iv.take(i as int), t, line@, ln as nat),
            decreases items@.len() - i,
        {
            proof {
                assert(iv.take(i + 1).drop_last() =~= iv.take(i as int));
                assert(iv.take(i + 1).last() == (items@[i as int].0@, items@[i as int].1@));
            }
            let (orig, re) = &items[i];
            if re.is_match(line) {
                let ghost o0 = out@;
                let m = PiiMatch { pii_type: t, matched_value: orig.clone(), line_number: ln, line_content: content.clone() };
                out.push(m);
                proof {
                    lemma_map_push(o0, m, |m: PiiMatch| view_of(m));
                }
            }
            i += 1;
        }
        assert(iv.take(iv.len() as int) =~= iv);
    }

    /// The simple matches on one line.
    fn simple_matches(&self, line: &str, ln: usize) -> (r: Vec<PiiMatch>)
        ensures
            views_of(r@) == simple_hits(self.model(), line@, ln as nat),
    {
        let content = truncate(line, 200);
        let mut out: Vec<PiiMatch> = Vec::new();
        Self::push_item_hits(&self.email_patterns, PiiType::Email, line, ln, &content, &mut out);
        let ghost after_emails = views_of(out@);
        let ghost ps = self.model().phones;
        let mut i: usize = 0;
        let mut phone: Option<usize> = None;
        while i < self.phone_patterns.len() && phone.is_none()
            invariant
                ps == self.model().phones,
                ps.len() == self.phone_patterns@.len(),
                i <= ps.len(),
                match phone {
                    Some(x) => x < ps.len() && first_phone(ps.take(i as int), line@) == Some(ps[x as int].0),
                    None => first_phone(ps.take(i as int), line@) is None,
                },
            decreases ps.len() - i, (if phone is None { 1int } else { 0int }),
        {
            proof {
                assert(ps.take(i + 1).drop_last() =~= ps.take(i as int));
                assert(ps.take(i + 1).last() == ps[i as int]);
                assert(ps[i as int] == (self.phone_patterns@[i as int].0@, rvs(self.phone_patterns@[i as int].1@)));
            }
            let regexes = &self.phone_patterns[i].1;
            let ghost rs = rvs(regexes@);
            let mut k: usize = 0;
            let mut hit = false;
            while k < regexes.len() && !hit
                invariant
                    rs == rvs(regexes@),
                    k <= regexes@.len(),
                    hit ==> any_rv_matches(rs, line@),
                    !hit ==> forall|q: int| 0 <= q < k ==> !rv_matches(#[trigger] rs[q], line@),
                decreases regexes@.len() - k, (if hit { 0int } else { 1int }),
            {
                if regexes[k].is_match(line) {
                    assert(rv_matches(rs[k as int], line@));
                    hit = true;
                }
                k += 1;
            }
            if hit {
                phone = Some(i);
            }
            i += 1;
        }
        proof {
            match phone {
                Some(x) => {
                    lemma_first_phone_prefix(ps, i as int, line@);
                },
                None => {
                    assert(ps.take(ps.len() as int) =~= ps);
                },
            }
        }
        match phone {
            Some(x) => {
                let ghost o0 = out@;
                let m = PiiMatch {
                    pii_type: PiiType::Phone,
                    matched_value: self.phone_patterns[x].0.clone(),
                    line_number: ln,
                    line_content: content.clone(),
                };
                out.push(m);
                proof {
                    lemma_map_push(o0, m, |m: PiiMatch| view_of(m));
                    assert(ps[x as int].0 == self.phone_patterns@[x as int].0@);
                }
            },
            None => {},
        }
        let ghost after_phone = views_of(out@);
        match &self.ssn_pattern {
            Some((orig, re)) => {
                if re.is_match(line) {
                    let ghost o0 = out@;
                    let m = PiiMatch {
                        pii_type: PiiType::Ssn,
                        matched_value: mask_ssn(orig.as_str()),
                        line_number: ln,
                        line_content: content.clone(),
                    };
                    out.push(m);
                    proof {
                        lemma_map_push(o0, m, |m: PiiMatch| view_of(m));
                    }
                }
            },
            None => {},
        }
        let ghost after_ssn = views_of(out@);
        Self::push_item_hits(&self.name_patterns, PiiType::Name, line, ln, &content, &mut out);
        let ghost after_names = views_of(out@);
        match &self.dob_pattern {
            Some((orig, re)) => {
                if re.is_match(line) {
                    let ghost o0 = out@;
                    let m = PiiMatch {
                        pii_type: PiiType::DateOfBirth,
                        matched_value: orig.clone(),
                        line_number: ln,
                        line_content: content.clone(),
                    };
                    out.push(m);
                    proof {
                        lemma_map_push(o0, m, |m: PiiMatch| view_of(m));
                    }
                }
            },
            None => {},
        }
        proof {
            let model = self.model();
            assert(views_of(Seq::<PiiMatch>::empty()) =~= Seq::empty());
            assert(after_emails == item_hits(model.emails, PiiType::Email, line@, ln as nat));
            assert(views_of(out@) =~= simple_hits(model, line@, ln as nat));
        }
        out
    }

    /// Appends the first match of each of the types, in order.
    fn push_firsts(hits: &Vec<PiiMatch>, out: &mut Vec<PiiMatch>)
        ensures
            views_of(final(out)@) == views_of(old(out)@) + firsts(views_of(hits@), reported_types()),
    {
        let ghost hv = views_of(hits@);
        let ghost start = views_of(out@);
        let types = [PiiType::DateOfBirth, PiiType::Email, PiiType::Name, PiiType::Phone, PiiType::Ssn];
        let ghost tys = seq![PiiType::DateOfBirth, PiiType::Email, PiiType::Name, PiiType::Phone, PiiType::Ssn];
        assert(types@ =~= tys);
        let mut q: usize = 0;
        while q < 5
            invariant
                types@ == tys,
                hv == views_of(hits@),
                q <= 5,
                views_of(out@) == start + firsts(hv, tys.take(q as int)),
            decreases 5 - q,
        {
            let ty = types[q];
            proof {
                assert(tys.take(q + 1).drop_last() =~= tys.take(q as int));
                assert(tys.take(q + 1).last() == ty);
            }
            match first_index_of_type(hits, ty) {
                Some(i) => {
                    let ghost o0 = out@;
                    let m = copy_match(&hits[i]);
                    out.push(m);
                    proof {
                        lemma_map_push(o0, m, |m: PiiMatch| view_of(m));
                    }
                },
                None => {},
            }
            q += 1;
        }
        assert(tys.take(5) =~= tys);
    }

    /// Appends the address match reported on line `l`, given its address.
    fn push_address_report(&self, ls: &Vec<String>, l: usize, addr: Option<usize>, out: &mut Vec<PiiMatch>)
        requires
            l < ls@.len(),
            opt_index(addr) == address_on_line(self.model().addresses, texts(ls@), l),
        ensures
            views_of(final(out)@) == views_of(old(out)@) + address_report(self.model(), texts(ls@), l as int),
    {
        let ghost t = texts(ls@);
        let ghost model = self.model();
        let n = ls.len();
        assert(l < n);
        match addr {
            Some(a) => {
                proof {
                    lemma_address_on_line_index(model.addresses, t, l);
                    assert(model.addresses.len() == self.address_patterns@.len());
                    assert(model.addresses[a as int] == address_view(self.address_patterns@[a as int]));
                }
                let line = ls[l].as_str();
                assert(line@ == t[l as int]);
                let ghost o0 = out@;
                let m = PiiMatch {
                    pii_type: PiiType::Address,
                    matched_value: format_address(&self.address_patterns[a].info),
                    line_number: l + 1,
                    line_content: truncate(line, 200),
                };
                out.push(m);
                proof {
                    lemma_map_push(o0, m, |m: PiiMatch| view_of(m));
                }
            },
            None => {},
        }
    }

    /// Appends what is reported for line `l`, given the address reported
    /// there.
    fn push_line_report(&self, ls: &Vec<String>, l: usize, addr: Option<usize>, out: &mut Vec<PiiMatch>)
        requires
            l < ls@.len(),
            opt_index(addr) == address_on_line(self.model().addresses, texts(ls@), l),
        ensures
            views_of(final(out)@) == views_of(old(out)@) + line_report(self.model(), texts(ls@), l as int),
    {
        let ghost t = texts(ls@);
        let ghost model = self.model();
        let ghost start = views_of(out@);
        let n = ls.len();
        assert(l < n);
        self.push_address_report(ls, l, addr, out);
        let ghost mid = views_of(out@);
        let line = ls[l].as_str();
        assert(line@ == t[l as int]);
        let hits = self.simple_matches(line, l + 1);
        Self::push_firsts(&hits, out);
        assert(views_of(out@) =~= start + line_report(model, t, l as int));
    }

    /// All PII matches in the text. Line by line, at most one match of each
    /// type is reported: an address found by the proximity of its parts (or,
    /// for an address with only a street, by the street), then the first
    /// date of birth, email, name, phone and SSN found on the line.
    pub fn find_all(&self, text: &str) -> (r: Vec<PiiMatch>)
        ensures
            views_of(r@) == report(self.model(), lines_of(text@), lines_of(text@).len() as int),
    {
        let ls = lines(text);
        let ghost t = texts(ls@);
        assert(t == lines_of(text@));
        let by_line = self.address_lines(&ls);
        let n = ls.len();
        let mut out: Vec<PiiMatch> = Vec::new();
        let mut l: usize = 0;
        assert(views_of(out@) =~= Seq::<MatchView>::empty());
        while l < n
            invariant
                t == texts(ls@),
                n == ls@.len(),
                by_line@.len() == n,
                forall|k: int| 0 <= k < n ==> #[trigger] opt_index(by_line@[k]) == address_on_line(
                    self.model().addresses,
                    t,
                    k as usize,
                ),
                l <= n,
                views_of(out@) == report(self.model(), t, l as int),
            decreases n - l,
        {
            self.push_line_report(&ls, l, by_line[l], &mut out);
            l += 1;
        }
        out
    }
}

/// The first match of each of the types, in order.
pub open spec fn firsts(hits: Seq<MatchView>, tys: Seq<PiiType>) -> Seq<MatchView>
    decreases tys.len(),
{
    if tys.len() == 0 {
        Seq::empty()
    } else {
        firsts(hits, tys.drop_last()) + opt_seq(first_of_type(hits, tys.last()))
    }
}

/// The address reported on a line is one of the matcher's addresses.
proof fn lemma_address_on_line_index(addrs: Seq<AddressModel>, ls: Seq<Seq<char>>, l: usize)
    ensures
        address_on_line(addrs, ls, l) matches Some(a) ==> 0 <= a < addrs.len(),
{
    lemma_first_proximity_index(addrs, ls, l);
    if l < ls.len() {
        lemma_first_street_only_index(addrs, ls[l as int]);
    }
    lemma_first_street_only_index(addrs, ls[l as int]);
}

proof fn lemma_first_proximity_index(addrs: Seq<AddressModel>, ls: Seq<Seq<char>>, l: usize)
    ensures
        first_proximity_address(addrs, ls, l) matches Some(a) ==> 0 <= a < addrs.len(),
    decreases addrs.len(),
{
    if addrs.len() > 0 {
        lemma_first_proximity_index(addrs.drop_last(), ls, l);
    }
}

proof fn lemma_first_street_only_index(addrs: Seq<AddressModel>, line: Seq<char>)
    ensures
        first_street_only_address(addrs, line) matches Some(a) ==> 0 <= a < addrs.len(),
    decreases addrs.len(),
{
    if addrs.len() > 0 {
        lemma_first_street_only_index(addrs.drop_last(), line);
    }
}

/// The order of reported matches: by line, then by type.
pub open spec fn report_key(x: MatchView) -> int {
    (x.2 * 6 + pii_type_rank(x.0)) as int
}

/// Each match comes strictly after the one before it in that order.
pub open spec fn key_sorted(s: Seq<MatchView>) -> bool {
    forall|i: int, j: int| 0 <= i < j < s.len() ==> report_key(#[trigger] s[i]) < report_key(#[trigger] s[j])
}

/// Two lists sorted by key, the first entirely below `b` and the second
/// entirely at or above it, stay sorted when joined.
proof fn lemma_concat_sorted(s1: Seq<MatchView>, s2: Seq<MatchView>, b: int)
    requires
        key_sorted(s1),
        key_sorted(s2),
        forall|i: int| 0 <= i < s1.len() ==> report_key(#[trigger] s1[i]) < b,
        forall|i: int| 0 <= i < s2.len() ==> report_key(#[trigger] s2[i]) >= b,
    ensures
        key_sorted(s1 + s2),
{
    let s = s1 + s2;
    assert forall|i: int, j: int| 0 <= i < j < s.len() implies report_key(#[trigger] s[i]) < report_key(#[trigger] s[j]) by {
        if j < s1.len() {
            assert(s[i] == s1[i] && s[j] == s1[j]);
        } else if i >= s1.len() {
            assert(s[i] == s2[i - s1.len()] && s[j] == s2[j - s1.len()]);
        } else {
            assert(s[i] == s1[i] && s[j] == s2[j - s1.len()]);
        }
    }
}

/// Every hit of a list of items is on line `ln`.
proof fn lemma_item_hits_line(items: Seq<(Seq<char>, RegexView)>, t: PiiType, line: Seq<char>, ln: nat)
    ensures
        forall|k: int| 0 <= k < item_hits(items, t, line, ln).len() ==> (#[trigger] item_hits(items, t, line, ln)[k]).2 == ln,
    decreases items.len(),
{
    if items.len() > 0 {
        lemma_item_hits_line(items.drop_last(), t, line, ln);
        let a = item_hits(items.drop_last(), t, line, ln);
        let s = item_hits(items, t, line, ln);
        assert forall|k: int| 0 <= k < s.len() implies (#[trigger] s[k]).2 == ln by {
            if k < a.len() {
                assert(s[k] == a[k]);
            }
        }
    }
}

/// Every simple hit on a line is on line `ln`.
proof fn lemma_simple_hits_line(m: MatcherModel, line: Seq<char>, ln: nat)
    ensures
        forall|k: int| 0 <= k < simple_hits(m, line, ln).len() ==> (#[trigger] simple_hits(m, line, ln)[k]).2 == ln,
{
    lemma_item_hits_line(m.emails, PiiType::Email, line, ln);
    lemma_item_hits_line(m.names, PiiType::Name, line, ln);
    let e = item_hits(m.emails, PiiType::Email, line, ln);
    let p = match first_phone(m.phones, line) {
        Some(o) => seq![(PiiType::Phone, o, ln, shown(line))],
        None => Seq::<MatchView>::empty(),
    };
    let sn = opt_hit(m.ssn, PiiType::Ssn, match m.ssn {
        Some((o, _)) => masked_ssn(o),
        None => Seq::empty(),
    }, line, ln);
    let nm = item_hits(m.names, PiiType::Name, line, ln);
    let d = opt_hit(m.dob, PiiType::DateOfBirth, match m.dob {
        Some((o, _)) => o,
        None => Seq::empty(),
    }, line, ln);
    let s = simple_hits(m, line, ln);
    assert(s == e + p + sn + nm + d);
    assert forall|k: int| 0 <= k < s.len() implies (#[trigger] s[k]).2 == ln by {
        let k1 = e.len() as int;
        let k2 = k1 + p.len();
        let k3 = k2 + sn.len();
        let k4 = k3 + nm.len();
        if k < k1 {
            assert(s[k] == e[k]);
        } else if k < k2 {
            assert(s[k] == p[k - k1]);
        } else if k < k3 {
            assert(s[k] == sn[k - k2]);
        } else if k < k4 {
            assert(s[k] == nm[k - k3]);
        } else {
            assert(s[k] == d[k - k4]);
        }
    }
}

/// The first hit of a type has that type, and is on the line all the hits
/// are on.
proof fn lemma_first_of_type(s: Seq<MatchView>, t: PiiType, ln: nat)
    requires
        forall|k: int| 0 <= k < s.len() ==> (#[trigger] s[k]).2 == ln,
    ensures
        first_of_type(s, t) matches Some(x) ==> x.0 == t && x.2 == ln,
    decreases s.len(),
{
    if s.len() > 0 {
        assert forall|k: int| 0 <= k < s.drop_last().len() implies (#[trigger] s.drop_last()[k]).2 == ln by {
            assert(s.drop_last()[k] == s[k]);
        }
        lemma_first_of_type(s.drop_last(), t, ln);
        assert(s.last() == s[s.len() - 1]);
    }
}

/// The firsts of each type, for types of increasing rank from 1, are in
/// order, on line `ln`, and ranked at most the last type's rank.
proof fn lemma_firsts_sorted(hits: Seq<MatchView>, tys: Seq<PiiType>, ln: nat)
    requires
        forall|k: int| 0 <= k < hits.len() ==> (#[trigger] hits[k]).2 == ln,
        forall|i: int, j: int| 0 <= i < j < tys.len() ==> pii_type_rank(#[trigger] tys[i]) < pii_type_rank(#[trigger] tys[j]),
    ensures
        key_sorted(firsts(hits, tys)),
        forall|k: int| 0 <= k < firsts(hits, tys).len() ==> (#[trigger] firsts(hits, tys)[k]).2 == ln,
        tys.len() > 0 ==> forall|k: int| 0 <= k < firsts(hits, tys).len() ==> pii_type_rank(
            (#[trigger] firsts(hits, tys)[k]).0,
        ) <= pii_type_rank(tys.last()),
    decreases tys.len(),
{
    if tys.len() > 0 {
        let init = tys.drop_last();
        assert forall|i: int, j: int| 0 <= i < j < init.len() implies pii_type_rank(#[trigger] init[i]) < pii_type_rank(#[trigger] init[j]) by {
            assert(init[i] == tys[i] && init[j] == tys[j]);
        }
        lemma_firsts_sorted(hits, init, ln);
        lemma_first_of_type(hits, tys.last(), ln);
        let a = firsts(hits, init);
        let b = opt_seq(first_of_type(hits, tys.last()));
        let bound = (ln * 6 + pii_type_rank(tys.last())) as int;
        if init.len() > 0 {
            assert(init.last() == tys[tys.len() - 2]);
            assert(pii_type_rank(tys[tys.len() - 2]) < pii_type_rank(tys[tys.len() - 1]));
        }
        assert forall|i: int| 0 <= i < a.len() implies report_key(#[trigger] a[i]) < bound by {
            if init.len() == 0 {
                assert(a.len() == 0);
            }
        }
        lemma_concat_sorted(a, b, bound);
        let s = firsts(hits, tys);
        assert(s == a + b);
        assert forall|k: int| 0 <= k < s.len() implies (#[trigger] s[k]).2 == ln && pii_type_rank(s[k].0)
            <= pii_type_rank(tys.last()) by {
            if k < a.len() {
                assert(s[k] == a[k]);
                if init.len() == 0 {
                    assert(a.len() == 0);
                }
            } else {
                assert(s[k] == b[k - a.len()]);
            }
        }
    }
}

/// The report of one line is in order of type, all on that line.
proof fn lemma_line_report_sorted(m: MatcherModel, ls: Seq<Seq<char>>, l: int)
    requires
        l >= 0,
    ensures
        key_sorted(line_report(m, ls, l)),
        forall|k: int| 0 <= k < line_report(m, ls, l).len() ==> (#[trigger] line_report(m, ls, l)[k]).2 == l + 1,
{
    let ln = (l + 1) as nat;
    let hits = simple_hits(m, ls[l], ln);
    lemma_simple_hits_line(m, ls[l], ln);
    let rt = reported_types();
    assert forall|i: int, j: int| 0 <= i < j < rt.len() implies pii_type_rank(#[trigger] rt[i]) < pii_type_rank(#[trigger] rt[j]) by {
    }
    lemma_firsts_sorted(hits, rt, ln);
    let a = address_report(m, ls, l);
    let f = firsts(hits, rt);
    assert forall|k: int| 0 <= k < f.len() implies report_key(#[trigger] f[k]) >= ln * 6 + 1 by {
        assert(f[k].2 == ln);
        assert(f[k].0 != PiiType::Address) by {
            lemma_firsts_types(hits, rt, k);
        }
    }
    lemma_concat_sorted(a, f, (ln * 6 + 1) as int);
    let s = line_report(m, ls, l);
    assert(s == a + f);
    assert forall|k: int| 0 <= k < s.len() implies (#[trigger] s[k]).2 == l + 1 by {
        if k < a.len() {
            assert(s[k] == a[k]);
        } else {
            assert(s[k] == f[k - a.len()]);
        }
    }
}

/// A first of some type is of one of the types asked for.
proof fn lemma_firsts_types(hits: Seq<MatchView>, tys: Seq<PiiType>, k: int)
    requires
        0 <= k < firsts(hits, tys).len(),
    ensures
        tys.contains(firsts(hits, tys)[k].0),
    decreases tys.len(),
{
    if tys.len() > 0 {
        let a = firsts(hits, tys.drop_last());
        let s = firsts(hits, tys);
        assert(s == a + opt_seq(first_of_type(hits, tys.last())));
        if k < a.len() {
            assert(s[k] == a[k]);
            lemma_firsts_types(hits, tys.drop_last(), k);
            let j = choose|j: int| 0 <= j < tys.drop_last().len() && tys.drop_last()[j] == a[k].0;
            assert(tys[j] == a[k].0);
        } else {
            lemma_first_of_type_is_type(hits, tys.last());
            assert(s[k] == first_of_type(hits, tys.last())->0);
            assert(tys[tys.len() - 1] == s[k].0);
        }
    }
}

/// The first hit of a type has that type.
proof fn lemma_first_of_type_is_type(s: Seq<MatchView>, t: PiiType)
    ensures
        first_of_type(s, t) matches Some(x) ==> x.0 == t,
    decreases s.len(),
{
    if s.len() > 0 {
        lemma_first_of_type_is_type(s.drop_last(), t);
    }
}

/// The reports of lines `0..n` are in order, on lines `1..=n`.
proof fn lemma_report_sorted(m: MatcherModel, ls: Seq<Seq<char>>, n: int)
    ensures
        key_sorted(report(m, ls, n)),
        forall|k: int| 0 <= k < report(m, ls, n).len() ==> 1 <= (#[trigger] report(m, ls, n)[k]).2 <= n,
    decreases n,
{
    if n > 0 {
        lemma_report_sorted(m, ls, n - 1);
        lemma_line_report_sorted(m, ls, n - 1);
        let a = report(m, ls, n - 1);
        let b = line_report(m, ls, n - 1);
        assert forall|k: int| 0 <= k < a.len() implies report_key(#[trigger] a[k]) < n * 6 by {
            assert(a[k].2 <= n - 1);
        }
        assert forall|k: int| 0 <= k < b.len() implies report_key(#[trigger] b[k]) >= n * 6 by {
            assert(b[k].2 == n);
        }
        lemma_concat_sorted(a, b, n * 6);
        let s = report(m, ls, n);
        assert(s == a + b);
        assert forall|k: int| 0 <= k < s.len() implies 1 <= (#[trigger] s[k]).2 <= n by {
            if k < a.len() {
                assert(s[k] == a[k]);
            } else {
                assert(s[k] == b[k - a.len()]);
            }
        }
    }
}

/// The matches reported for a text come in order of line and, within a
/// line, in order of type; so no line has two matches of one type.
pub proof fn law_report_ordered(m: MatcherModel, ls: Seq<Seq<char>>)
    ensures
        ({
            let r = report(m, ls, ls.len() as int);
            forall|i: int, j: int| 0 <= i < j < r.len() ==> (#[trigger] r[i]).2 < (#[trigger] r[j]).2 || (r[i].2
                == r[j].2 && pii_type_rank(r[i].0) < pii_type_rank(r[j].0))
        }),
{
    let r = report(m, ls, ls.len() as int);
    lemma_report_sorted(m, ls, ls.len() as int);
    assert forall|i: int, j: int| 0 <= i < j < r.len() implies (#[trigger] r[i]).2 < (#[trigger] r[j]).2 || (r[i].2
        == r[j].2 && pii_type_rank(r[i].0) < pii_type_rank(r[j].0)) by {
        assert(report_key(r[i]) < report_key(r[j]));
    }
}

} // verus!
