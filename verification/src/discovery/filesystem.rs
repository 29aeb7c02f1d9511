//! Finding the user's own email addresses, phone numbers and SSN in local
//! text files.

use vstd::prelude::*;
use crate::text::{
    to_chars, string_from_chars, concat_strs, digits, digits_only, contains_seq, str_contains,
    lowercase, to_lowercase, lines, lines_of, str_eq,
};
use crate::discovery::regexes::{
    CompiledRegex, regex_escape, escaped, regex_builds, regex_find_first, regex_find_all,
};
use crate::broker::loader::file_extension;

verus! {

/// The user's own PII to search for.
#[derive(Debug, Clone)]
pub struct UserPii {
    /// User's email addresses
    pub emails: Vec<String>,
    /// User's phone numbers
    pub phones: Vec<String>,
    /// User's Social Security Number (if provided)
    pub ssn: Option<String>,
}

impl UserPii {
    /// A `UserPii` with no data.
    pub fn empty() -> (r: Self)
        ensures
            r.emails@.len() == 0,
            r.phones@.len() == 0,
            r.ssn is None,
    {
        UserPii { emails: Vec::new(), phones: Vec::new(), ssn: None }
    }
}

/// Type of PII.
#[derive(Debug, Clone, Copy, PartialEq, Eq, Structural)]
pub enum PiiType {
    /// Email address
    Email,
    /// Phone number
    Phone,
    /// Social Security Number
    Ssn,
}

/// Human-readable description of a PII type.
pub open spec fn description_of(t: PiiType) -> &'static str {
    match t {
        PiiType::Email => "Email address",
        PiiType::Phone => "Phone number",
        PiiType::Ssn => "Social Security Number",
    }
}

/// Risk level of a PII type.
pub open spec fn risk_of(t: PiiType) -> &'static str {
    match t {
        PiiType::Email => "medium",
        PiiType::Phone => "medium",
        PiiType::Ssn => "critical",
    }
}

/// Identifier of a PII type for storage.
pub open spec fn type_str_of(t: PiiType) -> &'static str {
    match t {
        PiiType::Email => "email",
        PiiType::Phone => "phone",
        PiiType::Ssn => "ssn",
    }
}

impl PiiType {
    /// Human-readable description of the PII type.
    pub fn description(&self) -> (r: &'static str)
        ensures
            r == description_of(*self),
    {
        match self {
            PiiType::Email => "Email address",
            PiiType::Phone => "Phone number",
            PiiType::Ssn => "Social Security Number",
        }
    }

    /// Risk level of this type of PII.
    pub fn risk_level(&self) -> (r: &'static str)
        ensures
            r == risk_of(*self),
    {
        match self {
            PiiType::Email => "medium",
            PiiType::Phone => "medium",
            PiiType::Ssn => "critical",
        }
    }

    /// PII type identifier for database storage.
    pub fn pii_type_str(&self) -> (r: &'static str)
        ensures
            r == type_str_of(*self),
    {
        match self {
            PiiType::Email => "email",
            PiiType::Phone => "phone",
            PiiType::Ssn => "ssn",
        }
    }
}

/// A PII match with the line it was found on.
#[derive(Debug, Clone)]
pub struct PiiMatch {
    /// Type of PII found
    pub pii_type: PiiType,
    /// The text that matched
    pub matched_value: String,
    /// Line number (1-based)
    pub line_number: usize,
}

/// A match as plain values: type, matched text, line number.
pub type MatchView = (PiiType, Seq<char>, nat);

/// The plain values of a match.
pub open spec fn match_view(m: PiiMatch) -> MatchView {
    (m.pii_type, m.matched_value@, m.line_number as nat)
}

impl PiiMatch {
    /// Human-readable description of the PII type.
    pub fn description(&self) -> (r: &'static str)
        ensures
            r == description_of(self.pii_type),
    {
        self.pii_type.description()
    }

    /// Risk level of this type of PII.
    pub fn risk_level(&self) -> (r: &'static str)
        ensures
            r == risk_of(self.pii_type),
    {
        self.pii_type.risk_level()
    }

    /// PII type identifier for database storage.
    pub fn pii_type_str(&self) -> (r: &'static str)
        ensures
            r == type_str_of(self.pii_type),
    {
        self.pii_type.pii_type_str()
    }
}

/// Result of scanning a file.
#[derive(Debug, Clone)]
pub struct FileScanResult {
    /// The file's path
    pub path: String,
    /// The matches in it
    pub matches: Vec<PiiMatch>,
}

/// Pattern matchers for the user's own PII.
#[derive(Debug)]
pub struct PiiPatterns {
    user_emails: Vec<String>,
    user_phones: Vec<String>,
    user_ssn: Option<String>,
}

/// The texts of a list of strings.
pub open spec fn texts_of(v: Seq<String>) -> Seq<Seq<char>> {
    v.map_values(|s: String| s@)
}

/// What the patterns hold: lowercase emails, phone digits, the SSN.
pub type PatternsView = (Seq<Seq<char>>, Seq<Seq<char>>, Option<Seq<char>>);

/// The text mentions one of the phones: the text's digits contain it.
pub open spec fn mentions_phone(v: PatternsView, text: Seq<char>) -> bool {
    exists|i: int| 0 <= i < v.1.len() && contains_seq(digits(text), #[trigger] v.1[i])
}

/// Phone detection looks at digits only: two texts with the same digits,
/// however formatted, are both found to mention a phone or both not.
pub proof fn law_phone_detection_ignores_format(v: PatternsView, t1: Seq<char>, t2: Seq<char>)
    requires
        digits(t1) == digits(t2),
    ensures
        mentions_phone(v, t1) == mentions_phone(v, t2),
{
}

impl View for PiiPatterns {
    type V = PatternsView;

    closed spec fn view(&self) -> PatternsView {
        (
            texts_of(self.user_emails@),
            texts_of(self.user_phones@),
            match self.user_ssn {
                Some(s) => Some(s@),
                None => None,
            },
        )
    }
}

/// The phone number patterns tried on a line, in order, for phone digits
/// `p`: `(555) 123-4567`, `555-123-4567`, `555.123.4567`, `5551234567`.
pub open spec fn phone_line_patterns(p: Seq<char>) -> Seq<Seq<char>> {
    let a = p.subrange(0, 3);
    let b = p.subrange(3, 6);
    let c = p.subrange(6, 10);
    seq![
        "\\("@ + a + "\\)\\s*"@ + b + "-"@ + c,
        a + "-"@ + b + "-"@ + c,
        a + "\\."@ + b + "\\."@ + c,
        p,
    ]
}

/// The first of `pats` (in order) that compiles and matches `line`, and what
/// it matched.
pub open spec fn first_found(pats: Seq<Seq<char>>, line: Seq<char>) -> Option<Seq<char>>
    decreases pats.len(),
{
    if pats.len() == 0 {
        None
    } else if first_found(pats.drop_last(), line) is Some {
        first_found(pats.drop_last(), line)
    } else if regex_builds(pats.last(), false) {
        regex_find_first(pats.last(), false, line)
    } else {
        None
    }
}

/// The matches of one email on a line: every case-insensitive occurrence,
/// when the lowercased line contains it.
pub open spec fn email_hits(e: Seq<char>, line: Seq<char>, ln: nat) -> Seq<MatchView> {
    if contains_seq(lowercase(line), e) {
        regex_find_all(escaped(e), true, line).map_values(|m: Seq<char>| (PiiType::Email, m, ln))
    } else {
        Seq::empty()
    }
}

/// The matches of the emails on a line, email by email.
pub open spec fn emails_hits(es: Seq<Seq<char>>, line: Seq<char>, ln: nat) -> Seq<MatchView>
    decreases es.len(),
{
    if es.len() == 0 {
        Seq::empty()
    } else {
        emails_hits(es.drop_last(), line, ln) + email_hits(es.last(), line, ln)
    }
}

/// The match of one phone on a line: when the line's digits contain it, the
/// first of its formats found in the line.
pub open spec fn phone_hits(p: Seq<char>, line: Seq<char>, ln: nat) -> Seq<MatchView> {
    if contains_seq(digits(line), p) {
        match first_found(phone_line_patterns(p), line) {
            Some(m) => seq![(PiiType::Phone, m, ln)],
            None => Seq::empty(),
        }
    } else {
        Seq::empty()
    }
}

/// The matches of the phones on a line, phone by phone.
pub open spec fn phones_hits(ps: Seq<Seq<char>>, line: Seq<char>, ln: nat) -> Seq<MatchView>
    decreases ps.len(),
{
    if ps.len() == 0 {
        Seq::empty()
    } else {
        phones_hits(ps.drop_last(), line, ln) + phone_hits(ps.last(), line, ln)
    }
}

/// The matches on one line: emails, then phones, then the SSN.
pub open spec fn line_hits(v: PatternsView, line: Seq<char>, ln: nat) -> Seq<MatchView> {
    emails_hits(v.0, line, ln) + phones_hits(v.1, line, ln) + match v.2 {
        Some(s) => if contains_seq(line, s) {
            seq![(PiiType::Ssn, s, ln)]
        } else {
            Seq::empty()
        },
        None => Seq::empty(),
    }
}

/// The matches in a sequence of lines, numbered from 1.
pub open spec fn text_hits(v: PatternsView, ls: Seq<Seq<char>>) -> Seq<MatchView>
    decreases ls.len(),
{
    if ls.len() == 0 {
        Seq::empty()
    } else {
        text_hits(v, ls.drop_last()) + line_hits(v, ls.last(), ls.len())
    }
}

/// A phone found in a line's digits has the ten digits its formats need.
pub open spec fn phones_long_enough(v: PatternsView, ls: Seq<Seq<char>>) -> bool {
    forall|i: int, j: int|
        0 <= i < ls.len() && 0 <= j < v.1.len() && contains_seq(digits(#[trigger] ls[i]), #[trigger] v.1[j])
            ==> v.1[j].len() >= 10
}

/// The pattern of every email found in a lowercased line builds.
pub open spec fn email_patterns_build(v: PatternsView, ls: Seq<Seq<char>>) -> bool {
    forall|i: int, j: int|
        0 <= i < ls.len() && 0 <= j < v.0.len() && contains_seq(lowercase(#[trigger] ls[i]), #[trigger] v.0[j])
            ==> regex_builds(escaped(v.0[j]), true)
}

/// The characters `a..b` of `c` as a string.
fn substring(c: &Vec<char>, a: usize, b: usize) -> (r: String)
    requires
        a <= b <= c@.len(),
    ensures
        r@ == c@.subrange(a as int, b as int),
{
    let mut out: Vec<char> = Vec::new();
    let mut i: usize = a;
    while i < b
        invariant
            a <= i <= b <= c@.len(),
            out@ == c@.subrange(a as int, i as int),
        decreases b - i,
    {
        out.push(c[i]);
        i += 1;
        assert(out@ =~= c@.subrange(a as int, i as int));
    }
    string_from_chars(&out)
}

/// Finds a phone number in a line in one of its common formats.
fn find_phone_in_line(line: &str, phone: &str) -> (r: Option<String>)
    requires
        phone@.len() >= 10,
    ensures
        match (r, first_found(phone_line_patterns(phone@), line@)) {
            (Some(a), Some(b)) => a@ == b,
            (None, None) => true,
            _ => false,
        },
{
    let c = to_chars(phone);
    let a = substring(&c, 0, 3);
    let b = substring(&c, 3, 6);
    let d = substring(&c, 6, 10);
    let p1 = {
        let x = concat_strs("\\(", a.as_str());
        let y = concat_strs(x.as_str(), "\\)\\s*");
        let z = concat_strs(y.as_str(), b.as_str());
        let w = concat_strs(z.as_str(), "-");
        concat_strs(w.as_str(), d.as_str())
    };
    let p2 = {
        let x = concat_strs(a.as_str(), "-");
        let y = concat_strs(x.as_str(), b.as_str());
        let z = concat_strs(y.as_str(), "-");
        concat_strs(z.as_str(), d.as_str())
    };
    let p3 = {
        let x = concat_strs(a.as_str(), "\\.");
        let y = concat_strs(x.as_str(), b.as_str());
        let z = concat_strs(y.as_str(), "\\.");
        concat_strs(z.as_str(), d.as_str())
    };
    let pats: Vec<String> = vec![p1, p2, p3, phone.to_string()];
    let ghost ps = phone_line_patterns(phone@);
    assert(texts_of(pats@) =~= ps);
    let mut i: usize = 0;
    while i < pats.len()
        invariant
            pats@.len() == 4,
            texts_of(pats@) == ps,
            ps == phone_line_patterns(phone@),
            i <= 4,
            first_found(ps.take(i as int), line@) is None,
        decreases 4 - i,
    {
        proof {
            assert(ps.take(i + 1).drop_last() =~= ps.take(i as int));
            assert(ps.take(i + 1).last() == pats@[i as int]@);
        }
        match CompiledRegex::build(pats[i].as_str(), false) {
            Some(re) => {
                let found = re.find(line);
                if found.is_some() {
                    proof {
                        assert(re@ == (pats@[i as int]@, false));
                        assert(ps[i as int] == pats@[i as int]@);
                        assert(regex_builds(pats@[i as int]@, false));
                        assert(first_found(ps.take(i + 1), line@) == regex_find_first(
                            pats@[i as int]@,
                            false,
                            line@,
                        ));
                        lemma_first_found_prefix(ps, i as int + 1, line@);
                    }
                    return found;
                }
            },
            None => {},
        }
        i += 1;
    }
    assert(ps.take(4) =~= ps);
    None
}

/// Mapping a sequence with one more element appends the element's image.
proof fn lemma_map_push<A, B>(s: Seq<A>, x: A, f: spec_fn(A) -> B)
    ensures
        s.push(x).map_values(f) == s.map_values(f).push(f(x)),
{
    assert(s.push(x).map_values(f) =~= s.map_values(f).push(f(x)));
}

/// A pattern found among the first `k` is the first found among all.
proof fn lemma_first_found_prefix(ps: Seq<Seq<char>>, k: int, line: Seq<char>)
    requires
        0 <= k <= ps.len(),
        first_found(ps.take(k), line) is Some,
    ensures
        first_found(ps, line) == first_found(ps.take(k), line),
    decreases ps.len() - k,
{
    if k < ps.len() {
        assert(ps.take(k + 1).drop_last() =~= ps.take(k));
        lemma_first_found_prefix(ps, k + 1, line);
    } else {
        assert(ps.take(k) =~= ps);
    }
}

impl PiiPatterns {
    /// Patterns for the user's PII: emails lowercased, phones reduced to
    /// their digits, the SSN as given.
    pub fn from_user_pii(user_pii: UserPii) -> (r: Self)
        ensures
            r@.0 == texts_of(user_pii.emails@).map_values(|e: Seq<char>| lowercase(e)),
            r@.1 == texts_of(user_pii.phones@).map_values(|p: Seq<char>| digits(p)),
            r@.2 == match user_pii.ssn {
                Some(s) => Some(s@),
                None => None,
            },
    {
        let mut emails: Vec<String> = Vec::new();
        let mut i: usize = 0;
        while i < user_pii.emails.len()
            invariant
                i <= user_pii.emails@.len(),
                texts_of(emails@) == texts_of(user_pii.emails@.take(i as int)).map_values(
                    |e: Seq<char>| lowercase(e),
                ),
            decreases user_pii.emails@.len() - i,
        {
            let l = to_lowercase(user_pii.emails[i].as_str());
            let ghost e0 = emails@;
            emails.push(l);
            proof {
                let g = |e: Seq<char>| lowercase(e);
                let t = |s: String| s@;
                lemma_map_push(e0, l, t);
                assert(user_pii.emails@.take(i + 1) =~= user_pii.emails@.take(i as int).push(user_pii.emails@[i as int]));
                lemma_map_push(user_pii.emails@.take(i as int), user_pii.emails@[i as int], t);
                lemma_map_push(texts_of(user_pii.emails@.take(i as int)), user_pii.emails@[i as int]@, g);
            }
            i += 1;
        }
        assert(user_pii.emails@.take(user_pii.emails@.len() as int) =~= user_pii.emails@);
        let mut phones: Vec<String> = Vec::new();
        let mut j: usize = 0;
        while j < user_pii.phones.len()
            invariant
                j <= user_pii.phones@.len(),
                texts_of(phones@) == texts_of(user_pii.phones@.take(j as int)).map_values(
                    |p: Seq<char>| digits(p),
                ),
            decreases user_pii.phones@.len() - j,
        {
            let d = digits_only(user_pii.phones[j].as_str());
            let ghost p0 = phones@;
            phones.push(d);
            proof {
                let g = |p: Seq<char>| digits(p);
                let t = |s: String| s@;
                lemma_map_push(p0, d, t);
                assert(user_pii.phones@.take(j + 1) =~= user_pii.phones@.take(j as int).push(user_pii.phones@[j as int]));
                lemma_map_push(user_pii.phones@.take(j as int), user_pii.phones@[j as int], t);
                lemma_map_push(texts_of(user_pii.phones@.take(j as int)), user_pii.phones@[j as int]@, g);
            }
            j += 1;
        }
        assert(user_pii.phones@.take(user_pii.phones@.len() as int) =~= user_pii.phones@);
        PiiPatterns { user_emails: emails, user_phones: phones, user_ssn: user_pii.ssn }
    }

    /// Whether the text contains one of the user's emails, ignoring case.
    pub fn has_email(&self, text: &str) -> (r: bool)
        ensures
            r == exists|i: int| 0 <= i < self@.0.len() && contains_seq(lowercase(text@), #[trigger] self@.0[i]),
    {
        if self.user_emails.len() == 0 {
            return false;
        }
        let lower = to_lowercase(text);
        let mut i: usize = 0;
        while i < self.user_emails.len()
            invariant
                lower@ == lowercase(text@),
                i <= self@.0.len(),
                forall|j: int| 0 <= j < i ==> !contains_seq(lowercase(text@), #[trigger] self@.0[j]),
            decreases self@.0.len() - i,
        {
            if str_contains(lower.as_str(), self.user_emails[i].as_str()) {
                assert(contains_seq(lowercase(text@), self@.0[i as int]));
                return true;
            }
            i += 1;
        }
        false
    }

    /// Whether the text contains one of the user's phone numbers, in any
    /// format: the digits of the text contain the phone's digits.
    pub fn has_phone(&self, text: &str) -> (r: bool)
        ensures
            r == mentions_phone(self@, text@),
    {
        if self.user_phones.len() == 0 {
            return false;
        }
        let normalized = digits_only(text);
        let mut i: usize = 0;
        while i < self.user_phones.len()
            invariant
                normalized@ == digits(text@),
                i <= self@.1.len(),
                forall|j: int| 0 <= j < i ==> !contains_seq(digits(text@), #[trigger] self@.1[j]),
            decreases self@.1.len() - i,
        {
            if str_contains(normalized.as_str(), self.user_phones[i].as_str()) {
                assert(contains_seq(digits(text@), self@.1[i as int]));
                return true;
            }
            i += 1;
        }
        false
    }

    /// Whether the text contains the user's SSN.
    pub fn has_ssn(&self, text: &str) -> (r: bool)
        ensures
            r == (self@.2 matches Some(s) && contains_seq(text@, s)),
    {
        match &self.user_ssn {
            Some(ssn) => str_contains(text, ssn.as_str()),
            None => false,
        }
    }

    /// All matches in the text, line by line: on each line every occurrence
    /// of each email (ignoring case), the first format found of each phone,
    /// and the SSN.
    pub fn find_all(&self, text: &str) -> (r: Vec<PiiMatch>)
        requires
            email_patterns_build(self@, lines_of(text@)),
            phones_long_enough(self@, lines_of(text@)),
        ensures
            r@.map_values(|m: PiiMatch| match_view(m)) == text_hits(self@, lines_of(text@)),
    {
        let ls = lines(text);
        let ghost lv = lines_of(text@);
        let mut out: Vec<PiiMatch> = Vec::new();
        let mut n: usize = 0;
        while n < ls.len()
            invariant
                texts_of(ls@) == lv,
                lv == lines_of(text@),
                email_patterns_build(self@, lv),
                phones_long_enough(self@, lv),
                n <= ls@.len(),
                out@.map_values(|m: PiiMatch| match_view(m)) == text_hits(self@, lv.take(n as int)),
            decreases ls@.len() - n,
        {
            let line = ls[n].as_str();
            proof {
                assert(lv.take(n + 1).drop_last() =~= lv.take(n as int));
                assert(lv.take(n + 1).last() == line@);
                assert(lv[n as int] == line@);
            }
            self.line_matches(line, n + 1, &mut out, Ghost(n as int), Ghost(lv));
            n += 1;
        }
        assert(lv.take(lv.len() as int) =~= lv);
        out
    }

    /// Appends the matches of one line.
    fn line_matches(&self, line: &str, ln: usize, out: &mut Vec<PiiMatch>, Ghost(idx): Ghost<int>, Ghost(lv): Ghost<Seq<Seq<char>>>)
        requires
            email_patterns_build(self@, lv),
            phones_long_enough(self@, lv),
            0 <= idx < lv.len(),
            lv[idx] == line@,
        ensures
            final(out)@.map_values(|m: PiiMatch| match_view(m)) == old(out)@.map_values(
                |m: PiiMatch| match_view(m),
            ) + line_hits(self@, line@, ln as nat),
    {
        let ghost f = |m: PiiMatch| match_view(m);
        let ghost start = out@.map_values(f);
        let lower = to_lowercase(line);
        let normalized = digits_only(line);
        let mut i: usize = 0;
        while i < self.user_emails.len()
            invariant
                f == (|m: PiiMatch| match_view(m)),
                lower@ == lowercase(line@),
                email_patterns_build(self@, lv),
                0 <= idx < lv.len(),
                lv[idx] == line@,
                i <= self@.0.len(),
                out@.map_values(f) == start + emails_hits(self@.0.take(i as int), line@, ln as nat),
            decreases self@.0.len() - i,
        {
            let email = self.user_emails[i].as_str();
            let ghost e = self@.0[i as int];
            proof {
                assert(self@.0.take(i + 1).drop_last() =~= self@.0.take(i as int));
                assert(self@.0.take(i + 1).last() == e);
                assert(e == email@);
            }
            if str_contains(lower.as_str(), email) {
                let pat = regex_escape(email);
                proof {
                    assert(contains_seq(lowercase(lv[idx]), self@.0[i as int]));
                    assert(regex_builds(escaped(self@.0[i as int]), true));
                }
                match CompiledRegex::build(pat.as_str(), true) {
                    Some(re) => {
                        let found = re.find_all(line);
                        let mut k: usize = 0;
                        let ghost mid = out@.map_values(f);
                        let ghost ms = regex_find_all(escaped(e), true, line@);
                        while k < found.len()
                            invariant
                                f == (|m: PiiMatch| match_view(m)),
                                found@.map_values(|s: String| s@) == ms,
                                k <= found@.len(),
                                out@.map_values(f) == mid + ms.take(k as int).map_values(
                                    |m: Seq<char>| (PiiType::Email, m, ln as nat),
                                ),
                            decreases found@.len() - k,
                        {
                            let ghost o0 = out@;
                            out.push(PiiMatch { pii_type: PiiType::Email, matched_value: found[k].clone(), line_number: ln });
                            proof {
                                assert(ms[k as int] == found@[k as int]@);
                                assert(out@.last().matched_value == found@[k as int]);
                                assert(out@.last().pii_type == PiiType::Email);
                                assert(out@.last().line_number == ln);
                                assert(match_view(out@.last()) == (PiiType::Email, ms[k as int], ln as nat));
                                assert(f(out@.last()) == (PiiType::Email, ms[k as int], ln as nat));
                                lemma_map_push(o0, out@.last(), f);
                                assert(out@ == o0.push(out@.last()));
                                assert(out@.map_values(f) =~= o0.map_values(f).push((PiiType::Email, ms[k as int], ln as nat)));
                                assert(ms.take(k + 1) =~= ms.take(k as int).push(ms[k as int]));
                                assert(ms.take(k + 1).map_values(|m: Seq<char>| (PiiType::Email, m, ln as nat))
                                    =~= ms.take(k as int).map_values(|m: Seq<char>| (PiiType::Email, m, ln as nat)).push((PiiType::Email, ms[k as int], ln as nat)));
                            }
                            k += 1;
                        }
                        proof {
                            assert(ms.take(ms.len() as int) =~= ms);
                        }
                    },
                    None => {},
                }
            }
            i += 1;
            proof {
                assert(out@.map_values(f) =~= start + emails_hits(self@.0.take(i as int), line@, ln as nat));
            }
        }
        assert(self@.0.take(self@.0.len() as int) =~= self@.0);
        let ghost after_emails = out@.map_values(f);
        let mut j: usize = 0;
        while j < self.user_phones.len()
            invariant
                f == (|m: PiiMatch| match_view(m)),
                normalized@ == digits(line@),
                phones_long_enough(self@, lv),
                0 <= idx < lv.len(),
                lv[idx] == line@,
                j <= self@.1.len(),
                out@.map_values(f) == after_emails + phones_hits(self@.1.take(j as int), line@, ln as nat),
            decreases self@.1.len() - j,
        {
            let phone = self.user_phones[j].as_str();
            let ghost p = self@.1[j as int];
            proof {
                assert(self@.1.take(j + 1).drop_last() =~= self@.1.take(j as int));
                assert(self@.1.take(j + 1).last() == p);
                assert(p == phone@);
            }
            if str_contains(normalized.as_str(), phone) {
                proof {
                    assert(contains_seq(digits(lv[idx]), self@.1[j as int]));
                }
                let ghost o0 = out@;
                match find_phone_in_line(line, phone) {
                    Some(m) => {
                        let ghost mv = m@;
                        out.push(PiiMatch { pii_type: PiiType::Phone, matched_value: m, line_number: ln });
                        proof {
                            assert(first_found(phone_line_patterns(p), line@) == Some(mv));
                            assert(f(out@.last()) == (PiiType::Phone, mv, ln as nat));
                            lemma_map_push(o0, out@.last(), f);
                            assert(out@ == o0.push(out@.last()));
                            assert(phone_hits(p, line@, ln as nat) == seq![f(out@.last())]);
                        }
                    },
                    None => {
                        assert(phone_hits(p, line@, ln as nat) =~= Seq::<crate::discovery::filesystem::MatchView>::empty());
                    },
                }
            }
            j += 1;
            proof {
                assert(out@.map_values(f) =~= after_emails + phones_hits(self@.1.take(j as int), line@, ln as nat));
            }
        }
        assert(self@.1.take(self@.1.len() as int) =~= self@.1);
        let ghost after_phones = out@.map_values(f);
        match &self.user_ssn {
            Some(ssn) => {
                if str_contains(line, ssn.as_str()) {
                    let ghost o0 = out@;
                    out.push(PiiMatch { pii_type: PiiType::Ssn, matched_value: ssn.clone(), line_number: ln });
                    proof {
                        lemma_map_push(o0, out@.last(), f);
                        assert(out@ == o0.push(out@.last()));
                    }
                }
            },
            None => {},
        }
        proof {
            assert(out@.map_values(f) =~= start + line_hits(self@, line@, ln as nat));
        }
    }

    /// All matches in the text when the pattern of every email found in it
    /// builds and every phone found in it has ten digits; `None` otherwise.
    pub fn try_find_all(&self, text: &str) -> (r: Option<Vec<PiiMatch>>)
        ensures
            (email_patterns_build(self@, lines_of(text@)) && phones_long_enough(self@, lines_of(text@)))
                ==> (r matches Some(v) && v@.map_values(|m: PiiMatch| match_view(m)) == text_hits(
                self@,
                lines_of(text@),
            )),
            !(email_patterns_build(self@, lines_of(text@)) && phones_long_enough(self@, lines_of(text@)))
                ==> r is None,
    {
        let ls = lines(text);
        let ghost lv = lines_of(text@);
        let mut a: usize = 0;
        while a < ls.len()
            invariant
                texts_of(ls@) == lv,
                lv == lines_of(text@),
                a <= lv.len(),
                forall|x: int, y: int|
                    0 <= x < a && 0 <= y < self@.0.len() && contains_seq(lowercase(#[trigger] lv[x]), #[trigger] self@.0[y])
                        ==> regex_builds(escaped(self@.0[y]), true),
                forall|x: int, y: int|
                    0 <= x < a && 0 <= y < self@.1.len() && contains_seq(digits(#[trigger] lv[x]), #[trigger] self@.1[y])
                        ==> self@.1[y].len() >= 10,
            decreases lv.len() - a,
        {
            let lower = to_lowercase(ls[a].as_str());
            let mut e: usize = 0;
            while e < self.user_emails.len()
                invariant
                    texts_of(ls@) == lv,
                    lv == lines_of(text@),
                    a < lv.len(),
                    lower@ == lowercase(lv[a as int]),
                    e <= self@.0.len(),
                    forall|y: int|
                        0 <= y < e && contains_seq(lowercase(lv[a as int]), #[trigger] self@.0[y])
                            ==> regex_builds(escaped(self@.0[y]), true),
                decreases self@.0.len() - e,
            {
                let email = self.user_emails[e].as_str();
                if str_contains(lower.as_str(), email) {
                    let pat = regex_escape(email);
                    if CompiledRegex::build(pat.as_str(), true).is_none() {
                        assert(email@ == self@.0[e as int]);
                        assert(contains_seq(lowercase(lv[a as int]), self@.0[e as int]));
                        assert(!regex_builds(escaped(self@.0[e as int]), true));
                        return None;
                    }
                }
                e += 1;
            }
            let d = digits_only(ls[a].as_str());
            let mut b: usize = 0;
            while b < self.user_phones.len()
                invariant
                    texts_of(ls@) == lv,
                    lv == lines_of(text@),
                    a < lv.len(),
                    d@ == digits(lv[a as int]),
                    b <= self@.1.len(),
                    forall|x: int, y: int|
                        0 <= x < a && 0 <= y < self@.1.len() && contains_seq(digits(#[trigger] lv[x]), #[trigger] self@.1[y])
                            ==> self@.1[y].len() >= 10,
                    forall|y: int|
                        0 <= y < b && contains_seq(digits(lv[a as int]), #[trigger] self@.1[y])
                            ==> self@.1[y].len() >= 10,
                decreases self@.1.len() - b,
            {
                let p = self.user_phones[b].as_str();
                if str_contains(d.as_str(), p) {
                    let pc = to_chars(p);
                    if pc.len() < 10 {
                        assert(p@ == self@.1[b as int]);
                        assert(contains_seq(digits(lv[a as int]), self@.1[b as int]) && self@.1[b as int].len() < 10);
                        return None;
                    }
                }
                b += 1;
            }
            a += 1;
        }
        Some(self.find_all(text))
    }
}

/// The file extensions that are scanned as text.
pub open spec fn is_scannable_extension(e: Seq<char>) -> bool {
    e == "txt"@ || e == "csv"@ || e == "json"@ || e == "md"@ || e == "log"@
}

/// The last component of a path: what follows its last `/`.
pub open spec fn last_component(p: Seq<char>) -> Seq<char> {
    if exists|i: int| 0 <= i < p.len() && p[i] == '/' {
        let i = choose|i: int|
            0 <= i < p.len() && p[i] == '/' && forall|j: int| i < j < p.len() ==> p[j] != '/';
        p.subrange(i + 1, p.len() as int)
    } else {
        p
    }
}

/// Whether a file is scanned: its extension, lowercased, is one of the text
/// extensions.
pub open spec fn is_scannable_spec(path: Seq<char>) -> bool {
    file_extension(last_component(path)) matches Some(e) && is_scannable_extension(lowercase(e))
}

/// Whether a file should be scanned, by its extension.
pub fn is_scannable(path: &str) -> (r: bool)
    ensures
        r == is_scannable_spec(path@),
{
    let name = last_component_of(path);
    match crate::broker::loader::extension_of(name.as_str()) {
        Some(ext) => {
            let l = to_lowercase(ext.as_str());
            let l = l.as_str();
            str_eq(l, "txt") || str_eq(l, "csv") || str_eq(l, "json") || str_eq(l, "md") || str_eq(l, "log")
        },
        None => false,
    }
}

/// The last component of a path.
pub(crate) fn last_component_of(path: &str) -> (r: String)
    ensures
        r@ == last_component(path@),
{
    let c = to_chars(path);
    let n = c.len();
    let mut i: usize = n;
    while i > 0 && c[i - 1] != '/'
        invariant
            c@ == path@,
            n == c@.len(),
            i <= n,
            forall|j: int| i <= j < n ==> c@[j] != '/',
        decreases i,
    {
        i -= 1;
    }
    if i == 0 {
        assert(!(exists|k: int| 0 <= k < path@.len() && path@[k] == '/')) by {
            if exists|k: int| 0 <= k < path@.len() && path@[k] == '/' {
                let k = choose|k: int| 0 <= k < path@.len() && path@[k] == '/';
                assert(k >= i);
            }
        }
        assert(c@.subrange(0, n as int) =~= path@);
        return substring(&c, 0, n);
    }
    let ghost pick = choose|q: int|
        0 <= q < path@.len() && path@[q] == '/' && forall|j: int| q < j < path@.len() ==> path@[j] != '/';
    proof {
        let d = (i - 1) as int;
        assert(0 <= d < path@.len() && path@[d] == '/' && forall|j: int| d < j < path@.len() ==> path@[j] != '/');
        assert(pick == d) by {
            if pick < d {
            } else if pick > d {
            }
        }
    }
    substring(&c, i, n)
}

} // verus!
