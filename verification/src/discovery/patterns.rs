//! Matching of the user's PII in text: address proximity rules, date parsing
//! and formatting of reported values.

use vstd::prelude::*;
use crate::text::{
    str_eq, to_chars, parse_u32_chars, parse_u32_spec, string_from_chars, digits, digits_only,
    push_char, char_len_utf8, utf8_len, join_with, is_digit,
};
use crate::discovery::types::AddressInfo;


verus! {

/// Two address components form a pair worth reporting: a street with anything,
/// or a city together with a state or a ZIP code.
pub open spec fn valid_pair(c1: Seq<char>, c2: Seq<char>) -> bool {
    ||| c1 == "street"@
    ||| c2 == "street"@
    ||| (c1 == "city"@ && c2 == "state"@)
    ||| (c1 == "state"@ && c2 == "city"@)
    ||| (c1 == "city"@ && c2 == "zip"@)
    ||| (c1 == "zip"@ && c2 == "city"@)
}

/// Returns true if the two address component types form a valid matchable pair.
///
/// Valid combinations are a street with any other component, a city with a
/// state, and a city with a ZIP code. A state with a ZIP code alone is too
/// generic to count.
pub fn is_valid_address_pair(comp1: &str, comp2: &str) -> (r: bool)
    ensures
        r == valid_pair(comp1@, comp2@),
{
    let has_street = str_eq(comp1, "street") || str_eq(comp2, "street");
    let has_city_state = (str_eq(comp1, "city") && str_eq(comp2, "state")) || (str_eq(
        comp1,
        "state",
    ) && str_eq(comp2, "city"));
    let has_city_zip = (str_eq(comp1, "city") && str_eq(comp2, "zip")) || (str_eq(comp1, "zip")
        && str_eq(comp2, "city"));
    has_street || has_city_state || has_city_zip
}

/// Whether two components form a valid pair does not depend on their order.
pub proof fn law_valid_pair_symmetric(c1: Seq<char>, c2: Seq<char>)
    ensures
        valid_pair(c1, c2) == valid_pair(c2, c1),
{
}

/// The line reported for a matched pair: the street's line if either is a
/// street, else the city's line if either is a city, else the first line.
pub open spec fn report_line(line1: usize, comp1: Seq<char>, line2: usize, comp2: Seq<char>) -> usize {
    if comp1 == "street"@ {
        line1
    } else if comp2 == "street"@ {
        line2
    } else if comp1 == "city"@ {
        line1
    } else if comp2 == "city"@ {
        line2
    } else {
        line1
    }
}

/// Determine the best line to report for a matched component pair.
/// Prefers street > city > first component.
pub fn pick_report_line(line1: usize, comp1: &str, line2: usize, comp2: &str) -> (r: usize)
    ensures
        r == report_line(line1, comp1@, line2, comp2@),
{
    if str_eq(comp1, "street") {
        line1
    } else if str_eq(comp2, "street") {
        line2
    } else if str_eq(comp1, "city") {
        line1
    } else if str_eq(comp2, "city") {
        line2
    } else {
        line1
    }
}

/// The reported line is always the line of one of the two components.
pub proof fn lemma_report_line_is_a_component_line(
    line1: usize,
    comp1: Seq<char>,
    line2: usize,
    comp2: Seq<char>,
)
    ensures
        report_line(line1, comp1, line2, comp2) == line1 || report_line(line1, comp1, line2, comp2)
            == line2,
        comp1 == "street"@ ==> report_line(line1, comp1, line2, comp2) == line1,
        comp1 != "street"@ && comp2 == "street"@ ==> report_line(line1, comp1, line2, comp2)
            == line2,
{
}

/// Distance between two line indices.
pub open spec fn line_distance(a: usize, b: usize) -> nat {
    if a >= b {
        (a - b) as nat
    } else {
        (b - a) as nat
    }
}

/// Components `i < j` lie within `proximity` lines of each other and form a
/// valid pair.
pub open spec fn pair_ok(cs: Seq<(usize, &str)>, proximity: usize, i: int, j: int) -> bool {
    &&& 0 <= i < j < cs.len()
    &&& line_distance(cs[i].0, cs[j].0) <= proximity
    &&& valid_pair(cs[i].1@, cs[j].1@)
}

/// `(i1, j1)` comes before `(i2, j2)` in the scan order of index pairs.
pub open spec fn pair_before(i1: int, j1: int, i2: int, j2: int) -> bool {
    i1 < i2 || (i1 == i2 && j1 < j2)
}

/// `(i, j)` is the first good pair in scan order.
pub open spec fn first_pair(cs: Seq<(usize, &str)>, proximity: usize, i: int, j: int) -> bool {
    &&& pair_ok(cs, proximity, i, j)
    &&& forall|i2: int, j2: int|
        pair_ok(cs, proximity, i2, j2) ==> !pair_before(i2, j2, i, j)
}

/// Find the first valid component pair within proximity, returning
/// `(line1, comp1, line2, comp2)`.
pub fn find_first_valid_pair<'a>(components: &[(usize, &'a str)], proximity: usize) -> (r: Option<
    (usize, &'a str, usize, &'a str),
>)
    ensures
        r is None <==> forall|i: int, j: int| !pair_ok(components@, proximity, i, j),
        r matches Some((l1, c1, l2, c2)) ==> exists|i: int, j: int|
            first_pair(components@, proximity, i, j) && components@[i] == (l1, c1)
                && components@[j] == (l2, c2),
{
    let n = components.len();
    let mut i: usize = 0;
    while i < n
        invariant
            n == components@.len(),
            i <= n,
            forall|i2: int, j2: int|
                #![trigger pair_ok(components@, proximity, i2, j2)]
                i2 < i ==> !pair_ok(components@, proximity, i2, j2),
        decreases n - i,
    {
        let mut j: usize = i + 1;
        while j < n
            invariant
                n == components@.len(),
                i < n,
                i + 1 <= j <= n,
                forall|i2: int, j2: int|
                    #![trigger pair_ok(components@, proximity, i2, j2)]
                    i2 < i ==> !pair_ok(components@, proximity, i2, j2),
                forall|j2: int|
                    #![trigger pair_ok(components@, proximity, i as int, j2)]
                    j2 < j ==> !pair_ok(components@, proximity, i as int, j2),
            decreases n - j,
        {
            let (line1, comp1) = components[i];
            let (line2, comp2) = components[j];
            let dist = if line1 >= line2 {
                line1 - line2
            } else {
                line2 - line1
            };
            if dist <= proximity && is_valid_address_pair(comp1, comp2) {
                assert(pair_ok(components@, proximity, i as int, j as int));
                assert(first_pair(components@, proximity, i as int, j as int)) by {
                    assert forall|i2: int, j2: int|
                        pair_ok(components@, proximity, i2, j2) implies !pair_before(
                        i2,
                        j2,
                        i as int,
                        j as int,
                    ) by {
                        if i2 < i {
                        } else if i2 == i && j2 < j {
                        }
                    }
                }
                return Some((line1, comp1, line2, comp2));
            }
            j += 1;
        }
        i += 1;
    }
    assert forall|i2: int, j2: int| !pair_ok(components@, proximity, i2, j2) by {
        if pair_ok(components@, proximity, i2, j2) {
            assert(i2 < i);
        }
    }
    None
}

/// A date field separator: `/`, `-` or `.`.
pub open spec fn is_date_sep(c: char) -> bool {
    c == '/' || c == '-' || c == '.'
}

/// The pieces of `s` between date separators, as `str::split` yields them
/// (n separators give n + 1 pieces, possibly empty).
pub open spec fn split_date(s: Seq<char>) -> Seq<Seq<char>>
    decreases s.len(),
{
    if s.len() == 0 {
        seq![Seq::empty()]
    } else {
        let p = split_date(s.drop_last());
        if is_date_sep(s.last()) {
            p.push(Seq::empty())
        } else {
            p.update(p.len() - 1, p.last().push(s.last()))
        }
    }
}

/// Splitting always yields at least one piece.
proof fn lemma_split_date_nonempty(s: Seq<char>)
    ensures
        split_date(s).len() >= 1,
    decreases s.len(),
{
    if s.len() > 0 {
        lemma_split_date_nonempty(s.drop_last());
    }
}

/// `(month, day, year)` read from a date with three numeric fields: a first
/// field above 31 is a year (`YYYY-MM-DD`), else a last field above 31 is a
/// year (`MM/DD/YYYY`); anything else is not understood.
pub open spec fn parse_date_spec(date: Seq<char>) -> Option<(u32, u32, u32)> {
    let parts = split_date(date);
    if parts.len() == 3 && parse_u32_spec(parts[0]) is Some && parse_u32_spec(parts[1]) is Some
        && parse_u32_spec(parts[2]) is Some {
        let a = parse_u32_spec(parts[0])->0;
        let b = parse_u32_spec(parts[1])->0;
        let c = parse_u32_spec(parts[2])->0;
        if a > 31 {
            Some((b, c, a))
        } else if c > 31 {
            Some((a, b, c))
        } else {
            None
        }
    } else {
        None
    }
}

/// Splits a date into its fields.
fn split_date_fields(date: &Vec<char>) -> (parts: Vec<Vec<char>>)
    ensures
        parts@.len() == split_date(date@).len(),
        forall|k: int| 0 <= k < parts@.len() ==> #[trigger] parts@[k]@ == split_date(date@)[k],
{
    let mut parts: Vec<Vec<char>> = Vec::new();
    let mut cur: Vec<char> = Vec::new();
    let mut i: usize = 0;
    proof {
        assert(date@.take(0) =~= Seq::<char>::empty());
    }
    while i < date.len()
        invariant
            i <= date@.len(),
            parts@.len() + 1 == split_date(date@.take(i as int)).len(),
            forall|k: int| 0 <= k < parts@.len() ==> #[trigger] parts@[k]@ == split_date(
                date@.take(i as int),
            )[k],
            cur@ == split_date(date@.take(i as int)).last(),
        decreases date@.len() - i,
    {
        let c = date[i];
        proof {
            assert(date@.take(i + 1).drop_last() =~= date@.take(i as int));
            lemma_split_date_nonempty(date@.take(i as int));
        }
        if c == '/' || c == '-' || c == '.' {
            let done = cur;
            parts.push(done);
            cur = Vec::new();
        } else {
            cur.push(c);
        }
        i += 1;
    }
    assert(date@.take(date@.len() as int) =~= date@);
    parts.push(cur);
    parts
}

/// Reads `(month, day, year)` from a date written as `MM/DD/YYYY`,
/// `YYYY-MM-DD` or with `.` separators.
pub fn parse_date(date: &str) -> (r: Option<(u32, u32, u32)>)
    ensures
        r == parse_date_spec(date@),
{
    let chars = to_chars(date);
    let parts = split_date_fields(&chars);
    if parts.len() == 3 {
        let a = parse_u32_chars(&parts[0]);
        let b = parse_u32_chars(&parts[1]);
        let c = parse_u32_chars(&parts[2]);
        match (a, b, c) {
            (Some(a), Some(b), Some(c)) => {
                if a > 31 {
                    return Some((b, c, a));
                }
                if c > 31 {
                    return Some((a, b, c));
                }
                None
            },
            _ => None,
        }
    } else {
        None
    }
}

/// `k` characters is the longest prefix of `s` whose UTF-8 encoding fits in
/// `max` bytes.
pub open spec fn longest_fitting_prefix(s: Seq<char>, max: nat, k: int) -> bool {
    &&& 0 <= k <= s.len()
    &&& utf8_len(s.take(k)) <= max
    &&& (k == s.len() || utf8_len(s.take(k + 1)) > max)
}

/// The number of characters of the longest prefix of `s` whose UTF-8
/// encoding fits in `max` bytes.
pub open spec fn fit_len(s: Seq<char>, max: nat) -> nat
    decreases s.len(),
{
    if s.len() == 0 {
        0
    } else if utf8_len(s) <= max {
        s.len()
    } else {
        fit_len(s.drop_last(), max)
    }
}

/// What `truncate` yields: `s` itself when its encoding fits in `max` bytes,
/// else the longest prefix that fits followed by `...`.
pub open spec fn truncated(s: Seq<char>, max: nat) -> Seq<char> {
    if utf8_len(s) <= max {
        s
    } else {
        s.take(fit_len(s, max) as int) + "..."@
    }
}

/// The longest fitting prefix is the one `fit_len` counts.
pub proof fn lemma_fit_len(s: Seq<char>, max: nat, k: int)
    requires
        longest_fitting_prefix(s, max, k),
    ensures
        fit_len(s, max) == k,
    decreases s.len(),
{
    if s.len() > 0 && utf8_len(s) > max {
        let t = s.drop_last();
        assert(k < s.len()) by {
            if k == s.len() {
                assert(s.take(k) =~= s);
            }
        }
        assert(t.take(k) =~= s.take(k));
        if k + 1 <= t.len() {
            assert(t.take(k + 1) =~= s.take(k + 1));
        }
        lemma_fit_len(t, max, k);
    } else if s.len() > 0 {
        if k < s.len() {
            lemma_utf8_len_prefix_monotone(s, k + 1);
        }
    }
}

/// Cuts a line down to at most `max` bytes (at a character boundary),
/// marking the cut with `...`.
pub fn truncate(s: &str, max: usize) -> (r: String)
    ensures
        r@ == truncated(s@, max as nat),
{
    let chars = to_chars(s);
    let mut k: usize = 0;
    let mut used: usize = 0;
    let mut full = false;
    while !full && k < chars.len()
        invariant
            chars@ == s@,
            k <= chars@.len(),
            used == utf8_len(chars@.take(k as int)),
            used <= max,
            full ==> k < chars@.len() && utf8_len(chars@.take(k + 1)) > max,
        decreases chars@.len() - k, (if full { 0int } else { 1int }),
    {
        let w = char_len_utf8(chars[k]);
        proof {
            assert(chars@.take(k + 1).drop_last() =~= chars@.take(k as int));
        }
        if w > max - used {
            full = true;
        } else {
            used = used + w;
            k += 1;
        }
    }
    if k == chars.len() {
        assert(chars@.take(k as int) =~= s@);
        return string_from_chars(&chars);
    }
    let mut out: Vec<char> = Vec::new();
    let mut i: usize = 0;
    while i < k
        invariant
            k < chars@.len(),
            i <= k,
            out@ == chars@.take(i as int),
        decreases k - i,
    {
        out.push(chars[i]);
        i += 1;
        assert(out@ =~= chars@.take(i as int));
    }
    let mut r = string_from_chars(&out);
    push_char(&mut r, '.');
    push_char(&mut r, '.');
    push_char(&mut r, '.');
    proof {
        reveal_strlit("...");
        lemma_utf8_len_prefix_monotone(s@, k as int + 1);
        assert(longest_fitting_prefix(s@, max as nat, k as int));
        lemma_fit_len(s@, max as nat, k as int);
        assert(r@ =~= s@.take(k as int) + "..."@);
    }
    r
}

/// The encoding of a prefix is never longer than the encoding of the whole.
pub proof fn lemma_utf8_len_prefix_monotone(s: Seq<char>, k: int)
    requires
        0 <= k <= s.len(),
    ensures
        utf8_len(s.take(k)) <= utf8_len(s),
    decreases s.len() - k,
{
    if k < s.len() {
        lemma_utf8_len_prefix_monotone(s, k + 1);
        assert(s.take(k + 1).drop_last() =~= s.take(k));
    } else {
        assert(s.take(k) =~= s);
    }
}

/// What `mask_ssn` yields: the last four digits behind a mask, or a full mask
/// when fewer than four digits are present.
pub open spec fn masked_ssn(ssn: Seq<char>) -> Seq<char> {
    let d = digits(ssn);
    if d.len() >= 4 {
        "***-**-"@ + d.subrange(d.len() - 4, d.len() as int)
    } else {
        "***-**-****"@
    }
}

/// Masks an SSN, keeping only its last four digits.
pub fn mask_ssn(ssn: &str) -> (r: String)
    ensures
        r@ == masked_ssn(ssn@),
{
    let digits_str = digits_only(ssn);
    let d = to_chars(digits_str.as_str());
    if d.len() >= 4 {
        let mut out = to_chars("***-**-");
        let mut i: usize = d.len() - 4;
        let ghost prefix = out@;
        while i < d.len()
            invariant
                d@.len() >= 4,
                d.len() - 4 <= i <= d.len(),
                out@ == prefix + d@.subrange(d.len() - 4, i as int),
            decreases d.len() - i,
        {
            out.push(d[i]);
            i += 1;
            assert(out@ =~= prefix + d@.subrange(d.len() - 4, i as int));
        }
        string_from_chars(&out)
    } else {
        let out = to_chars("***-**-****");
        string_from_chars(&out)
    }
}

/// The fields of an address that are present, in street, city, state, ZIP order.
pub open spec fn address_fields(addr: AddressInfo) -> Seq<Seq<char>> {
    let s1: Seq<Seq<char>> = if addr.street is Some { seq![addr.street->0@] } else { seq![] };
    let s2: Seq<Seq<char>> = if addr.city is Some { seq![addr.city->0@] } else { seq![] };
    let s3: Seq<Seq<char>> = if addr.state is Some { seq![addr.state->0@] } else { seq![] };
    let s4: Seq<Seq<char>> = if addr.zip is Some { seq![addr.zip->0@] } else { seq![] };
    s1 + s2 + s3 + s4
}

/// Appends `part` to `acc`, after `", "` unless `acc` holds nothing yet.
fn append_field(acc: &mut Vec<char>, count: usize, part: &String, Ghost(parts): Ghost<Seq<Seq<char>>>)
    requires
        count == parts.len(),
        old(acc)@ == join_with(parts, ", "@),
        count < usize::MAX,
    ensures
        final(acc)@ == join_with(parts.push(part@), ", "@),
{
    let p = to_chars(part.as_str());
    if count > 0 {
        let sep = to_chars(", ");
        let mut i: usize = 0;
        let ghost before = acc@;
        while i < sep.len()
            invariant
                acc@ == before + sep@.take(i as int),
                i <= sep@.len(),
            decreases sep@.len() - i,
        {
            acc.push(sep[i]);
            i += 1;
            assert(acc@ =~= before + sep@.take(i as int));
        }
        assert(sep@.take(sep@.len() as int) =~= sep@);
    }
    let ghost mid = acc@;
    let mut j: usize = 0;
    while j < p.len()
        invariant
            acc@ == mid + p@.take(j as int),
            j <= p@.len(),
        decreases p@.len() - j,
    {
        acc.push(p[j]);
        j += 1;
        assert(acc@ =~= mid + p@.take(j as int));
    }
    assert(p@.take(p@.len() as int) =~= p@);
    proof {
        let np = parts.push(part@);
        assert(np.drop_last() =~= parts);
        if count == 0 {
            assert(np =~= seq![part@]);
        }
    }
}

/// Formats an address as its present fields joined by `", "`.
pub fn format_address(addr: &AddressInfo) -> (r: String)
    ensures
        r@ == join_with(address_fields(*addr), ", "@),
{
    let mut acc: Vec<char> = Vec::new();
    let mut count: usize = 0;
    let ghost mut parts: Seq<Seq<char>> = Seq::empty();
    if let Some(s) = &addr.street {
        append_field(&mut acc, count, s, Ghost(parts));
        proof { parts = parts.push(s@); }
        count += 1;
    }
    if let Some(s) = &addr.city {
        append_field(&mut acc, count, s, Ghost(parts));
        proof { parts = parts.push(s@); }
        count += 1;
    }
    if let Some(s) = &addr.state {
        append_field(&mut acc, count, s, Ghost(parts));
        proof { parts = parts.push(s@); }
        count += 1;
    }
    if let Some(s) = &addr.zip {
        append_field(&mut acc, count, s, Ghost(parts));
        proof { parts = parts.push(s@); }
        count += 1;
    }
    assert(parts =~= address_fields(*addr));
    string_from_chars(&acc)
}

/// The digits of a concatenation are those of its parts, in order.
proof fn lemma_digits_concat(a: Seq<char>, b: Seq<char>)
    ensures
        digits(a + b) == digits(a) + digits(b),
    decreases b.len(),
{
    if b.len() == 0 {
        assert(a + b =~= a);
        assert(digits(a) + digits(b) =~= digits(a));
    } else {
        lemma_digits_concat(a, b.drop_last());
        assert((a + b).drop_last() =~= a + b.drop_last());
        assert((a + b).last() == b.last());
        if is_digit(b.last()) {
            assert(digits(a) + digits(b) =~= (digits(a) + digits(b.drop_last())).push(b.last()));
        }
    }
}

/// A text without digits has none.
proof fn lemma_digits_none(s: Seq<char>)
    requires
        forall|i: int| 0 <= i < s.len() ==> !is_digit(#[trigger] s[i]),
    ensures
        digits(s) == Seq::<char>::empty(),
    decreases s.len(),
{
    if s.len() > 0 {
        assert forall|i: int| 0 <= i < s.drop_last().len() implies !is_digit(#[trigger] s.drop_last()[i]) by {
            assert(s.drop_last()[i] == s[i]);
        }
        lemma_digits_none(s.drop_last());
        assert(!is_digit(s[s.len() - 1]));
    }
}

/// The digits of a text are digits.
proof fn lemma_digits_are_digits(s: Seq<char>)
    ensures
        forall|i: int| 0 <= i < digits(s).len() ==> is_digit(#[trigger] digits(s)[i]),
    decreases s.len(),
{
    if s.len() > 0 {
        lemma_digits_are_digits(s.drop_last());
        let p = digits(s.drop_last());
        if is_digit(s.last()) {
            assert forall|i: int| 0 <= i < digits(s).len() implies is_digit(#[trigger] digits(s)[i]) by {
                if i < p.len() {
                    assert(digits(s)[i] == p[i]);
                }
            }
        }
    }
}

/// A text of digits is its own digits.
proof fn lemma_digits_of_digits(s: Seq<char>)
    requires
        forall|i: int| 0 <= i < s.len() ==> is_digit(#[trigger] s[i]),
    ensures
        digits(s) == s,
    decreases s.len(),
{
    if s.len() > 0 {
        assert forall|i: int| 0 <= i < s.drop_last().len() implies is_digit(#[trigger] s.drop_last()[i]) by {
            assert(s.drop_last()[i] == s[i]);
        }
        lemma_digits_of_digits(s.drop_last());
        assert(is_digit(s[s.len() - 1]));
        assert(s.drop_last().push(s.last()) =~= s);
    }
}

/// A masked SSN shows no digit but the last four of the SSN (none when it
/// has fewer than four).
pub proof fn law_mask_shows_only_last_four(ssn: Seq<char>)
    ensures
        digits(masked_ssn(ssn)) == if digits(ssn).len() >= 4 {
            digits(ssn).subrange(digits(ssn).len() - 4, digits(ssn).len() as int)
        } else {
            Seq::<char>::empty()
        },
{
    let d = digits(ssn);
    reveal_strlit("***-**-");
    reveal_strlit("***-**-****");
    lemma_digits_none("***-**-"@);
    lemma_digits_none("***-**-****"@);
    if d.len() >= 4 {
        let tail = d.subrange(d.len() - 4, d.len() as int);
        lemma_digits_are_digits(ssn);
        assert forall|i: int| 0 <= i < tail.len() implies is_digit(#[trigger] tail[i]) by {
            assert(tail[i] == d[d.len() - 4 + i]);
        }
        lemma_digits_of_digits(tail);
        lemma_digits_concat("***-**-"@, tail);
        assert(Seq::<char>::empty() + tail =~= tail);
    }
}

} // verus!
