//! Verified string helpers over character sequences.
//!
//! Strings are reasoned about through their `Seq<char>` views. Byte lengths
//! follow the UTF-8 widths that `char::len_utf8` documents.

use vstd::prelude::*;

verus! {

/// An ASCII decimal digit.
pub open spec fn is_digit(c: char) -> bool {
    '0' <= c && c <= '9'
}

/// The ASCII digits of `s`, in order.
pub open spec fn digits(s: Seq<char>) -> Seq<char>
    decreases s.len(),
{
    if s.len() == 0 {
        Seq::empty()
    } else if is_digit(s.last()) {
        digits(s.drop_last()).push(s.last())
    } else {
        digits(s.drop_last())
    }
}

/// `pat` occurs in `text` starting at position `i`.
pub open spec fn occurs_at(text: Seq<char>, pat: Seq<char>, i: int) -> bool {
    &&& 0 <= i
    &&& i + pat.len() <= text.len()
    &&& text.subrange(i, i + pat.len()) == pat
}

/// `pat` occurs somewhere in `text`.
pub open spec fn contains_seq(text: Seq<char>, pat: Seq<char>) -> bool {
    exists|i: int| occurs_at(text, pat, i)
}

/// `text` begins with `pat`.
pub open spec fn starts_with(text: Seq<char>, pat: Seq<char>) -> bool {
    occurs_at(text, pat, 0)
}

/// `text` ends with `pat`.
pub open spec fn ends_with(text: Seq<char>, pat: Seq<char>) -> bool {
    pat.len() <= text.len() && occurs_at(text, pat, text.len() - pat.len())
}

/// Decimal value of a sequence of digits.
pub open spec fn digits_value(s: Seq<char>) -> nat
    decreases s.len(),
{
    if s.len() == 0 {
        0
    } else {
        digits_value(s.drop_last()) * 10 + ((s.last() as nat) - ('0' as nat)) as nat
    }
}

/// Every character of `s` is a digit.
pub open spec fn all_digits(s: Seq<char>) -> bool {
    forall|i: int| 0 <= i < s.len() ==> is_digit(#[trigger] s[i])
}

/// What `str::parse::<u32>` yields: an optional `+` followed by at least one
/// digit, with a value that fits in a `u32`.
pub open spec fn parse_u32_spec(s: Seq<char>) -> Option<u32> {
    let body = if s.len() > 0 && s[0] == '+' { s.drop_first() } else { s };
    if body.len() > 0 && all_digits(body) && digits_value(body) <= u32::MAX {
        Some(digits_value(body) as u32)
    } else {
        None
    }
}

/// Width in bytes of the UTF-8 encoding of `c`.
pub open spec fn char_width(c: char) -> nat {
    if (c as u32) < 0x80 {
        1
    } else if (c as u32) < 0x800 {
        2
    } else if (c as u32) < 0x10000 {
        3
    } else {
        4
    }
}

/// Width in bytes of the UTF-8 encoding of `s`.
pub open spec fn utf8_len(s: Seq<char>) -> nat
    decreases s.len(),
{
    if s.len() == 0 {
        0
    } else {
        utf8_len(s.drop_last()) + char_width(s.last())
    }
}

/// The parts joined with `sep` between consecutive parts.
pub open spec fn join_with(parts: Seq<Seq<char>>, sep: Seq<char>) -> Seq<char>
    decreases parts.len(),
{
    if parts.len() == 0 {
        Seq::empty()
    } else if parts.len() == 1 {
        parts[0]
    } else {
        join_with(parts.drop_last(), sep) + sep + parts.last()
    }
}

/// Copies the characters of a string slice into a vector.
pub fn to_chars(s: &str) -> (v: Vec<char>)
    ensures
        v@ == s@,
{
    let mut v: Vec<char> = Vec::new();
    for c in it: s.chars()
        invariant
            v@ == it.seq().take(it.index() as int),
            it.seq() == s@,
    {
        v.push(c);
    }
    v
}

/// Builds a `String` holding exactly the given characters (std's
/// `FromIterator<&char> for String`, which appends each character in order).
#[verifier::external_body]
pub(crate) fn string_from_chars(v: &Vec<char>) -> (s: String)
    ensures
        s@ == v@,
{
    v.iter().collect()
}

/// Appends one character to a `String` (std's `String::push`).
#[verifier::external_body]
pub(crate) fn push_char(s: &mut String, c: char)
    ensures
        final(s)@ == old(s)@.push(c),
{
    s.push(c)
}

/// Whether two character vectors are equal.
pub fn chars_eq(a: &Vec<char>, b: &Vec<char>) -> (r: bool)
    ensures
        r == (a@ == b@),
{
    if a.len() != b.len() {
        return false;
    }
    let mut i: usize = 0;
    while i < a.len()
        invariant
            a@.len() == b@.len(),
            i <= a@.len(),
            forall|j: int| 0 <= j < i ==> a@[j] == b@[j],
        decreases a@.len() - i,
    {
        if a[i] != b[i] {
            return false;
        }
        i += 1;
    }
    assert(a@ =~= b@);
    true
}

/// Whether two string slices hold the same characters.
pub fn str_eq(a: &str, b: &str) -> (r: bool)
    ensures
        r == (a@ == b@),
{
    let va = to_chars(a);
    let vb = to_chars(b);
    chars_eq(&va, &vb)
}

/// Whether `pat` occurs in `text` at position `i`.
pub fn matches_at(text: &Vec<char>, pat: &Vec<char>, i: usize) -> (r: bool)
    ensures
        r == occurs_at(text@, pat@, i as int),
{
    if i > text.len() || pat.len() > text.len() - i {
        return false;
    }
    let mut j: usize = 0;
    while j < pat.len()
        invariant
            i + pat@.len() <= text.len(),
            j <= pat@.len(),
            forall|k: int| 0 <= k < j ==> text@[i + k] == pat@[k],
        decreases pat@.len() - j,
    {
        if text[i + j] != pat[j] {
            assert(text@.subrange(i as int, i + pat@.len())[j as int] != pat@[j as int]);
            return false;
        }
        j += 1;
    }
    assert(text@.subrange(i as int, i + pat@.len()) =~= pat@);
    true
}

/// Whether `pat` occurs anywhere in `text`.
pub fn contains_chars(text: &Vec<char>, pat: &Vec<char>) -> (r: bool)
    ensures
        r == contains_seq(text@, pat@),
{
    if pat.len() == 0 {
        assert(occurs_at(text@, pat@, 0)) by {
            assert(text@.subrange(0, 0) =~= pat@);
        }
        return true;
    }
    if pat.len() > text.len() {
        return false;
    }
    let last = text.len() - pat.len();
    let mut i: usize = 0;
    while i <= last
        invariant
            last + pat@.len() == text.len(),
            pat@.len() > 0,
            i <= last + 1,
            forall|k: int| 0 <= k < i ==> !occurs_at(text@, pat@, k),
        decreases last + 1 - i,
    {
        if matches_at(text, pat, i) {
            return true;
        }
        i += 1;
    }
    assert forall|k: int| !occurs_at(text@, pat@, k) by {
        if 0 <= k < i {
        }
    }
    false
}

/// Whether `pat` occurs anywhere in `text` (std's `str::contains`).
pub fn str_contains(text: &str, pat: &str) -> (r: bool)
    ensures
        r == contains_seq(text@, pat@),
{
    let t = to_chars(text);
    let p = to_chars(pat);
    contains_chars(&t, &p)
}

/// Whether `text` begins with `pat` (std's `str::starts_with`).
pub fn str_starts_with(text: &str, pat: &str) -> (r: bool)
    ensures
        r == starts_with(text@, pat@),
{
    let t = to_chars(text);
    let p = to_chars(pat);
    matches_at(&t, &p, 0)
}

/// Whether `text` ends with `pat` (std's `str::ends_with`).
pub fn str_ends_with(text: &str, pat: &str) -> (r: bool)
    ensures
        r == ends_with(text@, pat@),
{
    let t = to_chars(text);
    let p = to_chars(pat);
    if p.len() > t.len() {
        return false;
    }
    matches_at(&t, &p, t.len() - p.len())
}

/// The digits of `text`, in order.
pub fn digits_only(text: &str) -> (r: String)
    ensures
        r@ == digits(text@),
{
    let t = to_chars(text);
    let mut out: Vec<char> = Vec::new();
    let mut i: usize = 0;
    while i < t.len()
        invariant
            t@ == text@,
            i <= t@.len(),
            out@ == digits(t@.take(i as int)),
        decreases t@.len() - i,
    {
        assert(t@.take(i + 1).drop_last() =~= t@.take(i as int));
        if '0' <= t[i] && t[i] <= '9' {
            out.push(t[i]);
        }
        i += 1;
    }
    assert(t@.take(t@.len() as int) =~= t@);
    string_from_chars(&out)
}

/// Parses a decimal `u32` the way `str::parse::<u32>` does.
pub fn parse_u32(s: &str) -> (r: Option<u32>)
    ensures
        r == parse_u32_spec(s@),
{
    let t = to_chars(s);
    parse_u32_chars(&t)
}

/// Parses a decimal `u32` from characters the way `str::parse::<u32>` does.
pub fn parse_u32_chars(chars: &Vec<char>) -> (r: Option<u32>)
    ensures
        r == parse_u32_spec(chars@),
{
    let t = chars;
    let ghost s = chars@;
    let start: usize = if t.len() > 0 && t[0] == '+' { 1 } else { 0 };
    let ghost body = if s.len() > 0 && s[0] == '+' { s.drop_first() } else { s };
    assert(body =~= t@.subrange(start as int, t@.len() as int));
    if start >= t.len() {
        return None;
    }
    let mut v: u64 = 0;
    let mut i: usize = start;
    while i < t.len()
        invariant
            t@ == s,
            s == chars@,
            body == (if s.len() > 0 && s[0] == '+' { s.drop_first() } else { s }),
            body == t@.subrange(start as int, t@.len() as int),
            start <= i <= t@.len(),
            v == digits_value(body.take(i - start)),
            v <= u32::MAX,
            all_digits(body.take(i - start)),
        decreases t@.len() - i,
    {
        let c = t[i];
        assert(body.take(i - start + 1).drop_last() =~= body.take(i - start));
        assert(body.take(i - start + 1).last() == c);
        if !('0' <= c && c <= '9') {
            assert(!is_digit(body[i - start]));
            assert(!all_digits(body));
            return None;
        }
        let d = (c as u64) - ('0' as u64);
        let nv = v * 10 + d;
        if nv > 4294967295 {
            proof {
                if all_digits(body) {
                    lemma_digits_value_grows(body, (i - start + 1) as int);
                }
            }
            return None;
        }
        v = nv;
        i += 1;
        assert(all_digits(body.take(i - start))) by {
            assert forall|k: int| 0 <= k < body.take(i - start).len() implies is_digit(
                #[trigger] body.take(i - start)[k],
            ) by {
                if k < i - start - 1 {
                    assert(body.take(i - start)[k] == body.take(i - start - 1)[k]);
                }
            }
        }
    }
    assert(body.take(body.len() as int) =~= body);
    Some(v as u32)
}

/// Appending digits never lowers the decimal value: once a prefix exceeds the
/// `u32` range, the whole does too.
pub proof fn lemma_digits_value_grows(s: Seq<char>, k: int)
    requires
        0 <= k <= s.len(),
        all_digits(s),
    ensures
        digits_value(s.take(k)) <= digits_value(s),
    decreases s.len() - k,
{
    if k < s.len() {
        lemma_digits_value_grows(s, k + 1);
        assert(s.take(k + 1).drop_last() =~= s.take(k));
        assert(is_digit(s[k]));
    } else {
        assert(s.take(k) =~= s);
    }
}

/// Width in bytes of the UTF-8 encoding of `c` (std's `char::len_utf8`).
pub fn char_len_utf8(c: char) -> (n: usize)
    ensures
        n == char_width(c),
{
    let u = c as u32;
    if u < 0x80 {
        1
    } else if u < 0x800 {
        2
    } else if u < 0x10000 {
        3
    } else {
        4
    }
}

/// Decimal digits of `n`, most significant first, without leading zeros
/// (`"0"` for zero).
pub open spec fn decimal(n: nat) -> Seq<char>
    decreases n,
{
    if n < 10 {
        seq![digit_char(n)]
    } else {
        decimal(n / 10).push(digit_char(n % 10))
    }
}

/// The ASCII digit for `d < 10`.
pub open spec fn digit_char(d: nat) -> char {
    if d == 0 {
        '0'
    } else if d == 1 {
        '1'
    } else if d == 2 {
        '2'
    } else if d == 3 {
        '3'
    } else if d == 4 {
        '4'
    } else if d == 5 {
        '5'
    } else if d == 6 {
        '6'
    } else if d == 7 {
        '7'
    } else if d == 8 {
        '8'
    } else {
        '9'
    }
}

fn digit_to_char(d: u64) -> (c: char)
    requires
        d < 10,
    ensures
        c == digit_char(d as nat),
{
    if d == 0 {
        '0'
    } else if d == 1 {
        '1'
    } else if d == 2 {
        '2'
    } else if d == 3 {
        '3'
    } else if d == 4 {
        '4'
    } else if d == 5 {
        '5'
    } else if d == 6 {
        '6'
    } else if d == 7 {
        '7'
    } else if d == 8 {
        '8'
    } else {
        '9'
    }
}

/// Decimal text of `n`, as `Display` for unsigned integers writes it.
pub fn u64_to_string(n: u64) -> (r: String)
    ensures
        r@ == decimal(n as nat),
    decreases n,
{
    if n < 10 {
        let mut r = String::new();
        push_char(&mut r, digit_to_char(n));
        r
    } else {
        let mut r = u64_to_string(n / 10);
        push_char(&mut r, digit_to_char(n % 10));
        r
    }
}

/// `a` followed by `b`.
pub fn concat_strs(a: &str, b: &str) -> (r: String)
    ensures
        r@ == a@ + b@,
{
    let s = a.to_string();
    s.concat(b)
}

/// std's `str::to_lowercase` of a text: the Unicode lowercase mapping,
/// which is fixed by the standard library and not restated here.
pub uninterp spec fn lowercase(s: Seq<char>) -> Seq<char>;

/// The lowercase form of `s` (std's `str::to_lowercase`).
#[verifier::external_body]
pub(crate) fn to_lowercase(s: &str) -> (r: String)
    ensures
        r@ == lowercase(s@),
{
    s.to_lowercase()
}

/// The pieces of `s` between newlines (`n` newlines give `n + 1` pieces).
pub open spec fn split_newlines(s: Seq<char>) -> Seq<Seq<char>>
    decreases s.len(),
{
    if s.len() == 0 {
        seq![Seq::empty()]
    } else {
        let p = split_newlines(s.drop_last());
        if s.last() == '\n' {
            p.push(Seq::empty())
        } else {
            p.update(p.len() - 1, p.last().push(s.last()))
        }
    }
}

/// A line without the carriage return that ended it, if any.
pub open spec fn strip_cr(l: Seq<char>) -> Seq<char> {
    if l.len() > 0 && l.last() == '\r' {
        l.drop_last()
    } else {
        l
    }
}

/// The lines of `s` as `str::lines` yields them: split at `\n`, a `\r`
/// before the `\n` removed, and no empty last line after a final newline.
pub open spec fn lines_of(s: Seq<char>) -> Seq<Seq<char>> {
    let p = split_newlines(s);
    let ended = p.take(p.len() - 1).map_values(|l: Seq<char>| strip_cr(l));
    if p.last().len() > 0 {
        ended.push(p.last())
    } else {
        ended
    }
}

proof fn lemma_split_newlines_nonempty(s: Seq<char>)
    ensures
        split_newlines(s).len() >= 1,
    decreases s.len(),
{
    if s.len() > 0 {
        lemma_split_newlines_nonempty(s.drop_last());
    }
}

/// Drops a final carriage return.
fn strip_cr_chars(v: Vec<char>) -> (r: Vec<char>)
    ensures
        r@ == strip_cr(v@),
{
    let mut v = v;
    if v.len() > 0 && v[v.len() - 1] == '\r' {
        v.pop();
    }
    v
}

/// The lines of `s` (std's `str::lines`).
pub fn lines(s: &str) -> (r: Vec<String>)
    ensures
        r@.map_values(|x: String| x@) == lines_of(s@),
{
    let c = to_chars(s);
    let mut done: Vec<String> = Vec::new();
    let mut cur: Vec<char> = Vec::new();
    let mut i: usize = 0;
    proof {
        assert(c@.take(0) =~= Seq::<char>::empty());
    }
    while i < c.len()
        invariant
            c@ == s@,
            i <= c@.len(),
            ({
                let p = split_newlines(c@.take(i as int));
                &&& p.len() >= 1
                &&& done@.map_values(|x: String| x@) == p.take(p.len() - 1).map_values(|l: Seq<char>| strip_cr(l))
                &&& cur@ == p.last()
            }),
        decreases c@.len() - i,
    {
        let ch = c[i];
        let ghost p0 = split_newlines(c@.take(i as int));
        proof {
            assert(c@.take(i + 1).drop_last() =~= c@.take(i as int));
            lemma_split_newlines_nonempty(c@.take(i as int));
        }
        if ch == '\n' {
            let line = strip_cr_chars(cur);
            let l = string_from_chars(&line);
            let ghost d0 = done@;
            done.push(l);
            cur = Vec::new();
            proof {
                let p1 = split_newlines(c@.take(i + 1));
                assert(p1 == p0.push(Seq::empty()));
                assert(p1.take(p1.len() - 1) =~= p0);
                assert(p0 =~= p0.take(p0.len() - 1).push(p0.last()));
                let f = |x: String| x@;
                let g = |l: Seq<char>| strip_cr(l);
                assert(done@ == d0.push(l));
                assert(done@.map_values(f) =~= d0.map_values(f).push(l@));
                assert(p0.map_values(g) =~= p0.take(p0.len() - 1).map_values(g).push(strip_cr(p0.last())));
                assert(done@.map_values(f) =~= p1.take(p1.len() - 1).map_values(g));
            }
        } else {
            cur.push(ch);
            proof {
                let p1 = split_newlines(c@.take(i + 1));
                assert(p1 == p0.update(p0.len() - 1, p0.last().push(ch)));
                assert(p1.take(p1.len() - 1) =~= p0.take(p0.len() - 1));
            }
        }
        i += 1;
    }
    assert(c@.take(c@.len() as int) =~= s@);
    if cur.len() > 0 {
        let l = string_from_chars(&cur);
        done.push(l);
        proof {
            let f = |x: String| x@;
            let p = split_newlines(s@);
            assert(done@.map_values(f) =~= p.take(p.len() - 1).map_values(|l: Seq<char>| strip_cr(l)).push(p.last()));
        }
    }
    done
}

} // verus!
