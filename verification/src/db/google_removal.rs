//! The link to Google's "Results about you" with a prefilled search.

use vstd::prelude::*;
use vstd::utf8::encode_utf8;
use crate::text::{concat_strs, join_with};

verus! {

/// A byte that percent-encoding leaves as it is: an ASCII letter or digit,
/// `-`, `.`, `_` or `~`.
pub open spec fn is_unreserved(b: u8) -> bool {
    (48 <= b <= 57) || (65 <= b <= 90) || (97 <= b <= 122) || b == 45 || b == 46 || b == 95
        || b == 126
}

/// The uppercase hexadecimal digit for `d < 16`.
pub open spec fn hex_upper(d: u8) -> char {
    if d < 10 {
        ((d + 48) as u8) as char
    } else {
        ((d + 55) as u8) as char
    }
}

/// The percent-encoding of bytes: unreserved bytes as themselves, any other
/// byte as `%` and its two uppercase hexadecimal digits.
pub open spec fn percent_encoded(bytes: Seq<u8>) -> Seq<char>
    decreases bytes.len(),
{
    if bytes.len() == 0 {
        Seq::empty()
    } else {
        let b = bytes.last();
        percent_encoded(bytes.drop_last()) + if is_unreserved(b) {
            seq![b as char]
        } else {
            seq!['%', hex_upper(b / 16), hex_upper(b % 16)]
        }
    }
}

/// Percent-encodes the UTF-8 bytes of `s` (urlencoding's `encode`: every
/// byte except ASCII alphanumerics and `-`, `_`, `.`, `~` becomes `%XX`).
#[verifier::external_body]
fn url_encode(s: &str) -> (r: String)
    ensures
        r@ == percent_encoded(encode_utf8(s@)),
{
    urlencoding::encode(s).into_owned()
}

/// The search query: the name, then the address and the phone when given,
/// separated by spaces.
pub open spec fn removal_query(name: Seq<char>, address: Option<Seq<char>>, phone: Option<Seq<char>>) -> Seq<char> {
    let parts = seq![name] + match address {
        Some(a) => seq![a],
        None => Seq::empty(),
    } + match phone {
        Some(p) => seq![p],
        None => Seq::empty(),
    };
    join_with(parts, " "@)
}

/// The link to Google's removal form for a query.
pub open spec fn removal_url(name: Seq<char>, address: Option<Seq<char>>, phone: Option<Seq<char>>) -> Seq<char> {
    "https://myactivity.google.com/results-about-you?q="@ + percent_encoded(
        encode_utf8(removal_query(name, address, phone)),
    )
}

/// The text of an optional string slice.
pub open spec fn opt_str(o: Option<&str>) -> Option<Seq<char>> {
    match o {
        Some(s) => Some(s@),
        None => None,
    }
}

/// Generates the link to Google's "Results about you" with a search for the
/// person's name and, when given, address and phone.
pub fn generate_removal_url(name: &str, address: Option<&str>, phone: Option<&str>) -> (r: String)
    ensures
        r@ == removal_url(name@, opt_str(address), opt_str(phone)),
{
    let ghost parts0: Seq<Seq<char>> = seq![name@];
    let mut query = name.to_string();
    let ghost mut parts = parts0;
    assert(join_with(parts, " "@) == query@);
    match address {
        Some(a) => {
            let q = concat_strs(query.as_str(), " ");
            query = concat_strs(q.as_str(), a);
            proof {
                let np = parts.push(a@);
                assert(np.drop_last() =~= parts);
                assert(np.last() == a@);
                assert(join_with(np, " "@) == join_with(parts, " "@) + " "@ + a@);
                parts = np;
                assert(query@ == join_with(parts, " "@));
            }
        },
        None => {},
    }
    match phone {
        Some(p) => {
            let q = concat_strs(query.as_str(), " ");
            query = concat_strs(q.as_str(), p);
            proof {
                let np = parts.push(p@);
                assert(np.drop_last() =~= parts);
                assert(np.last() == p@);
                assert(join_with(np, " "@) == join_with(parts, " "@) + " "@ + p@);
                parts = np;
                assert(query@ == join_with(parts, " "@));
            }
        },
        None => {},
    }
    proof {
        let spec_parts = seq![name@] + match opt_str(address) {
            Some(a) => seq![a],
            None => Seq::empty(),
        } + match opt_str(phone) {
            Some(p) => seq![p],
            None => Seq::empty(),
        };
        assert(parts =~= spec_parts);
    }
    let encoded = url_encode(query.as_str());
    concat_strs("https://myactivity.google.com/results-about-you?q=", encoded.as_str())
}

} // verus!
