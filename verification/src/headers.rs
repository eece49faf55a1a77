//! The one piece of request surface the token gate owns: pulling the session
//! token out of a header list. Header names match up to ASCII case, the
//! value is trimmed, and a blank value counts as absent.

use vstd::prelude::*;

use vstd::string::StringSliceAdditionalSpecFns;
use vstd::utf8::encode_utf8;

verus! {

/// An ASCII uppercase byte folded to lowercase; every other byte unchanged.
/// The bytes of a multi-byte UTF-8 character all lie above the ASCII range,
/// so folding byte-wise folds exactly the ASCII letters.
pub open spec fn spec_lower_byte(b: u8) -> u8 {
    if 65 <= b <= 90 {
        (b + 32) as u8
    } else {
        b
    }
}

/// Byte strings equal up to ASCII case.
pub open spec fn spec_bytes_eq_ci(a: Seq<u8>, b: Seq<u8>) -> bool {
    a.len() == b.len() && forall|i: int|
        0 <= i < a.len() ==> spec_lower_byte(a[i]) == spec_lower_byte(b[i])
}

/// Compares two strings byte-wise up to ASCII case.
fn ascii_eq_ignore_case(a: &str, b: &str) -> (r: bool)
    ensures
        r == spec_bytes_eq_ci(a.spec_bytes(), b.spec_bytes()),
{
    let ab = a.as_bytes();
    let bb = b.as_bytes();
    let n = ab.len();
    if n != bb.len() {
        return false;
    }
    let mut i: usize = 0;
    while i < n
        invariant
            n == ab@.len() == bb@.len(),
            ab@ == a.spec_bytes(),
            bb@ == b.spec_bytes(),
            0 <= i <= n,
            forall|j: int| 0 <= j < i ==> spec_lower_byte(ab@[j]) == spec_lower_byte(bb@[j]),
        decreases n - i,
    {
        let mut x = ab[i];
        let mut y = bb[i];
        if 65 <= x && x <= 90 {
            x = x + 32;
        }
        if 65 <= y && y <= 90 {
            y = y + 32;
        }
        if x != y {
            proof {
                assert(spec_lower_byte(ab@[i as int]) != spec_lower_byte(bb@[i as int]));
            }
            return false;
        }
        i += 1;
    }
    true
}

/// What `str::trim` leaves of a string. Which characters count as
/// whitespace is Unicode's table, not restated here; the name only records
/// that the result depends on the characters alone.
pub uninterp spec fn trim_of(s: Seq<char>) -> Seq<char>;

/// Relies on `str::trim`: the input with leading and trailing whitespace
/// removed.
#[verifier::external_body]
fn trim(s: &str) -> (r: &str)
    ensures
        r@ == trim_of(s@),
{
    s.trim()
}

/// The value of the first header whose name equals `name` up to ASCII case.
pub open spec fn spec_header_lookup(headers: Seq<(String, String)>, name: Seq<u8>) -> Option<
    Seq<char>,
>
    decreases headers.len(),
{
    if headers.len() == 0 {
        None
    } else if spec_bytes_eq_ci(encode_utf8(headers.first().0@), name) {
        Some(headers.first().1@)
    } else {
        spec_header_lookup(headers.drop_first(), name)
    }
}

/// Scans the header list for `name`, up to ASCII case, and hands back the
/// first matching value.
pub fn find_header_value(headers: &Vec<(String, String)>, name: &str) -> (r: Option<String>)
    ensures
        match r {
            Some(v) => spec_header_lookup(headers@, name.spec_bytes()) == Some(v@),
            None => spec_header_lookup(headers@, name.spec_bytes()) is None,
        },
{
    let n = headers.len();
    let mut i: usize = 0;
    proof {
        assert(headers@.skip(0) =~= headers@);
    }
    while i < n
        invariant
            n == headers@.len(),
            0 <= i <= n,
            spec_header_lookup(headers@, name.spec_bytes()) == spec_header_lookup(
                headers@.skip(i as int),
                name.spec_bytes(),
            ),
        decreases n - i,
    {
        proof {
            assert(headers@.skip(i as int).first() == headers@[i as int]);
            assert(headers@.skip(i as int).drop_first() =~= headers@.skip(i + 1 as int));
        }
        if ascii_eq_ignore_case(headers[i].0.as_str(), name) {
            return Some(headers[i].1.clone());
        }
        i += 1;
    }
    proof {
        assert(headers@.skip(n as int).len() == 0);
    }
    None
}

/// What `extract_token` finds in a header list: the trimmed value of the
/// first `token` header, unless it trims to nothing.
pub open spec fn spec_extract_token(headers: Seq<(String, String)>) -> Option<Seq<char>> {
    match spec_header_lookup(headers, encode_utf8("token"@)) {
        None => None,
        Some(value) => if trim_of(value).len() == 0 {
            None
        } else {
            Some(trim_of(value))
        },
    }
}

/// Pulls the session token out of a request's headers: the first `token`
/// header — name matched up to ASCII case — trimmed, and only if something
/// is left after trimming.
pub fn extract_token(headers: &Vec<(String, String)>) -> (r: Option<String>)
    ensures
        match r {
            Some(v) => spec_extract_token(headers@) == Some(v@) && v@.len() > 0,
            None => spec_extract_token(headers@) is None,
        },
{
    match find_header_value(headers, "token") {
        None => None,
        Some(value) => {
            let trimmed = trim(value.as_str()).to_owned();
            if trimmed.as_str().is_empty() {
                None
            } else {
                Some(trimmed)
            }
        },
    }
}

} // verus!
