//! Shape checks for the primitive identifiers the flows accept.
//!
//! These run before any storage access; a value that fails its check is
//! rejected with a validation error and nothing is written.
use vstd::prelude::*;
use vstd::string::StrSliceExecFns;

verus! {

/// Characters allowed in opaque identifiers (device ids, process ids):
/// ASCII letters, digits, `-` and `_`.
pub open spec fn id_char(c: char) -> bool {
    ||| (48 <= c as u32 && c as u32 <= 57)
    ||| (65 <= c as u32 && c as u32 <= 90)
    ||| (97 <= c as u32 && c as u32 <= 122)
    ||| c as u32 == 45
    ||| c as u32 == 95
}

/// A well-formed opaque identifier: between 1 and 64 identifier characters.
pub open spec fn valid_id(s: Seq<char>) -> bool {
    &&& 1 <= s.len() <= 64
    &&& forall|i: int| 0 <= i < s.len() ==> id_char(#[trigger] s[i])
}

/// A well-formed username: between 3 and 32 identifier characters.
pub open spec fn valid_username(s: Seq<char>) -> bool {
    &&& 3 <= s.len() <= 32
    &&& forall|i: int| 0 <= i < s.len() ==> id_char(#[trigger] s[i])
}

/// The position of the single `@` separator of a well-formed email address:
/// neither first nor last, and no other `@` anywhere.
pub open spec fn email_sep_at(s: Seq<char>, p: int) -> bool {
    &&& 0 < p < s.len() - 1
    &&& s[p] == '@'
    &&& forall|q: int| 0 <= q < s.len() && q != p ==> #[trigger] s[q] != '@'
}

/// A well-formed email address: between 3 and 254 characters with exactly
/// one `@` separator strictly inside.
pub open spec fn valid_email(s: Seq<char>) -> bool {
    &&& 3 <= s.len() <= 254
    &&& exists|p: int| email_sep_at(s, p)
}

/// A well-formed raw password: at least `min_len` characters.
pub open spec fn valid_password(s: Seq<char>, min_len: int) -> bool {
    min_len <= s.len()
}

fn is_id_char(c: char) -> (r: bool)
    ensures
        r == id_char(c),
{
    let u = c as u32;
    (48 <= u && u <= 57) || (65 <= u && u <= 90) || (97 <= u && u <= 122) || u == 45 || u == 95
}

/// Whether `s` is a well-formed opaque identifier (device or process id).
pub fn is_valid_id(s: &str) -> (r: bool)
    ensures
        r == valid_id(s@),
{
    let n = s.unicode_len();
    if n < 1 || n > 64 {
        return false;
    }
    let mut i: usize = 0;
    while i < n
        invariant
            n == s@.len(),
            i <= n,
            forall|j: int| 0 <= j < i ==> id_char(#[trigger] s@[j]),
        decreases n - i,
    {
        if !is_id_char(s.get_char(i)) {
            return false;
        }
        i += 1;
    }
    true
}

/// Whether `s` is a well-formed username.
pub fn is_valid_username(s: &str) -> (r: bool)
    ensures
        r == valid_username(s@),
{
    let n = s.unicode_len();
    if n < 3 || n > 32 {
        return false;
    }
    let mut i: usize = 0;
    while i < n
        invariant
            n == s@.len(),
            i <= n,
            forall|j: int| 0 <= j < i ==> id_char(#[trigger] s@[j]),
        decreases n - i,
    {
        if !is_id_char(s.get_char(i)) {
            return false;
        }
        i += 1;
    }
    true
}

/// Whether `s` is a well-formed email address.
pub fn is_valid_email(s: &str) -> (r: bool)
    ensures
        r == valid_email(s@),
{
    let n = s.unicode_len();
    if n < 3 || n > 254 {
        return false;
    }
    let mut i: usize = 0;
    let mut sep: Option<usize> = None;
    while i < n
        invariant
            n == s@.len(),
            3 <= n <= 254,
            i <= n,
            match sep {
                Some(p) => {
                    &&& 0 < p < i
                    &&& p < n - 1
                    &&& s@[p as int] == '@'
                    &&& forall|q: int| 0 <= q < i && q != p ==> #[trigger] s@[q] != '@'
                },
                None => forall|q: int| 0 <= q < i ==> #[trigger] s@[q] != '@',
            },
        decreases n - i,
    {
        let c = s.get_char(i);
        if c == '@' {
            match sep {
                Some(_) => {
                    return false;
                },
                None => {
                    if i == 0 || i >= n - 1 {
                        return false;
                    }
                    sep = Some(i);
                },
            }
        }
        i += 1;
    }
    match sep {
        Some(p) => {
            proof {
                assert(email_sep_at(s@, p as int));
            }
            true
        },
        None => false,
    }
}

/// Whether `s` is an acceptable raw password for the given minimum length.
pub fn is_valid_password(s: &str, min_len: usize) -> (r: bool)
    ensures
        r == valid_password(s@, min_len as int),
{
    let n = s.unicode_len();
    min_len <= n
}

} // verus!
