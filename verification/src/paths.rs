//! Path normalization.
//!
//! Before a path reaches a platform primitive it is rewritten into
//! the platform's normal form: forward slashes become backslashes,
//! and a drive-absolute path gains the long-path prefix `\\?\` so the
//! legacy path-length limit does not apply. Normalization is
//! idempotent, and a path written with forward slashes and no prefix
//! normalizes to exactly its backslashed, prefixed spelling.

use vstd::prelude::*;
use vstd::string::StrSliceExecFns;

verus! {

/// The long-path prefix, as a character sequence.
pub open spec fn long_path_prefix() -> Seq<char> {
    seq!['\\', '\\', '?', '\\']
}

/// Forward slashes replaced by backslashes.
pub open spec fn backslashed(s: Seq<char>) -> Seq<char> {
    Seq::new(
        s.len(),
        |i: int|
            if s[i] == '/' {
                '\\'
            } else {
                s[i]
            },
    )
}

/// Whether a path starts with the long-path prefix.
pub open spec fn has_long_prefix(s: Seq<char>) -> bool {
    s.len() >= 4 && s[0] == '\\' && s[1] == '\\' && s[2] == '?' && s[3] == '\\'
}

/// Whether a backslashed path is drive-absolute (`X:\...`).
pub open spec fn is_drive_absolute(s: Seq<char>) -> bool {
    s.len() >= 3 && s[1] == ':' && s[2] == '\\'
}

/// The normal form of a path: slashes backslashed, and the long-path
/// prefix prepended to a drive-absolute path that lacks it.
pub open spec fn spec_normalize_path(s: Seq<char>) -> Seq<char> {
    let b = backslashed(s);
    if is_drive_absolute(b) && !has_long_prefix(b) {
        long_path_prefix() + b
    } else {
        b
    }
}

/// The characters of a string, in order.
pub(crate) fn str_to_chars(s: &str) -> (r: Vec<char>)
    ensures
        r@ == s@,
{
    let n = s.unicode_len();
    let mut out: Vec<char> = Vec::new();
    let mut i: usize = 0;
    while i < n
        invariant
            n == s@.len(),
            i <= n,
            out@ == s@.take(i as int),
        decreases n - i,
    {
        let c = s.get_char(i);
        out.push(c);
        proof {
            assert(out@ =~= s@.take(i as int + 1));
        }
        i += 1;
    }
    proof {
        assert(s@.take(n as int) =~= s@);
    }
    out
}

/// Relies on `String`'s `FromIterator` over characters: the returned
/// string holds exactly the given characters, in order.
#[verifier::external_body]
pub(crate) fn chars_to_string(cs: &Vec<char>) -> (r: String)
    ensures
        r@ == cs@,
{
    cs.iter().collect()
}

/// Whether two strings hold the same characters.
pub fn str_eq(a: &str, b: &str) -> (r: bool)
    ensures
        r == (a@ == b@),
{
    let na = a.unicode_len();
    let nb = b.unicode_len();
    if na != nb {
        return false;
    }
    let mut i: usize = 0;
    while i < na
        invariant
            na == a@.len(),
            na == b@.len(),
            i <= na,
            forall|j: int| 0 <= j < i ==> a@[j] == b@[j],
        decreases na - i,
    {
        if a.get_char(i) != b.get_char(i) {
            return false;
        }
        i += 1;
    }
    proof {
        assert(a@ =~= b@);
    }
    true
}

/// Rewrites a path into the platform's normal form: forward slashes
/// become backslashes, and a drive-absolute path without the
/// long-path prefix gains it.
pub fn normalize_path(s: &str) -> (r: String)
    ensures
        r@ == spec_normalize_path(s@),
{
    let cs = str_to_chars(s);
    let n = cs.len();
    let mut b: Vec<char> = Vec::new();
    let mut i: usize = 0;
    while i < n
        invariant
            n == cs@.len(),
            cs@ == s@,
            i <= n,
            b@ == backslashed(s@).take(i as int),
        decreases n - i,
    {
        let c = cs[i];
        if c == '/' {
            b.push('\\');
        } else {
            b.push(c);
        }
        proof {
            assert(b@ =~= backslashed(s@).take(i as int + 1));
        }
        i += 1;
    }
    proof {
        assert(backslashed(s@).take(n as int) =~= backslashed(s@));
    }
    let absolute = n >= 3 && b[1] == ':' && b[2] == '\\';
    let prefixed = n >= 4 && b[0] == '\\' && b[1] == '\\' && b[2] == '?' && b[3] == '\\';
    if absolute && !prefixed {
        let mut out: Vec<char> = Vec::new();
        out.push('\\');
        out.push('\\');
        out.push('?');
        out.push('\\');
        let mut i: usize = 0;
        while i < n
            invariant
                n == b@.len(),
                b@ == backslashed(s@),
                i <= n,
                out@ == long_path_prefix() + b@.take(i as int),
            decreases n - i,
        {
            out.push(b[i]);
            proof {
                assert(out@ =~= long_path_prefix() + b@.take(i as int + 1));
            }
            i += 1;
        }
        proof {
            assert(b@.take(n as int) =~= b@);
        }
        chars_to_string(&out)
    } else {
        chars_to_string(&b)
    }
}

/// A normalized path contains no forward slash.
pub proof fn lemma_normalized_no_slash(s: Seq<char>)
    ensures
        forall|i: int|
            0 <= i < spec_normalize_path(s).len() ==> #[trigger] spec_normalize_path(s)[i] != '/',
{
}

/// Normalizing is idempotent: the normal form of a normal form is
/// itself.
pub proof fn lemma_normalize_idempotent(s: Seq<char>)
    ensures
        spec_normalize_path(spec_normalize_path(s)) == spec_normalize_path(s),
{
    let r = spec_normalize_path(s);
    lemma_normalized_no_slash(s);
    assert(backslashed(r) =~= r);
}

/// The round trip of the rewriting: a drive-absolute path written
/// with forward slashes and without the long-path prefix normalizes
/// to exactly its backslashed spelling with the prefix, and that
/// spelling is already normal — both forms denote the same string
/// after normalization.
pub proof fn lemma_normalize_round_trip(s: Seq<char>)
    requires
        is_drive_absolute(backslashed(s)),
        !has_long_prefix(backslashed(s)),
    ensures
        spec_normalize_path(s) == long_path_prefix() + backslashed(s),
        spec_normalize_path(long_path_prefix() + backslashed(s)) == spec_normalize_path(s),
{
    let b = backslashed(s);
    let p = long_path_prefix() + b;
    assert(backslashed(p) =~= p) by {
        assert forall|i: int| 0 <= i < p.len() implies #[trigger] p[i] != '/' by {
            if i >= 4 {
                assert(p[i] == b[i - 4]);
            }
        }
    }
    assert(has_long_prefix(p));
}

} // verus!
