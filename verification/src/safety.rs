//! Safety checks on deletion targets.
//!
//! Before a recursive deletion starts, the target is held against a
//! list of well-known system roots. The facts that only the platform
//! can supply — the canonical form of the path, whether it equals the
//! user's home directory, whether it contains the current working
//! directory — are gathered by the embedding application and handed
//! in as plain values; the verdict is decided here.

use crate::paths::{chars_to_string, str_eq, str_to_chars};
use vstd::prelude::*;

verus! {

/// The verdict on one deletion target.
#[derive(Debug)]
pub enum SafetyCheck {
    /// No reason to refuse.
    Safe,
    /// The target is dangerous; `can_override` is false exactly for
    /// system directories, which may never be deleted.
    Dangerous { reason: String, can_override: bool },
}

/// The well-known roots that must never be deleted.
pub open spec fn spec_is_protected(s: Seq<char>) -> bool {
    ||| s == "/"@
    ||| s == "/bin"@
    ||| s == "/boot"@
    ||| s == "/dev"@
    ||| s == "/etc"@
    ||| s == "/lib"@
    ||| s == "/lib64"@
    ||| s == "/proc"@
    ||| s == "/root"@
    ||| s == "/sbin"@
    ||| s == "/sys"@
    ||| s == "/usr"@
    ||| s == "/var"@
}

/// Whether a path names one of the well-known system roots.
pub fn is_protected_path(path: &str) -> (r: bool)
    ensures
        r == spec_is_protected(path@),
{
    str_eq(path, "/") || str_eq(path, "/bin") || str_eq(path, "/boot") || str_eq(path, "/dev")
        || str_eq(path, "/etc") || str_eq(path, "/lib") || str_eq(path, "/lib64") || str_eq(
        path,
        "/proc",
    ) || str_eq(path, "/root") || str_eq(path, "/sbin") || str_eq(path, "/sys") || str_eq(
        path,
        "/usr",
    ) || str_eq(path, "/var")
}

/// Whether the target is a system directory: its spelling or its
/// canonical form names a protected root, or it is the user's home
/// directory (`matches_home`, resolved by the caller).
pub fn is_system_directory(path: &str, canonical: Option<&String>, matches_home: bool) -> (r: bool)
    ensures
        r == (spec_is_protected(path@) || (canonical matches Some(c) && spec_is_protected(c@))
            || matches_home),
{
    if is_protected_path(path) {
        return true;
    }
    match canonical {
        Some(c) => {
            if is_protected_path(c.as_str()) {
                return true;
            }
        },
        None => (),
    }
    matches_home
}

/// Builds `'<path>'<suffix>`: the path quoted, then the message tail.
fn quoted_message(path: &str, suffix: &str) -> (r: String)
    ensures
        r@ == seq!['\''] + path@ + seq!['\''] + suffix@,
{
    let mut cs: Vec<char> = Vec::new();
    cs.push('\'');
    let pc = str_to_chars(path);
    let mut i: usize = 0;
    let n = pc.len();
    while i < n
        invariant
            n == pc@.len(),
            pc@ == path@,
            i <= n,
            cs@ == seq!['\''] + path@.take(i as int),
        decreases n - i,
    {
        cs.push(pc[i]);
        proof {
            assert(cs@ =~= seq!['\''] + path@.take(i as int + 1));
        }
        i += 1;
    }
    cs.push('\'');
    let sc = str_to_chars(suffix);
    let m = sc.len();
    let mut j: usize = 0;
    proof {
        assert(path@.take(n as int) =~= path@);
        assert(cs@ =~= seq!['\''] + path@ + seq!['\''] + suffix@.take(0));
    }
    while j < m
        invariant
            m == sc@.len(),
            sc@ == suffix@,
            j <= m,
            cs@ == seq!['\''] + path@ + seq!['\''] + suffix@.take(j as int),
        decreases m - j,
    {
        cs.push(sc[j]);
        proof {
            assert(cs@ =~= seq!['\''] + path@ + seq!['\''] + suffix@.take(j as int + 1));
        }
        j += 1;
    }
    proof {
        assert(suffix@.take(m as int) =~= suffix@);
    }
    chars_to_string(&cs)
}

/// The message explaining why a system directory is refused.
pub open spec fn spec_system_reason(path: Seq<char>) -> Seq<char> {
    seq!['\''] + path + seq!['\''] + " is a system directory - deleting it could break your system"@
}

/// The message warning that the target holds the working directory.
pub open spec fn spec_cwd_reason(path: Seq<char>) -> Seq<char> {
    seq!['\''] + path + seq!['\''] + " contains or is your current working directory"@
}

/// Why the target is dangerous, if it is: a system directory first,
/// else a target containing the current working directory
/// (`cwd_related`, resolved by the caller), else nothing.
pub fn get_danger_reason(
    path: &str,
    canonical: Option<&String>,
    matches_home: bool,
    cwd_related: bool,
) -> (r: Option<String>)
    ensures
        spec_is_protected(path@) || (canonical matches Some(c) && spec_is_protected(c@))
            || matches_home ==> (r matches Some(m) && m@ == spec_system_reason(path@)),
        !(spec_is_protected(path@) || (canonical matches Some(c) && spec_is_protected(c@))
            || matches_home) && cwd_related ==> (r matches Some(m) && m@ == spec_cwd_reason(path@)),
        !(spec_is_protected(path@) || (canonical matches Some(c) && spec_is_protected(c@))
            || matches_home) && !cwd_related ==> r is None,
{
    if is_system_directory(path, canonical, matches_home) {
        Some(
            quoted_message(path, " is a system directory - deleting it could break your system"),
        )
    } else if cwd_related {
        Some(quoted_message(path, " contains or is your current working directory"))
    } else {
        None
    }
}

/// The safety verdict on one target: a system directory is dangerous
/// and may not be overridden; a target related to the current working
/// directory is dangerous but may be forced; anything else is safe.
pub fn check_path_safety(
    path: &str,
    canonical: Option<&String>,
    matches_home: bool,
    cwd_related: bool,
) -> (r: SafetyCheck)
    ensures
        ({
            let system = spec_is_protected(path@) || (canonical matches Some(c)
                && spec_is_protected(c@)) || matches_home;
            &&& system ==> (r matches SafetyCheck::Dangerous { reason, can_override }
                && reason@ == spec_system_reason(path@) && !can_override)
            &&& !system && cwd_related ==> (r matches SafetyCheck::Dangerous {
                reason,
                can_override,
            } && reason@ == spec_cwd_reason(path@) && can_override)
            &&& !system && !cwd_related ==> r is Safe
        }),
{
    let system = is_system_directory(path, canonical, matches_home);
    match get_danger_reason(path, canonical, matches_home, cwd_related) {
        Some(reason) => SafetyCheck::Dangerous { reason, can_override: !system },
        None => SafetyCheck::Safe,
    }
}

} // verus!
