//! Validation of configured routes against path traversal and symlink
//! disclosure. The filesystem facts (whether a target exists as a symlink)
//! are handed in as plain values; the verdict is computed here.

use vstd::prelude::*;

verus! {

/// One configured route target and what the filesystem says of it.
pub struct RouteCheck {
    pub target: Vec<u8>,
    pub is_symlink: bool,
}

/// The target steps through a parent directory somewhere.
pub open spec fn contains_dotdot(s: Seq<u8>) -> bool {
    exists|i: int, j: int|
        #![trigger s[i], s[j]]
        0 <= i && j == i + 1 && j < s.len() && s[i] == 46 && s[j] == 46
}

/// A route is flagged when its target steps through a parent directory, or
/// when symlink following is on and the target is a symlink.
pub open spec fn route_vulnerable(rc: RouteCheck, follow_symlinks: bool) -> bool {
    (follow_symlinks && rc.is_symlink) || contains_dotdot(rc.target@)
}

/// Checks one target for a ".." component.
pub fn has_dotdot(v: &Vec<u8>) -> (r: bool)
    ensures
        r == contains_dotdot(v@),
{
    if v.len() < 2 {
        return false;
    }
    let mut i: usize = 0;
    while i + 1 < v.len()
        invariant
            0 <= i,
            i < v.len(),
            i + 1 <= v@.len(),
            forall|a: int, b: int|
                #![trigger v@[a], v@[b]]
                0 <= a && b == a + 1 && b <= i ==> !(v@[a] == 46 && v@[b] == 46),
        decreases v@.len() - i,
    {
        if v[i] == 46 && v[i + 1] == 46 {
            return true;
        }
        i = i + 1;
    }
    false
}

/// Passes every configured route target through the security checks: true
/// exactly when none of them is flagged.
pub fn is_config_secure(routes: &Vec<RouteCheck>, follow_symlinks: bool) -> (r: bool)
    ensures
        r == forall|i: int|
            0 <= i < routes@.len() ==> !route_vulnerable(#[trigger] routes@[i], follow_symlinks),
{
    let mut i: usize = 0;
    while i < routes.len()
        invariant
            0 <= i <= routes@.len(),
            forall|j: int|
                0 <= j < i ==> !route_vulnerable(#[trigger] routes@[j], follow_symlinks),
        decreases routes@.len() - i,
    {
        let rc = &routes[i];
        if follow_symlinks && rc.is_symlink {
            return false;
        }
        if has_dotdot(&rc.target) {
            return false;
        }
        i = i + 1;
    }
    true
}

} // verus!
