//! The permission lists stored in `.synthia/settings-local.json`.

use vstd::prelude::*;

verus! {

/// The three lists of permission patterns.
pub struct Permissions {
    pub allow: Vec<String>,
    pub deny: Vec<String>,
    pub ask: Vec<String>,
}

/// The permission settings of a project.
pub struct PermissionConfig {
    pub permissions: Permissions,
}

/// The patterns of a list, as character sequences.
pub open spec fn pattern_views(v: Seq<String>) -> Seq<Seq<char>> {
    v.map_values(|s: String| s@)
}

/// No pattern occurs twice in the list.
pub open spec fn no_duplicates(v: Seq<Seq<char>>) -> bool {
    forall|i: int, j: int| 0 <= i < v.len() && 0 <= j < v.len() && i != j ==> v[i] != v[j]
}

/// The allow list after adding `p`: unchanged when `p` is already there,
/// otherwise `p` appended.
pub open spec fn allow_after_add(allow: Seq<Seq<char>>, p: Seq<char>) -> Seq<Seq<char>> {
    if allow.contains(p) {
        allow
    } else {
        allow.push(p)
    }
}

impl PermissionConfig {
    /// The allow list as character sequences.
    pub open spec fn allow_view(&self) -> Seq<Seq<char>> {
        pattern_views(self.permissions.allow@)
    }

    /// The deny list as character sequences.
    pub open spec fn deny_view(&self) -> Seq<Seq<char>> {
        pattern_views(self.permissions.deny@)
    }

    /// The ask list as character sequences.
    pub open spec fn ask_view(&self) -> Seq<Seq<char>> {
        pattern_views(self.permissions.ask@)
    }

    /// Adds `pattern` to the allow list unless it is already there.
    /// It always succeeds.
    pub fn add_permission(&mut self, pattern: String) -> (r: Result<(), String>)
        ensures
            r is Ok,
            final(self).allow_view() == allow_after_add(old(self).allow_view(), pattern@),
            final(self).deny_view() == old(self).deny_view(),
            final(self).ask_view() == old(self).ask_view(),
    {
        let ghost before = self.allow_view();
        let mut i: usize = 0;
        while i < self.permissions.allow.len()
            invariant
                i <= self.permissions.allow@.len(),
                before == pattern_views(self.permissions.allow@),
                forall|j: int| 0 <= j < i ==> self.permissions.allow@[j]@ != pattern@,
            decreases self.permissions.allow@.len() - i,
        {
            if self.permissions.allow[i] == pattern {
                assert(before[i as int] == pattern@);
                return Ok(());
            }
            i = i + 1;
        }
        assert(!before.contains(pattern@)) by {
            if before.contains(pattern@) {
                let k = choose|k: int| 0 <= k < before.len() && before[k] == pattern@;
                assert(self.permissions.allow@[k]@ == pattern@);
            }
        }
        self.permissions.allow.push(pattern);
        assert(pattern_views(self.permissions.allow@) =~= before.push(pattern@));
        Ok(())
    }
}

impl Default for PermissionConfig {
    /// Empty allow, deny and ask lists.
    fn default() -> (r: PermissionConfig)
        ensures
            r.permissions.allow@.len() == 0,
            r.permissions.deny@.len() == 0,
            r.permissions.ask@.len() == 0,
    {
        PermissionConfig {
            permissions: Permissions { allow: Vec::new(), deny: Vec::new(), ask: Vec::new() },
        }
    }
}

/// Adding a pattern keeps the allow list free of duplicates.
pub proof fn law_add_keeps_allow_unique(allow: Seq<Seq<char>>, p: Seq<char>)
    requires
        no_duplicates(allow),
    ensures
        no_duplicates(allow_after_add(allow, p)),
        allow_after_add(allow, p).contains(p),
{
    if !allow.contains(p) {
        let a2 = allow.push(p);
        assert(a2[allow.len() as int] == p);
        assert forall|i: int, j: int|
            0 <= i < a2.len() && 0 <= j < a2.len() && i != j implies a2[i] != a2[j] by {
            if i < allow.len() && j < allow.len() {
                assert(a2[i] == allow[i] && a2[j] == allow[j]);
            } else if i < allow.len() {
                assert(a2[i] == allow[i]);
            } else if j < allow.len() {
                assert(a2[j] == allow[j]);
            }
        }
    }
}

/// Adding the same pattern twice has the effect of adding it once.
pub proof fn law_add_idempotent(allow: Seq<Seq<char>>, p: Seq<char>)
    ensures
        allow_after_add(allow_after_add(allow, p), p) == allow_after_add(allow, p),
{
    if !allow.contains(p) {
        assert(allow.push(p)[allow.len() as int] == p);
    }
}

} // verus!
