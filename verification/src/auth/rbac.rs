//! Role-based access control: role policies and effective permissions.
//!
//! An engine maps role names to permission bundles. The effective
//! permissions of a role set are the union of the bundles, except that a
//! role granting administrative access escalates to the whole universe.

use vstd::prelude::*;
use crate::auth::models::{Permission, RolePolicy, AuthContext, AuthError,
    spec_all_permissions, perms_set, clone_permissions, clone_strings};
use crate::strutil::{str_eq, copy_str};

verus! {

/// The model of a role policy.
pub struct RolePolicySpec {
    pub role: Seq<char>,
    pub permissions: Seq<Permission>,
    pub description: Option<Seq<char>>,
}

impl View for RolePolicy {
    type V = RolePolicySpec;

    open spec fn view(&self) -> RolePolicySpec {
        RolePolicySpec {
            role: self.role@,
            permissions: self.permissions@,
            description: crate::audit::models::opt_view(self.description),
        }
    }
}

/// The role table a policy list stands for: later entries override
/// earlier ones (the engine keeps names unique, so none do).
pub open spec fn policies_to_map(s: Seq<RolePolicySpec>) -> Map<Seq<char>, RolePolicySpec>
    decreases s.len(),
{
    if s.len() == 0 {
        Map::empty()
    } else {
        policies_to_map(s.drop_last()).insert(s.last().role, s.last())
    }
}

/// A name is in the table exactly when some policy carries it.
pub proof fn lemma_map_contains(s: Seq<RolePolicySpec>, name: Seq<char>)
    ensures
        policies_to_map(s).dom().contains(name)
            <==> exists|k: int| 0 <= k < s.len() && (#[trigger] s[k]).role == name,
    decreases s.len(),
{
    if s.len() > 0 {
        lemma_map_contains(s.drop_last(), name);
        if s.last().role == name {
            assert(s[s.len() - 1].role == name);
        } else {
            if policies_to_map(s).dom().contains(name) {
                let k = choose|k: int|
                    0 <= k < s.drop_last().len() && (#[trigger] s.drop_last()[k]).role == name;
                assert(s[k].role == name);
            }
            if exists|k: int| 0 <= k < s.len() && (#[trigger] s[k]).role == name {
                let k = choose|k: int| 0 <= k < s.len() && (#[trigger] s[k]).role == name;
                assert(k < s.len() - 1);
                assert(s.drop_last()[k].role == name);
            }
        }
    }
}

/// With unique names, the table maps each name to its policy.
pub proof fn lemma_map_index(s: Seq<RolePolicySpec>, k: int)
    requires
        0 <= k < s.len(),
        forall|a: int, b: int| 0 <= a < b < s.len() ==> (#[trigger] s[a]).role != (#[trigger] s[b]).role,
    ensures
        policies_to_map(s).dom().contains(s[k].role),
        policies_to_map(s)[s[k].role] == s[k],
    decreases s.len(),
{
    lemma_map_contains(s, s[k].role);
    if k == s.len() - 1 {
    } else {
        assert(s[k].role != s[s.len() - 1].role);
        assert(s.drop_last()[k] == s[k]);
        lemma_map_index(s.drop_last(), k);
    }
}

/// A policy list with one name spliced out.
pub open spec fn spec_without_role(s: Seq<RolePolicySpec>, name: Seq<char>) -> Seq<RolePolicySpec>
    decreases s.len(),
{
    if s.len() == 0 {
        Seq::empty()
    } else {
        let rest = spec_without_role(s.drop_last(), name);
        if s.last().role == name {
            rest
        } else {
            rest.push(s.last())
        }
    }
}

/// Splicing a name out removes exactly that name from the table.
pub proof fn lemma_without_role_map(s: Seq<RolePolicySpec>, name: Seq<char>)
    ensures
        policies_to_map(spec_without_role(s, name)) == policies_to_map(s).remove(name),
        forall|k: int| 0 <= k < spec_without_role(s, name).len()
            ==> (#[trigger] spec_without_role(s, name)[k]).role != name,
    decreases s.len(),
{
    if s.len() == 0 {
        assert(policies_to_map(spec_without_role(s, name)) =~= policies_to_map(s).remove(name));
    } else {
        lemma_without_role_map(s.drop_last(), name);
        if s.last().role == name {
            assert(policies_to_map(spec_without_role(s, name))
                =~= policies_to_map(s).remove(name));
        } else {
            assert(spec_without_role(s, name).drop_last()
                =~= spec_without_role(s.drop_last(), name));
            assert(spec_without_role(s, name).last() == s.last());
            assert(policies_to_map(spec_without_role(s, name))
                == policies_to_map(s.drop_last()).remove(name).insert(s.last().role, s.last()));
            assert(policies_to_map(s.drop_last()).remove(name).insert(s.last().role, s.last())
                =~= policies_to_map(s).remove(name));
        }
    }
}

/// The permissions a role set gathers from a table: everything any of the
/// set's known roles grants.
pub open spec fn spec_union_perms(m: Map<Seq<char>, RolePolicySpec>, roles: Seq<Seq<char>>) -> Set<Permission> {
    Set::new(|p: Permission| exists|i: int|
        0 <= i < roles.len() && m.dom().contains(#[trigger] roles[i])
            && m[roles[i]].permissions.contains(p))
}

/// The effective permissions of a role set: the union, escalated to the
/// whole universe when it holds administrative access.
pub open spec fn spec_effective_perms(m: Map<Seq<char>, RolePolicySpec>, roles: Seq<Seq<char>>) -> Set<Permission> {
    if spec_union_perms(m, roles).contains(Permission::AdminAccess) {
        spec_all_permissions()
    } else {
        spec_union_perms(m, roles)
    }
}

/// Whether a role set holds one permission: some known role grants it or
/// grants administrative access.
pub open spec fn spec_check_permission(m: Map<Seq<char>, RolePolicySpec>, roles: Seq<Seq<char>>, p: Permission) -> bool {
    spec_union_perms(m, roles).contains(p)
        || spec_union_perms(m, roles).contains(Permission::AdminAccess)
}

/// A role set holding `admin` under a table whose `admin` role grants
/// administrative access escalates to the whole permission universe.
pub proof fn lemma_admin_escalates(m: Map<Seq<char>, RolePolicySpec>, roles: Seq<Seq<char>>)
    requires
        m.dom().contains("admin"@),
        m["admin"@].permissions.contains(Permission::AdminAccess),
        roles.contains("admin"@),
    ensures
        spec_effective_perms(m, roles) == spec_all_permissions(),
{
    let i = choose|i: int| 0 <= i < roles.len() && roles[i] == "admin"@;
    assert(m.dom().contains(roles[i]) && m[roles[i]].permissions.contains(Permission::AdminAccess));
    assert(spec_union_perms(m, roles).contains(Permission::AdminAccess));
}

/// Adding a fresh role and then removing it leaves the table as it was.
pub proof fn lemma_add_remove_role(m: Map<Seq<char>, RolePolicySpec>, name: Seq<char>, pol: RolePolicySpec)
    requires
        !m.dom().contains(name),
    ensures
        m.insert(name, pol).remove(name) == m,
{
    assert(m.insert(name, pol).remove(name) =~= m);
}

/// The role table: policies by name, names unique.
pub struct RbacEngine {
    policies: Vec<RolePolicy>,
}

impl RbacEngine {
    /// The engine's invariant: one policy per name.
    pub closed spec fn wf(self) -> bool {
        forall|a: int, b: int| 0 <= a < b < self.policies_view().len()
            ==> (#[trigger] self.policies_view()[a]).role
                != (#[trigger] self.policies_view()[b]).role
    }

    /// The table the engine holds.
    pub closed spec fn table(self) -> Map<Seq<char>, RolePolicySpec> {
        policies_to_map(self.policies_view())
    }

    /// The policy list, in insertion order.
    pub closed spec fn policies_view(self) -> Seq<RolePolicySpec> {
        self.policies@.map_values(|p: RolePolicy| p@)
    }

    /// An engine without any roles.
    pub fn new_empty() -> (r: RbacEngine)
        ensures
            r.wf(),
            r.table() == Map::<Seq<char>, RolePolicySpec>::empty(),
    {
        RbacEngine { policies: Vec::new() }
    }

    /// An engine with the starter roles: `viewer`, `executor`,
    /// `developer`, and `admin` (which holds everything).
    pub fn new() -> (r: RbacEngine)
        ensures
            r.wf(),
            r.table().dom() =~= Set::empty().insert("viewer"@).insert("executor"@)
                .insert("developer"@).insert("admin"@),
            forall|name: Seq<char>| r.table().dom().contains(name)
                ==> perms_set((#[trigger] r.table()[name]).permissions)
                    == crate::auth::models::spec_role_permissions(name),
            r.table().dom().contains("admin"@)
                && r.table()["admin"@].permissions.contains(Permission::AdminAccess),
    {
        let mut engine = RbacEngine { policies: Vec::new() };
        engine.add_role("viewer", Permission::for_role("viewer"),
            Some(copy_str("read-only access to workflows and executions")));
        engine.add_role("executor", Permission::for_role("executor"),
            Some(copy_str("can read and execute workflows, view execution history")));
        engine.add_role("developer", Permission::for_role("developer"),
            Some(copy_str("full access to workflows and executions, can cancel running workflows")));
        engine.add_role("admin", Permission::for_role("admin"),
            Some(copy_str("full administrative access to all resources")));
        proof {
            crate::auth::models::lemma_role_words_distinct();
            assert(engine.table().dom() =~= Set::empty().insert("viewer"@).insert("executor"@)
                .insert("developer"@).insert("admin"@));
            assert forall|name: Seq<char>| engine.table().dom().contains(name)
                implies perms_set((#[trigger] engine.table()[name]).permissions)
                    == crate::auth::models::spec_role_permissions(name) by {
            }
            assert(perms_set(engine.table()["admin"@].permissions)
                == spec_all_permissions());
            assert(spec_all_permissions().contains(Permission::AdminAccess));
        }
        engine
    }

    /// Adds or replaces a role policy under its name.
    pub fn add_role(&mut self, role: &str, permissions: Vec<Permission>, description: Option<String>)
        requires
            old(self).wf(),
        ensures
            final(self).wf(),
            final(self).table() == old(self).table().insert(
                role@,
                (RolePolicySpec {
                    role: role@,
                    permissions: permissions@,
                    description: match description {
                        Option::Some(d) => Option::Some(d@),
                        Option::None => Option::<Seq<char>>::None,
                    },
                }),
            ),
    {
        self.remove_role_entry(role);
        let policy = RolePolicy {
            role: copy_str(role),
            permissions,
            description,
        };
        let ghost before = self.policies_view();
        self.policies.push(policy);
        proof {
            assert(self.policies_view().drop_last() =~= before);
            assert(self.policies_view().last() == self.policies@.last()@);
            lemma_without_role_map(old(self).policies_view(), role@);
            assert(policies_to_map(self.policies_view())
                == policies_to_map(before).insert(role@, self.policies@.last()@));
            assert(policies_to_map(before).remove(role@).insert(role@, self.policies@.last()@)
                =~= policies_to_map(before).insert(role@, self.policies@.last()@));
            assert(policies_to_map(old(self).policies_view()).remove(role@)
                .insert(role@, self.policies@.last()@)
                =~= policies_to_map(old(self).policies_view())
                    .insert(role@, self.policies@.last()@));
            assert forall|a: int, b: int| 0 <= a < b < self.policies_view().len()
                implies (#[trigger] self.policies_view()[a]).role
                    != (#[trigger] self.policies_view()[b]).role by {
                if b == self.policies_view().len() - 1 {
                    assert(self.policies_view()[a] == before[a]);
                } else {
                    assert(self.policies_view()[a] == before[a]);
                    assert(self.policies_view()[b] == before[b]);
                }
            }
        }
    }

    /// Splices a named policy out, keeping order; quiet when absent.
    fn remove_role_entry(&mut self, role: &str)
        requires
            old(self).wf(),
        ensures
            final(self).wf(),
            final(self).policies_view() == spec_without_role(old(self).policies_view(), role@),
            final(self).table() == old(self).table().remove(role@),
            forall|k: int| 0 <= k < final(self).policies_view().len()
                ==> (#[trigger] final(self).policies_view()[k]).role != role@,
    {
        let ghost s0 = self.policies_view();
        let n = self.policies.len();
        let mut out: Vec<RolePolicy> = Vec::new();
        let mut i: usize = 0;
        while i < n
            invariant
                0 <= i <= n,
                n == self.policies@.len(),
                s0 == self.policies_view(),
                s0.len() == n,
                forall|k: int| 0 <= k < n ==> #[trigger] s0[k] == self.policies@[k]@,
                out@.map_values(|p: RolePolicy| p@)
                    =~= spec_without_role(s0.take(i as int), role@),
            decreases n - i,
        {
            let ghost o0 = out@.map_values(|p: RolePolicy| p@);
            if !str_eq(self.policies[i].role.as_str(), role) {
                out.push(self.policies[i].clone_entry());
            }
            proof {
                assert(s0.take(i as int + 1).drop_last() =~= s0.take(i as int));
                assert(s0.take(i as int + 1).last() == s0[i as int]);
                if s0[i as int].role == role@ {
                    assert(out@.map_values(|p: RolePolicy| p@) =~= o0);
                } else {
                    assert(out@.map_values(|p: RolePolicy| p@) =~= o0.push(s0[i as int]));
                }
            }
            i = i + 1;
        }
        proof {
            assert(s0.take(n as int) =~= s0);
        }
        self.policies = out;
        proof {
            lemma_without_role_map(s0, role@);
            lemma_without_role_unique(s0, role@);
        }
    }

    /// Removes a role; errs exactly when no policy carries the name.
    pub fn remove_role(&mut self, role: &str) -> (r: Result<(), AuthError>)
        requires
            old(self).wf(),
        ensures
            final(self).wf(),
            r is Ok <==> old(self).table().dom().contains(role@),
            final(self).table() == old(self).table().remove(role@),
            r matches Err(e) ==> e is RoleNotFound,
    {
        let existed = self.get_role(role).is_some();
        self.remove_role_entry(role);
        if existed {
            Ok(())
        } else {
            Err(AuthError::RoleNotFound(copy_str(role)))
        }
    }

    /// The policy stored under a name, if any.
    pub fn get_role(&self, role: &str) -> (r: Option<RolePolicy>)
        requires
            self.wf(),
        ensures
            match r {
                Option::Some(p) => self.table().dom().contains(role@)
                    && self.table()[role@] == p@,
                Option::None => !self.table().dom().contains(role@),
            },
    {
        let n = self.policies.len();
        let mut i: usize = 0;
        while i < n
            invariant
                0 <= i <= n,
                self.wf(),
                n == self.policies@.len(),
                self.policies_view().len() == n,
                forall|k: int| 0 <= k < i ==> (#[trigger] self.policies_view()[k]).role != role@,
            decreases n - i,
        {
            if str_eq(self.policies[i].role.as_str(), role) {
                proof {
                    assert(self.policies_view()[i as int] == self.policies@[i as int]@);
                    lemma_map_index(self.policies_view(), i as int);
                }
                return Some(self.policies[i].clone_entry());
            }
            proof {
                assert(self.policies_view()[i as int] == self.policies@[i as int]@);
            }
            i = i + 1;
        }
        proof {
            lemma_map_contains(self.policies_view(), role@);
        }
        None
    }

    /// Every role name, in insertion order.
    pub fn list_roles(&self) -> (r: Vec<String>)
        requires
            self.wf(),
        ensures
            r@.len() == self.policies_view().len(),
            forall|k: int| 0 <= k < r@.len()
                ==> #[trigger] r@[k]@ == self.policies_view()[k].role,
            forall|name: Seq<char>| self.table().dom().contains(name)
                <==> exists|k: int| 0 <= k < r@.len() && #[trigger] r@[k]@ == name,
    {
        let n = self.policies.len();
        let mut out: Vec<String> = Vec::new();
        let mut i: usize = 0;
        while i < n
            invariant
                0 <= i <= n,
                n == self.policies@.len(),
                out@.len() == i,
                forall|k: int| 0 <= k < i ==> #[trigger] out@[k]@ == self.policies@[k].role@,
            decreases n - i,
        {
            out.push(self.policies[i].role.clone());
            i = i + 1;
        }
        proof {
            assert forall|k: int| 0 <= k < out@.len()
                implies #[trigger] out@[k]@ == self.policies_view()[k].role by {
                assert(self.policies_view()[k] == self.policies@[k]@);
            }
            assert forall|name: Seq<char>| self.table().dom().contains(name)
                implies exists|k: int| 0 <= k < out@.len() && #[trigger] out@[k]@ == name by {
                lemma_map_contains(self.policies_view(), name);
                let k = choose|k: int| 0 <= k < self.policies_view().len()
                    && (#[trigger] self.policies_view()[k]).role == name;
                assert(out@[k]@ == name);
            }
            assert forall|name: Seq<char>|
                (exists|k: int| 0 <= k < out@.len() && #[trigger] out@[k]@ == name)
                implies self.table().dom().contains(name) by {
                let k = choose|k: int| 0 <= k < out@.len() && #[trigger] out@[k]@ == name;
                assert(self.policies_view()[k].role == name);
                lemma_map_contains(self.policies_view(), name);
            }
        }
        out
    }

    /// The effective permissions of a role set: the union of what the
    /// known roles grant, escalated to everything on administrative
    /// access. Unknown names grant nothing.
    pub fn compute_permissions(&self, roles: &Vec<String>) -> (r: Vec<Permission>)
        requires
            self.wf(),
        ensures
            perms_set(r@) == spec_effective_perms(
                self.table(),
                crate::auth::models::strings_view(roles@),
            ),
            forall|a: int, b: int| 0 <= a < b < r@.len() ==> r@[a] != r@[b],
    {
        let ghost rv = crate::auth::models::strings_view(roles@);
        let ghost m = self.table();
        let n = roles.len();
        let mut acc: Vec<Permission> = Vec::new();
        let mut i: usize = 0;
        while i < n
            invariant
                0 <= i <= n,
                self.wf(),
                m == self.table(),
                rv == crate::auth::models::strings_view(roles@),
                n == roles@.len(),
                rv.len() == n,
                forall|k: int| 0 <= k < n ==> #[trigger] rv[k] == roles@[k]@,
                perms_set(acc@) == spec_union_perms(m, rv.take(i as int)),
                forall|a: int, b: int| 0 <= a < b < acc@.len() ==> acc@[a] != acc@[b],
            decreases n - i,
        {
            let ghost acc0 = acc@;
            match self.get_role(roles[i].as_str()) {
                Option::Some(policy) => {
                    let pn = policy.permissions.len();
                    let mut j: usize = 0;
                    while j < pn
                        invariant
                            0 <= j <= pn,
                            pn == policy.permissions@.len(),
                            perms_set(acc@) =~= perms_set(acc0)
                                .union(perms_set(policy.permissions@.take(j as int))),
                            forall|a: int, b: int| 0 <= a < b < acc@.len() ==> acc@[a] != acc@[b],
                        decreases pn - j,
                    {
                        let ghost a0 = acc@;
                        let p = policy.permissions[j];
                        let already = contains_permission(&acc, p);
                        if !already {
                            acc.push(p);
                            proof {
                                assert forall|a: int, b: int| 0 <= a < b < acc@.len()
                                    implies acc@[a] != acc@[b] by {
                                    if b == acc@.len() - 1 {
                                        assert(acc@[a] == a0[a]);
                                        assert(acc@[b] == p);
                                        if a0[a] == p {
                                            assert(perms_set(a0).contains(p));
                                        }
                                    } else {
                                        assert(acc@[a] == a0[a]);
                                        assert(acc@[b] == a0[b]);
                                    }
                                }
                            }
                        }
                        proof {
                            lemma_perms_set_take_step(policy.permissions@, j as int);
                            if already {
                                assert(perms_set(a0).contains(p));
                                assert(perms_set(acc@) =~= perms_set(acc0)
                                    .union(perms_set(policy.permissions@.take(j as int + 1))));
                            } else {
                                lemma_perms_set_push(a0, p);
                                assert(perms_set(acc@) =~= perms_set(acc0)
                                    .union(perms_set(policy.permissions@.take(j as int + 1))));
                            }
                        }
                        j = j + 1;
                    }
                    proof {
                        assert(policy.permissions@.take(pn as int) =~= policy.permissions@);
                        assert(rv.take(i as int + 1).drop_last() =~= rv.take(i as int));
                        lemma_union_perms_take_step(m, rv, i as int);
                        assert(m.dom().contains(rv[i as int]));
                        assert(m[rv[i as int]] == policy@);
                        assert(perms_set(acc@) =~= spec_union_perms(m, rv.take(i as int + 1)));
                    }
                },
                Option::None => {
                    proof {
                        lemma_union_perms_take_step(m, rv, i as int);
                        assert(perms_set(acc@) =~= spec_union_perms(m, rv.take(i as int + 1)));
                    }
                },
            }
            i = i + 1;
        }
        proof {
            assert(rv.take(n as int) =~= rv);
        }
        if contains_permission(&acc, Permission::AdminAccess) {
            let r = Permission::all();
            proof {
                assert(perms_set(acc@).contains(Permission::AdminAccess));
            }
            r
        } else {
            proof {
                assert(!spec_union_perms(m, rv).contains(Permission::AdminAccess));
            }
            acc
        }
    }

    /// Whether a role set holds one permission, directly or through
    /// administrative access.
    pub fn check_permission(&self, roles: &Vec<String>, permission: &Permission) -> (r: bool)
        requires
            self.wf(),
        ensures
            r == spec_check_permission(
                self.table(),
                crate::auth::models::strings_view(roles@),
                *permission,
            ),
    {
        let perms = self.compute_permissions(roles);
        let r = contains_permission(&perms, *permission);
        proof {
            let m = self.table();
            let rv = crate::auth::models::strings_view(roles@);
            if spec_union_perms(m, rv).contains(Permission::AdminAccess) {
                assert(spec_effective_perms(m, rv).contains(*permission));
            }
        }
        r
    }

    /// Ok exactly when the context's roles grant the permission.
    pub fn require_permission(&self, ctx: &AuthContext, permission: &Permission) -> (r: Result<(), AuthError>)
        requires
            self.wf(),
        ensures
            r is Ok <==> spec_check_permission(
                self.table(),
                crate::auth::models::strings_view(ctx.roles@),
                *permission,
            ),
            r matches Err(e) ==> e is InsufficientPermissions,
    {
        if self.check_permission(&ctx.roles, permission) {
            Ok(())
        } else {
            Err(AuthError::InsufficientPermissions(
                *permission,
                clone_permissions(&ctx.permissions),
            ))
        }
    }

    /// Whether a role set holds every one of the given permissions.
    pub fn check_all_permissions(&self, roles: &Vec<String>, permissions: &Vec<Permission>) -> (r: bool)
        requires
            self.wf(),
        ensures
            r == forall|k: int| 0 <= k < permissions@.len() ==> spec_check_permission(
                self.table(),
                crate::auth::models::strings_view(roles@),
                #[trigger] permissions@[k],
            ),
    {
        let n = permissions.len();
        let mut i: usize = 0;
        while i < n
            invariant
                0 <= i <= n,
                self.wf(),
                n == permissions@.len(),
                forall|k: int| 0 <= k < i ==> spec_check_permission(
                    self.table(),
                    crate::auth::models::strings_view(roles@),
                    #[trigger] permissions@[k],
                ),
            decreases n - i,
        {
            if !self.check_permission(roles, &permissions[i]) {
                return false;
            }
            i = i + 1;
        }
        true
    }

    /// Whether a role set holds any of the given permissions.
    pub fn check_any_permission(&self, roles: &Vec<String>, permissions: &Vec<Permission>) -> (r: bool)
        requires
            self.wf(),
        ensures
            r == exists|k: int| 0 <= k < permissions@.len() && spec_check_permission(
                self.table(),
                crate::auth::models::strings_view(roles@),
                #[trigger] permissions@[k],
            ),
    {
        let n = permissions.len();
        let mut i: usize = 0;
        while i < n
            invariant
                0 <= i <= n,
                self.wf(),
                n == permissions@.len(),
                forall|k: int| 0 <= k < i ==> !spec_check_permission(
                    self.table(),
                    crate::auth::models::strings_view(roles@),
                    #[trigger] permissions@[k],
                ),
            decreases n - i,
        {
            if self.check_permission(roles, &permissions[i]) {
                proof {
                    assert(spec_check_permission(
                        self.table(),
                        crate::auth::models::strings_view(roles@),
                        permissions@[i as int],
                    ));
                }
                return true;
            }
            i = i + 1;
        }
        false
    }

    /// Ok exactly when every given role name has a policy.
    pub fn validate_roles(&self, roles: &Vec<String>) -> (r: Result<(), AuthError>)
        requires
            self.wf(),
        ensures
            r is Ok <==> forall|k: int| 0 <= k < roles@.len()
                ==> self.table().dom().contains(#[trigger] roles@[k]@),
            r matches Err(e) ==> e is RoleNotFound,
    {
        let n = roles.len();
        let mut i: usize = 0;
        while i < n
            invariant
                0 <= i <= n,
                self.wf(),
                n == roles@.len(),
                forall|k: int| 0 <= k < i ==> self.table().dom().contains(#[trigger] roles@[k]@),
            decreases n - i,
        {
            if self.get_role(roles[i].as_str()).is_none() {
                return Err(AuthError::RoleNotFound(roles[i].clone()));
            }
            i = i + 1;
        }
        Ok(())
    }
}

impl RolePolicy {
    /// A copy with the same model.
    pub fn clone_entry(&self) -> (r: RolePolicy)
        ensures
            r@ == self@,
    {
        RolePolicy {
            role: self.role.clone(),
            permissions: clone_permissions(&self.permissions),
            description: crate::audit::models::clone_opt_string(&self.description),
        }
    }
}

/// Whether a permission stands in a list.
pub(crate) fn contains_permission(ps: &Vec<Permission>, p: Permission) -> (r: bool)
    ensures
        r == perms_set(ps@).contains(p),
{
    let n = ps.len();
    let mut i: usize = 0;
    while i < n
        invariant
            0 <= i <= n,
            n == ps@.len(),
            forall|k: int| 0 <= k < i ==> ps@[k] != p,
        decreases n - i,
    {
        if ps[i] == p {
            assert(ps@[i as int] == p);
            return true;
        }
        i = i + 1;
    }
    proof {
        if perms_set(ps@).contains(p) {
            let k = choose|k: int| 0 <= k < ps@.len() && ps@[k] == p;
        }
    }
    false
}

/// Pushing one permission grows a list's permission set by it.
proof fn lemma_perms_set_push(s: Seq<Permission>, p: Permission)
    ensures
        perms_set(s.push(p)) == perms_set(s).insert(p),
{
    assert forall|q: Permission| perms_set(s.push(p)).contains(q)
        implies perms_set(s).insert(p).contains(q) by {
        let k = choose|k: int| 0 <= k < s.push(p).len() && (#[trigger] s.push(p)[k]) == q;
        if k < s.len() {
            assert(s[k] == q);
        }
    }
    assert forall|q: Permission| perms_set(s).insert(p).contains(q)
        implies perms_set(s.push(p)).contains(q) by {
        if q == p {
            assert(s.push(p)[s.len() as int] == q);
        } else {
            let k = choose|k: int| 0 <= k < s.len() && (#[trigger] s[k]) == q;
            assert(s.push(p)[k] == q);
        }
    }
    assert(perms_set(s.push(p)) =~= perms_set(s).insert(p));
}

/// Growing a prefix by one element grows its permission set by it.
proof fn lemma_perms_set_take_step(s: Seq<Permission>, j: int)
    requires
        0 <= j < s.len(),
    ensures
        perms_set(s.take(j + 1)) == perms_set(s.take(j)).insert(s[j]),
{
    assert forall|q: Permission| perms_set(s.take(j + 1)).contains(q)
        implies perms_set(s.take(j)).insert(s[j]).contains(q) by {
        let k = choose|k: int| 0 <= k < s.take(j + 1).len() && (#[trigger] s.take(j + 1)[k]) == q;
        if k < j {
            assert(s.take(j)[k] == q);
        }
    }
    assert forall|q: Permission| perms_set(s.take(j)).insert(s[j]).contains(q)
        implies perms_set(s.take(j + 1)).contains(q) by {
        if q == s[j] {
            assert(s.take(j + 1)[j] == q);
        } else {
            let k = choose|k: int| 0 <= k < s.take(j).len() && (#[trigger] s.take(j)[k]) == q;
            assert(s.take(j + 1)[k] == q);
        }
    }
    assert(perms_set(s.take(j + 1)) =~= perms_set(s.take(j)).insert(s[j]));
}

/// Growing a role prefix by one role grows the union by what that role
/// grants.
proof fn lemma_union_perms_take_step(m: Map<Seq<char>, RolePolicySpec>, roles: Seq<Seq<char>>, i: int)
    requires
        0 <= i < roles.len(),
    ensures
        m.dom().contains(roles[i]) ==> spec_union_perms(m, roles.take(i + 1))
            == spec_union_perms(m, roles.take(i)).union(perms_set(m[roles[i]].permissions)),
        !m.dom().contains(roles[i]) ==> spec_union_perms(m, roles.take(i + 1))
            == spec_union_perms(m, roles.take(i)),
{
    if m.dom().contains(roles[i]) {
        assert forall|q: Permission| spec_union_perms(m, roles.take(i + 1)).contains(q)
            implies spec_union_perms(m, roles.take(i)).union(
                perms_set(m[roles[i]].permissions)).contains(q) by {
            let k = choose|k: int| 0 <= k < roles.take(i + 1).len()
                && m.dom().contains(#[trigger] roles.take(i + 1)[k])
                && m[roles.take(i + 1)[k]].permissions.contains(q);
            if k < i {
                assert(roles.take(i)[k] == roles[k]);
                assert(m.dom().contains(roles.take(i)[k])
                    && m[roles.take(i)[k]].permissions.contains(q));
            } else {
                let ps = m[roles[i]].permissions;
                let c = choose|c: int| 0 <= c < ps.len() && ps[c] == q;
                assert(perms_set(ps).contains(q));
            }
        }
        assert forall|q: Permission| spec_union_perms(m, roles.take(i)).union(
            perms_set(m[roles[i]].permissions)).contains(q)
            implies spec_union_perms(m, roles.take(i + 1)).contains(q) by {
            if spec_union_perms(m, roles.take(i)).contains(q) {
                let k = choose|k: int| 0 <= k < roles.take(i).len()
                    && m.dom().contains(#[trigger] roles.take(i)[k])
                    && m[roles.take(i)[k]].permissions.contains(q);
                assert(roles.take(i + 1)[k] == roles[k]);
                assert(m.dom().contains(roles.take(i + 1)[k])
                    && m[roles.take(i + 1)[k]].permissions.contains(q));
            } else {
                assert(roles.take(i + 1)[i] == roles[i]);
                assert(m.dom().contains(roles.take(i + 1)[i])
                    && m[roles.take(i + 1)[i]].permissions.contains(q));
            }
        }
        assert(spec_union_perms(m, roles.take(i + 1))
            =~= spec_union_perms(m, roles.take(i)).union(perms_set(m[roles[i]].permissions)));
    } else {
        assert forall|q: Permission| spec_union_perms(m, roles.take(i + 1)).contains(q)
            implies spec_union_perms(m, roles.take(i)).contains(q) by {
            let k = choose|k: int| 0 <= k < roles.take(i + 1).len()
                && m.dom().contains(#[trigger] roles.take(i + 1)[k])
                && m[roles.take(i + 1)[k]].permissions.contains(q);
            assert(k != i);
            assert(roles.take(i)[k] == roles[k]);
            assert(m.dom().contains(roles.take(i)[k])
                && m[roles.take(i)[k]].permissions.contains(q));
        }
        assert forall|q: Permission| spec_union_perms(m, roles.take(i)).contains(q)
            implies spec_union_perms(m, roles.take(i + 1)).contains(q) by {
            let k = choose|k: int| 0 <= k < roles.take(i).len()
                && m.dom().contains(#[trigger] roles.take(i)[k])
                && m[roles.take(i)[k]].permissions.contains(q);
            assert(roles.take(i + 1)[k] == roles[k]);
            assert(m.dom().contains(roles.take(i + 1)[k])
                && m[roles.take(i + 1)[k]].permissions.contains(q));
        }
        assert(spec_union_perms(m, roles.take(i + 1)) =~= spec_union_perms(m, roles.take(i)));
    }
}

/// A spliced list keeps names unique.
proof fn lemma_without_role_unique(s: Seq<RolePolicySpec>, name: Seq<char>)
    requires
        forall|a: int, b: int| 0 <= a < b < s.len()
            ==> (#[trigger] s[a]).role != (#[trigger] s[b]).role,
    ensures
        forall|a: int, b: int| 0 <= a < b < spec_without_role(s, name).len()
            ==> (#[trigger] spec_without_role(s, name)[a]).role
                != (#[trigger] spec_without_role(s, name)[b]).role,
        forall|k: int| 0 <= k < spec_without_role(s, name).len()
            ==> exists|c: int| 0 <= c < s.len()
                && #[trigger] spec_without_role(s, name)[k] == s[c],
    decreases s.len(),
{
    if s.len() > 0 {
        assert forall|a: int, b: int| 0 <= a < b < s.drop_last().len()
            implies (#[trigger] s.drop_last()[a]).role
                != (#[trigger] s.drop_last()[b]).role by {
            assert(s.drop_last()[a] == s[a]);
            assert(s.drop_last()[b] == s[b]);
        }
        lemma_without_role_unique(s.drop_last(), name);
        let rest = spec_without_role(s.drop_last(), name);
        if s.last().role == name {
        } else {
            let r = rest.push(s.last());
            assert forall|k: int| 0 <= k < r.len()
                implies exists|c: int| 0 <= c < s.len() && #[trigger] r[k] == s[c] by {
                if k < rest.len() {
                    let c = choose|c: int| 0 <= c < s.drop_last().len()
                        && #[trigger] rest[k] == s.drop_last()[c];
                    assert(r[k] == s[c]);
                } else {
                    assert(r[k] == s[s.len() - 1]);
                }
            }
            assert forall|a: int, b: int| 0 <= a < b < r.len()
                implies (#[trigger] r[a]).role != (#[trigger] r[b]).role by {
                if b == r.len() - 1 {
                    let c = choose|c: int| 0 <= c < s.drop_last().len()
                        && #[trigger] rest[a] == s.drop_last()[c];
                    assert(r[a] == s[c]);
                    assert(r[b] == s[s.len() - 1]);
                    assert(s[c].role != s[s.len() - 1].role);
                }
            }
        }
    }
}

} // verus!
