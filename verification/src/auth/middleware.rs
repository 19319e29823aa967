//! Authentication middleware: the `Authorization` header to an
//! authenticated context.
//!
//! `Bearer <jwt>` verifies the token and computes permissions from its
//! roles; `ApiKey <key>` looks the key up by digest and derives
//! permissions from its scopes by a fixed table. A missing header is
//! `MissingCredentials`, an unknown scheme `InvalidCredentials`.

use vstd::prelude::*;
use crate::auth::models::{AuthContext, AuthError, AuthType, Permission, strings_view};
use crate::auth::jwt::JwtAuth;
use crate::auth::api_keys::{ApiKeyManager, ApiKeyStore};
use crate::auth::rbac::RbacEngine;
use crate::strutil::{str_eq, copy_str};

verus! {

/// Whether a text starts with a prefix.
pub open spec fn spec_has_prefix(s: Seq<char>, p: Seq<char>) -> bool {
    s.len() >= p.len() && s.take(p.len() as int) == p
}

/// The permission one scope word grants, if any.
pub open spec fn spec_scope_permission(s: Seq<char>) -> Option<Permission> {
    if s == "workflow:read"@ { Option::Some(Permission::WorkflowRead) }
    else if s == "workflow:write"@ { Option::Some(Permission::WorkflowWrite) }
    else if s == "workflow:execute"@ { Option::Some(Permission::WorkflowExecute) }
    else if s == "workflow:delete"@ { Option::Some(Permission::WorkflowDelete) }
    else if s == "execution:read"@ { Option::Some(Permission::ExecutionRead) }
    else if s == "execution:cancel"@ { Option::Some(Permission::ExecutionCancel) }
    else if s == "admin"@ { Option::Some(Permission::AdminAccess) }
    else { Option::None }
}

/// The permissions a scope list grants, in order, unknown scopes dropped.
pub open spec fn spec_scopes_permissions(scopes: Seq<Seq<char>>) -> Seq<Permission>
    decreases scopes.len(),
{
    if scopes.len() == 0 {
        Seq::empty()
    } else {
        let rest = spec_scopes_permissions(scopes.drop_last());
        match spec_scope_permission(scopes.last()) {
            Option::Some(p) => rest.push(p),
            Option::None => rest,
        }
    }
}

/// The starter role a scope list reduces to: administrators first, then
/// writers-and-executors, then executors, then readers.
pub open spec fn spec_scopes_role(scopes: Seq<Seq<char>>) -> Option<Seq<char>> {
    if scopes.contains("admin"@) {
        Option::Some("admin"@)
    } else if scopes.contains("workflow:write"@) && scopes.contains("workflow:execute"@) {
        Option::Some("developer"@)
    } else if scopes.contains("workflow:execute"@) {
        Option::Some("executor"@)
    } else if scopes.contains("workflow:read"@) {
        Option::Some("viewer"@)
    } else {
        Option::None
    }
}

/// The permission one scope word grants, if any.
pub fn scope_permission(s: &str) -> (r: Option<Permission>)
    ensures
        r == spec_scope_permission(s@),
{
    if str_eq(s, "workflow:read") { Some(Permission::WorkflowRead) }
    else if str_eq(s, "workflow:write") { Some(Permission::WorkflowWrite) }
    else if str_eq(s, "workflow:execute") { Some(Permission::WorkflowExecute) }
    else if str_eq(s, "workflow:delete") { Some(Permission::WorkflowDelete) }
    else if str_eq(s, "execution:read") { Some(Permission::ExecutionRead) }
    else if str_eq(s, "execution:cancel") { Some(Permission::ExecutionCancel) }
    else if str_eq(s, "admin") { Some(Permission::AdminAccess) }
    else { None }
}

/// Whether a string stands in a list.
fn contains_string(v: &Vec<String>, x: &str) -> (r: bool)
    ensures
        r == strings_view(v@).contains(x@),
{
    let n = v.len();
    let mut i: usize = 0;
    while i < n
        invariant
            0 <= i <= n,
            n == v@.len(),
            forall|k: int| 0 <= k < i ==> #[trigger] v@[k]@ != x@,
        decreases n - i,
    {
        if str_eq(v[i].as_str(), x) {
            proof {
                assert(strings_view(v@)[i as int] == x@);
            }
            return true;
        }
        i = i + 1;
    }
    proof {
        if strings_view(v@).contains(x@) {
            let k = choose|k: int|
                0 <= k < strings_view(v@).len() && strings_view(v@)[k] == x@;
            assert(v@[k]@ == x@);
        }
    }
    false
}

/// The text after a prefix, when the text starts with it.
fn strip_prefix_str<'a>(s: &'a str, prefix: &str) -> (r: Option<&'a str>)
    ensures
        match r {
            Option::Some(rest) => s@ == prefix@ + rest@ && spec_has_prefix(s@, prefix@),
            Option::None => !spec_has_prefix(s@, prefix@),
        },
{
    let n = s.unicode_len();
    let pn = prefix.unicode_len();
    if n < pn {
        proof {
            assert(s@.len() < prefix@.len());
        }
        return None;
    }
    let head = s.substring_char(0, pn);
    if str_eq(head, prefix) {
        let rest = s.substring_char(pn, n);
        proof {
            assert(s@ =~= prefix@ + s@.subrange(pn as int, n as int));
            assert(s@.take(prefix@.len() as int) =~= prefix@);
        }
        Some(rest)
    } else {
        proof {
            assert(head@ == s@.take(pn as int));
        }
        None
    }
}

/// The middleware: token verification, key lookup, permission checks.
pub struct AuthMiddleware<S: ApiKeyStore> {
    /// The JWT manager behind `Bearer`.
    pub jwt_auth: JwtAuth,
    /// The key manager behind `ApiKey`.
    pub api_key_manager: ApiKeyManager<S>,
    /// The role table permissions are computed from.
    pub rbac: RbacEngine,
}

impl<S: ApiKeyStore> AuthMiddleware<S> {
    /// The middleware's invariant: a consistent role table.
    pub open spec fn wf(self) -> bool {
        self.rbac.wf()
    }

    /// A middleware over its three parts.
    pub fn new(jwt_auth: JwtAuth, api_key_manager: ApiKeyManager<S>, rbac: RbacEngine) -> (r: AuthMiddleware<S>)
        requires
            rbac.wf(),
        ensures
            r.wf(),
            r.jwt_auth == jwt_auth,
            r.rbac == rbac,
    {
        AuthMiddleware { jwt_auth, api_key_manager, rbac }
    }

    /// Authenticates a request by its `Authorization` header: `Bearer`
    /// verifies a JWT and computes the context's permissions from its
    /// roles; `ApiKey` looks a key up and derives permissions and a role
    /// from its scopes; no header is exactly `MissingCredentials` and an
    /// unknown scheme exactly `InvalidCredentials`.
    pub fn authenticate(&mut self, authorization_header: Option<&str>) -> (r: Result<AuthContext, AuthError>)
        requires
            old(self).wf(),
        ensures
            final(self).wf(),
            final(self).jwt_auth == old(self).jwt_auth,
            final(self).rbac == old(self).rbac,
            (authorization_header is None
                <==> (r matches Err(e) && e is MissingCredentials)),
            ((match authorization_header {
                Option::Some(h) => !spec_has_prefix(h@, "Bearer "@)
                    && !spec_has_prefix(h@, "ApiKey "@),
                Option::None => false,
            }) <==> (r matches Err(e) && e is InvalidCredentials)),
            (match authorization_header {
                Option::Some(h) => spec_has_prefix(h@, "Bearer "@) ==> (match r {
                    Result::Ok(ctx) => {
                        &&& ctx.auth_type is Jwt
                        &&& crate::auth::models::perms_set(ctx.permissions@)
                            == crate::auth::rbac::spec_effective_perms(
                                old(self).rbac.table(),
                                strings_view(ctx.roles@),
                            )
                        &&& exists|c: crate::auth::models::ClaimsSpec|
                            #![auto]
                            c.iss == old(self).jwt_auth.issuer_view()
                                && ctx.user_id@ == c.sub
                                && strings_view(ctx.roles@) == c.roles
                                && ctx.expires_at == c.exp
                    },
                    Result::Err(e) => e is TokenExpired || e is InvalidToken,
                }),
                Option::None => true,
            }),
            (match authorization_header {
                Option::Some(h) => (!spec_has_prefix(h@, "Bearer "@)
                    && spec_has_prefix(h@, "ApiKey "@)) ==> (match r {
                    Result::Ok(ctx) => {
                        &&& ctx.auth_type is ApiKey
                        &&& exists|sc: Seq<Seq<char>>|
                            #![auto]
                            ctx.permissions@ == spec_scopes_permissions(sc)
                                && (match spec_scopes_role(sc) {
                                    Option::Some(nm) => strings_view(ctx.roles@) == seq![nm],
                                    Option::None => ctx.roles@.len() == 0,
                                })
                    },
                    Result::Err(e) => e is ApiKeyNotFound || e is ApiKeyExpired
                        || e is Internal,
                }),
                Option::None => true,
            }),
    {
        let header = match authorization_header {
            Option::Some(h) => h,
            Option::None => {
                return Err(AuthError::MissingCredentials);
            },
        };
        match strip_prefix_str(header, "Bearer ") {
            Option::Some(token) => {
                return self.authenticate_jwt(token);
            },
            Option::None => {},
        }
        match strip_prefix_str(header, "ApiKey ") {
            Option::Some(key) => {
                return self.authenticate_api_key(key);
            },
            Option::None => {},
        }
        Err(AuthError::InvalidCredentials)
    }

    /// Verifies a bearer token and builds its context: the claims'
    /// subject and roles, with permissions computed by the role table.
    fn authenticate_jwt(&self, token: &str) -> (r: Result<AuthContext, AuthError>)
        requires
            self.wf(),
        ensures
            r matches Ok(ctx) ==> {
                &&& ctx.auth_type is Jwt
                &&& crate::auth::models::perms_set(ctx.permissions@)
                    == crate::auth::rbac::spec_effective_perms(
                        self.rbac.table(),
                        strings_view(ctx.roles@),
                    )
                &&& exists|c: crate::auth::models::ClaimsSpec|
                    #![auto]
                    c.iss == self.jwt_auth.issuer_view()
                        && ctx.user_id@ == c.sub
                        && strings_view(ctx.roles@) == c.roles
                        && ctx.expires_at == c.exp
            },
            r matches Err(e) ==> e is TokenExpired || e is InvalidToken,
    {
        let claims = match self.jwt_auth.verify_token(token) {
            Result::Ok(c) => c,
            Result::Err(e) => {
                return Err(e);
            },
        };
        let ghost cv = claims@;
        let permissions = self.rbac.compute_permissions(&claims.roles);
        let ctx = AuthContext {
            user_id: claims.sub,
            roles: claims.roles,
            permissions,
            auth_type: AuthType::Jwt(copy_str(token)),
            expires_at: claims.exp,
        };
        proof {
            assert(cv.iss == self.jwt_auth.issuer_view()
                && ctx.user_id@ == cv.sub
                && strings_view(ctx.roles@) == cv.roles
                && ctx.expires_at == cv.exp);
        }
        Ok(ctx)
    }

    /// Looks an API key up and builds its context: permissions derived
    /// from the key's scopes by the fixed table, roles reduced from the
    /// scopes.
    fn authenticate_api_key(&mut self, key: &str) -> (r: Result<AuthContext, AuthError>)
        requires
            old(self).wf(),
        ensures
            final(self).wf(),
            final(self).jwt_auth == old(self).jwt_auth,
            final(self).rbac == old(self).rbac,
            r matches Ok(ctx) ==> {
                &&& ctx.auth_type is ApiKey
                &&& exists|sc: Seq<Seq<char>>|
                    #![auto]
                    ctx.permissions@ == spec_scopes_permissions(sc)
                        && (match spec_scopes_role(sc) {
                            Option::Some(nm) => strings_view(ctx.roles@) == seq![nm],
                            Option::None => ctx.roles@.len() == 0,
                        })
            },
            r matches Err(e) ==> e is ApiKeyNotFound || e is ApiKeyExpired || e is Internal,
    {
        let info = match self.api_key_manager.lookup_key(key) {
            Result::Ok(i) => i,
            Result::Err(e) => {
                return Err(e);
            },
        };
        let ghost sc = strings_view(info.scopes@);
        let permissions = scopes_to_permissions(&info.scopes);
        let roles = scopes_to_roles(&info.scopes);
        proof {
            match spec_scopes_role(sc) {
                Option::Some(nm) => {
                    assert(strings_view(roles@) =~= seq![nm]);
                },
                Option::None => {},
            }
        }
        let expires_at: u64 = match info.expires_at_ms {
            Option::Some(t) => if t >= 0 {
                (t / 1000) as u64
            } else {
                0
            },
            Option::None => u64::MAX,
        };
        Ok(AuthContext {
            user_id: info.user_id,
            roles,
            permissions,
            auth_type: AuthType::ApiKey(info.id),
            expires_at,
        })
    }

    /// The token of a `Bearer` header, if that is the scheme.
    pub fn extract_bearer_token(authorization_header: Option<&str>) -> (r: Option<String>)
        ensures
            match r {
                Option::Some(t) => authorization_header matches Some(h) && h@ == "Bearer "@ + t@,
                Option::None => true,
            },
    {
        match authorization_header {
            Option::Some(h) => match strip_prefix_str(h, "Bearer ") {
                Option::Some(t) => Some(copy_str(t)),
                Option::None => None,
            },
            Option::None => None,
        }
    }

    /// The key of an `ApiKey` header, if that is the scheme.
    pub fn extract_api_key(authorization_header: Option<&str>) -> (r: Option<String>)
        ensures
            match r {
                Option::Some(t) => authorization_header matches Some(h) && h@ == "ApiKey "@ + t@,
                Option::None => true,
            },
    {
        match authorization_header {
            Option::Some(h) => match strip_prefix_str(h, "ApiKey ") {
                Option::Some(t) => Some(copy_str(t)),
                Option::None => None,
            },
            Option::None => None,
        }
    }

    /// Ok exactly when the context's roles grant the permission under the
    /// middleware's role table.
    pub fn authorize(&self, ctx: &AuthContext, permission: &Permission) -> (r: Result<(), AuthError>)
        requires
            self.wf(),
        ensures
            r is Ok <==> crate::auth::rbac::spec_check_permission(
                self.rbac.table(),
                strings_view(ctx.roles@),
                *permission,
            ),
            r matches Err(e) ==> e is InsufficientPermissions,
    {
        self.rbac.require_permission(ctx, permission)
    }
}

/// The permissions a scope list grants, by the fixed table, unknown
/// scopes dropped.
pub fn scopes_to_permissions(scopes: &Vec<String>) -> (r: Vec<Permission>)
    ensures
        r@ == spec_scopes_permissions(strings_view(scopes@)),
{
    let ghost sv = strings_view(scopes@);
    let n = scopes.len();
    let mut out: Vec<Permission> = Vec::new();
    let mut i: usize = 0;
    while i < n
        invariant
            0 <= i <= n,
            n == scopes@.len(),
            sv == strings_view(scopes@),
            sv.len() == n,
            forall|k: int| 0 <= k < n ==> #[trigger] sv[k] == scopes@[k]@,
            out@ =~= spec_scopes_permissions(sv.take(i as int)),
        decreases n - i,
    {
        let ghost o0 = out@;
        match scope_permission(scopes[i].as_str()) {
            Option::Some(p) => {
                out.push(p);
            },
            Option::None => {},
        }
        proof {
            assert(sv.take(i as int + 1).drop_last() =~= sv.take(i as int));
            assert(sv.take(i as int + 1).last() == sv[i as int]);
            match spec_scope_permission(sv[i as int]) {
                Option::Some(p) => {
                    assert(out@ =~= o0.push(p));
                },
                Option::None => {
                    assert(out@ =~= o0);
                },
            }
        }
        i = i + 1;
    }
    proof {
        assert(sv.take(n as int) =~= sv);
    }
    out
}

/// The starter role a scope list reduces to, as a one- or zero-element
/// role list.
pub fn scopes_to_roles(scopes: &Vec<String>) -> (r: Vec<String>)
    ensures
        match spec_scopes_role(strings_view(scopes@)) {
            Option::Some(name) => r@.len() == 1 && r@[0]@ == name,
            Option::None => r@.len() == 0,
        },
{
    let has_admin = contains_string(scopes, "admin");
    let has_write = contains_string(scopes, "workflow:write");
    let has_execute = contains_string(scopes, "workflow:execute");
    let has_read = contains_string(scopes, "workflow:read");
    let mut out: Vec<String> = Vec::new();
    if has_admin {
        out.push(copy_str("admin"));
    } else if has_write && has_execute {
        out.push(copy_str("developer"));
    } else if has_execute {
        out.push(copy_str("executor"));
    } else if has_read {
        out.push(copy_str("viewer"));
    }
    out
}

} // verus!
