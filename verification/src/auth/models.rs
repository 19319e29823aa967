//! Auth data: permissions, roles, claims, API keys, auth contexts.

use vstd::prelude::*;
use crate::strutil::copy_str;
pub use crate::strutil::strings_view;
pub(crate) use crate::strutil::clone_strings;

verus! {

/// An atomic capability.
#[derive(Debug, Clone, Copy, PartialEq, Eq, Hash, Structural)]
pub enum Permission {
    /// Read workflow definitions.
    WorkflowRead,
    /// Write or update workflow definitions.
    WorkflowWrite,
    /// Execute workflows.
    WorkflowExecute,
    /// Delete workflows.
    WorkflowDelete,
    /// Administrative access: dominates every permission.
    AdminAccess,
    /// Read execution history.
    ExecutionRead,
    /// Cancel running executions.
    ExecutionCancel,
}

/// The whole permission universe, as a set.
pub open spec fn spec_all_permissions() -> Set<Permission> {
    Set::new(|p: Permission| true)
}

/// The permission list a sequence of permissions stands for, as a set.
pub open spec fn perms_set(ps: Seq<Permission>) -> Set<Permission> {
    Set::new(|p: Permission| ps.contains(p))
}

impl Permission {
    /// Every permission, each exactly once.
    pub fn all() -> (r: Vec<Permission>)
        ensures
            perms_set(r@) == spec_all_permissions(),
            r@.len() == 7,
            forall|a: int, b: int| 0 <= a < b < r@.len() ==> r@[a] != r@[b],
    {
        let mut out: Vec<Permission> = Vec::new();
        out.push(Permission::WorkflowRead);
        out.push(Permission::WorkflowWrite);
        out.push(Permission::WorkflowExecute);
        out.push(Permission::WorkflowDelete);
        out.push(Permission::AdminAccess);
        out.push(Permission::ExecutionRead);
        out.push(Permission::ExecutionCancel);
        proof {
            assert forall|p: Permission| spec_all_permissions().contains(p)
                implies perms_set(out@).contains(p) by {
                match p {
                    Permission::WorkflowRead => assert(out@[0] == p),
                    Permission::WorkflowWrite => assert(out@[1] == p),
                    Permission::WorkflowExecute => assert(out@[2] == p),
                    Permission::WorkflowDelete => assert(out@[3] == p),
                    Permission::AdminAccess => assert(out@[4] == p),
                    Permission::ExecutionRead => assert(out@[5] == p),
                    Permission::ExecutionCancel => assert(out@[6] == p),
                }
            }
            assert(perms_set(out@) =~= spec_all_permissions());
        }
        out
    }

    /// The permissions a starter role name stands for; empty for any
    /// other name.
    pub fn for_role(role: &str) -> (r: Vec<Permission>)
        ensures
            perms_set(r@) == spec_role_permissions(role@),
    {
        if crate::strutil::str_eq(role, "viewer") {
            let mut out: Vec<Permission> = Vec::new();
            out.push(Permission::WorkflowRead);
            out.push(Permission::ExecutionRead);
            proof {
                assert(perms_set(out@) =~= spec_role_permissions(role@)) by {
                    assert(out@[0] == Permission::WorkflowRead);
                    assert(out@[1] == Permission::ExecutionRead);
                }
            }
            out
        } else if crate::strutil::str_eq(role, "executor") {
            let mut out: Vec<Permission> = Vec::new();
            out.push(Permission::WorkflowRead);
            out.push(Permission::WorkflowExecute);
            out.push(Permission::ExecutionRead);
            proof {
                assert(perms_set(out@) =~= spec_role_permissions(role@)) by {
                    assert(out@[0] == Permission::WorkflowRead);
                    assert(out@[1] == Permission::WorkflowExecute);
                    assert(out@[2] == Permission::ExecutionRead);
                }
            }
            out
        } else if crate::strutil::str_eq(role, "developer") {
            let mut out: Vec<Permission> = Vec::new();
            out.push(Permission::WorkflowRead);
            out.push(Permission::WorkflowWrite);
            out.push(Permission::WorkflowExecute);
            out.push(Permission::ExecutionRead);
            out.push(Permission::ExecutionCancel);
            proof {
                assert(perms_set(out@) =~= spec_role_permissions(role@)) by {
                    assert(out@[0] == Permission::WorkflowRead);
                    assert(out@[1] == Permission::WorkflowWrite);
                    assert(out@[2] == Permission::WorkflowExecute);
                    assert(out@[3] == Permission::ExecutionRead);
                    assert(out@[4] == Permission::ExecutionCancel);
                }
            }
            out
        } else if crate::strutil::str_eq(role, "admin") {
            let out = Permission::all();
            proof {
                assert(perms_set(out@) =~= spec_role_permissions(role@));
            }
            out
        } else {
            let out: Vec<Permission> = Vec::new();
            proof {
                lemma_role_words_distinct();
                assert(perms_set(out@) =~= spec_role_permissions(role@));
            }
            out
        }
    }
}

/// The permission set of a starter role name: viewers read, executors
/// also execute, developers also write and cancel, admins hold everything.
pub open spec fn spec_role_permissions(role: Seq<char>) -> Set<Permission> {
    if role == "viewer"@ {
        Set::empty().insert(Permission::WorkflowRead).insert(Permission::ExecutionRead)
    } else if role == "executor"@ {
        Set::empty().insert(Permission::WorkflowRead).insert(Permission::WorkflowExecute)
            .insert(Permission::ExecutionRead)
    } else if role == "developer"@ {
        Set::empty().insert(Permission::WorkflowRead).insert(Permission::WorkflowWrite)
            .insert(Permission::WorkflowExecute).insert(Permission::ExecutionRead)
            .insert(Permission::ExecutionCancel)
    } else if role == "admin"@ {
        spec_all_permissions()
    } else {
        Set::empty()
    }
}

/// The four starter role names differ pairwise.
pub proof fn lemma_role_words_distinct()
    ensures
        "viewer"@ != "executor"@,
        "viewer"@ != "developer"@,
        "viewer"@ != "admin"@,
        "executor"@ != "developer"@,
        "executor"@ != "admin"@,
        "developer"@ != "admin"@,
{
    reveal_strlit("viewer");
    reveal_strlit("executor");
    reveal_strlit("developer");
    reveal_strlit("admin");
    assert("viewer"@.len() == 6);
    assert("executor"@.len() == 8);
    assert("developer"@.len() == 9);
    assert("admin"@.len() == 5);
}

/// How a request proved itself.
#[derive(Debug, Clone, PartialEq, Eq)]
pub enum AuthType {
    /// A bearer JWT (the token itself).
    Jwt(String),
    /// An API key (its internal id).
    ApiKey(String),
    /// No credentials: a public endpoint.
    Anonymous,
}

/// A named bundle of permissions.
#[derive(Debug, Clone)]
pub struct RolePolicy {
    /// The role's name.
    pub role: String,
    /// What the role grants.
    pub permissions: Vec<Permission>,
    /// What the role is for, in words.
    pub description: Option<String>,
}

/// The claims of an access token.
#[derive(Debug, Clone)]
pub struct Claims {
    /// Subject: the user the token speaks for.
    pub sub: String,
    /// The subject's roles.
    pub roles: Vec<String>,
    /// Expiry, seconds since the epoch.
    pub exp: u64,
    /// Issued at, seconds since the epoch.
    pub iat: u64,
    /// Who issued the token.
    pub iss: String,
    /// Token id, when one was minted.
    pub jti: Option<String>,
}

/// The model of a token's claims.
pub struct ClaimsSpec {
    pub sub: Seq<char>,
    pub roles: Seq<Seq<char>>,
    pub exp: u64,
    pub iat: u64,
    pub iss: Seq<char>,
    pub jti: Option<Seq<char>>,
}

impl View for Claims {
    type V = ClaimsSpec;

    open spec fn view(&self) -> ClaimsSpec {
        ClaimsSpec {
            sub: self.sub@,
            roles: strings_view(self.roles@),
            exp: self.exp,
            iat: self.iat,
            iss: self.iss@,
            jti: crate::audit::models::opt_view(self.jti),
        }
    }
}

/// A full API key record, as handed back once at creation: the plaintext
/// key is shown here and never stored.
#[derive(Debug, Clone)]
pub struct ApiKey {
    /// Internal identifier.
    pub id: String,
    /// The plaintext key, shown once.
    pub key: String,
    /// The SHA-256 hex digest the key is stored under.
    pub key_hash: String,
    /// The owning user.
    pub user_id: String,
    /// The key's scopes.
    pub scopes: Vec<String>,
    /// Creation instant, epoch milliseconds.
    pub created_at_ms: i64,
    /// Expiry instant, epoch milliseconds, if the key expires.
    pub expires_at_ms: Option<i64>,
    /// A name for the key, if one was given.
    pub name: Option<String>,
}

/// A stored API key record: everything but the plaintext.
#[derive(Debug, Clone)]
pub struct ApiKeyInfo {
    /// Internal identifier.
    pub id: String,
    /// The SHA-256 hex digest the key is stored under.
    pub key_hash: String,
    /// The owning user.
    pub user_id: String,
    /// The key's scopes.
    pub scopes: Vec<String>,
    /// Creation instant, epoch milliseconds.
    pub created_at_ms: i64,
    /// Expiry instant, epoch milliseconds, if the key expires.
    pub expires_at_ms: Option<i64>,
    /// A name for the key, if one was given.
    pub name: Option<String>,
    /// When the key was last used, if ever.
    pub last_used_at_ms: Option<i64>,
}

/// An authenticated request's standing: who, with which roles and
/// permissions, until when.
#[derive(Debug, Clone)]
pub struct AuthContext {
    /// The authenticated user.
    pub user_id: String,
    /// The user's roles.
    pub roles: Vec<String>,
    /// The permissions those roles grant.
    pub permissions: Vec<Permission>,
    /// How the request proved itself.
    pub auth_type: AuthType,
    /// When this authentication lapses, seconds since the epoch.
    pub expires_at: u64,
}

impl AuthContext {
    /// Whether the context holds a permission.
    pub fn has_permission(&self, permission: &Permission) -> (r: bool)
        ensures
            r == self.permissions@.contains(*permission),
    {
        let n = self.permissions.len();
        let mut i: usize = 0;
        while i < n
            invariant
                0 <= i <= n,
                n == self.permissions@.len(),
                forall|k: int| 0 <= k < i ==> self.permissions@[k] != *permission,
            decreases n - i,
        {
            if self.permissions[i] == *permission {
                assert(self.permissions@[i as int] == *permission);
                return true;
            }
            i = i + 1;
        }
        false
    }

    /// Whether the authentication has lapsed, by a clock reading in epoch
    /// seconds.
    pub fn is_expired_at(&self, now: u64) -> (r: bool)
        ensures
            r == (now > self.expires_at),
    {
        now > self.expires_at
    }

    /// Whether the authentication has lapsed, by the machine's clock.
    pub fn is_expired(&self) -> (r: bool)
    {
        let now = crate::clock::now_unix_seconds();
        if now < 0 {
            return false;
        }
        self.is_expired_at(now as u64)
    }

    /// Ok exactly when the context holds the permission; otherwise the
    /// permission is named in the error together with what is held.
    pub fn require_permission(&self, permission: &Permission) -> (r: Result<(), AuthError>)
        ensures
            r is Ok <==> self.permissions@.contains(*permission),
            r matches Err(e) ==> e is InsufficientPermissions,
    {
        if self.has_permission(permission) {
            Ok(())
        } else {
            Err(AuthError::InsufficientPermissions(*permission, clone_permissions(&self.permissions)))
        }
    }
}

/// Copies of a permission list.
pub(crate) fn clone_permissions(ps: &Vec<Permission>) -> (r: Vec<Permission>)
    ensures
        r@ == ps@,
{
    let n = ps.len();
    let mut out: Vec<Permission> = Vec::new();
    let mut i: usize = 0;
    while i < n
        invariant
            0 <= i <= n,
            n == ps@.len(),
            out@.len() == i,
            forall|k: int| 0 <= k < i ==> out@[k] == ps@[k],
        decreases n - i,
    {
        out.push(ps[i]);
        i = i + 1;
    }
    proof {
        assert(out@ =~= ps@);
    }
    out
}

/// Why authentication or authorization failed.
#[derive(Debug)]
pub enum AuthError {
    /// No credentials came with the request.
    MissingCredentials,
    /// Credentials came in a shape the scheme does not know.
    InvalidCredentials,
    /// The token's expiry lies in the past.
    TokenExpired,
    /// The token could not be decoded or validated.
    InvalidToken(String),
    /// No key with that digest is stored.
    ApiKeyNotFound,
    /// The key's expiry lies in the past.
    ApiKeyExpired,
    /// A permission was required that the context does not hold.
    InsufficientPermissions(Permission, Vec<Permission>),
    /// A role name that no policy defines.
    RoleNotFound(String),
    /// A user that is not known.
    UserNotFound(String),
    /// Anything else.
    Internal(String),
}

impl AuthError {
    /// A human-readable form of the error.
    pub fn message(&self) -> String {
        match self {
            AuthError::MissingCredentials => copy_str("missing credentials"),
            AuthError::InvalidCredentials => copy_str("invalid credentials"),
            AuthError::TokenExpired => copy_str("token expired"),
            AuthError::InvalidToken(m) => {
                let mut s = copy_str("invalid token: ");
                s.append(m.as_str());
                s
            },
            AuthError::ApiKeyNotFound => copy_str("API key not found"),
            AuthError::ApiKeyExpired => copy_str("API key expired"),
            AuthError::InsufficientPermissions(_, _) => copy_str("insufficient permissions"),
            AuthError::RoleNotFound(m) => {
                let mut s = copy_str("role not found: ");
                s.append(m.as_str());
                s
            },
            AuthError::UserNotFound(m) => {
                let mut s = copy_str("user not found: ");
                s.append(m.as_str());
                s
            },
            AuthError::Internal(m) => {
                let mut s = copy_str("internal error: ");
                s.append(m.as_str());
                s
            },
        }
    }
}

} // verus!
