//! API keys: issuance, digest-keyed lookup, revocation.
//!
//! A key's plaintext is 48 random alphanumerics behind the fixed prefix;
//! it is handed back once and never stored. The store keeps the SHA-256
//! hex digest, and lookup goes by the digest of the plaintext presented.

use vstd::prelude::*;
use crate::auth::models::{ApiKey, ApiKeyInfo, AuthError, clone_strings};
use crate::hashing::{sha256_hex, sha256_hex_of};
use crate::ident::{fresh_uuid_string, random_alphanumeric_48};
use crate::clock::now_unix_millis;
use crate::strutil::{str_eq, copy_str};

verus! {

/// The fixed plaintext prefix of every issued key.
pub open spec fn spec_key_prefix() -> Seq<char> {
    "llm_orch_"@
}

/// The model of a stored key record.
pub struct ApiKeyInfoSpec {
    pub id: Seq<char>,
    pub key_hash: Seq<char>,
    pub user_id: Seq<char>,
    pub scopes: Seq<Seq<char>>,
    pub created_at_ms: int,
    pub expires_at_ms: Option<int>,
    pub name: Option<Seq<char>>,
    pub last_used_at_ms: Option<int>,
}

/// The view of an optional timestamp.
pub open spec fn opt_ms_view(o: Option<i64>) -> Option<int> {
    match o {
        Option::Some(v) => Option::Some(v as int),
        Option::None => Option::None,
    }
}

impl View for ApiKeyInfo {
    type V = ApiKeyInfoSpec;

    open spec fn view(&self) -> ApiKeyInfoSpec {
        ApiKeyInfoSpec {
            id: self.id@,
            key_hash: self.key_hash@,
            user_id: self.user_id@,
            scopes: crate::auth::models::strings_view(self.scopes@),
            created_at_ms: self.created_at_ms as int,
            expires_at_ms: opt_ms_view(self.expires_at_ms),
            name: crate::audit::models::opt_view(self.name),
            last_used_at_ms: opt_ms_view(self.last_used_at_ms),
        }
    }
}

/// The stored record a freshly created key stands for: the same fields,
/// never used yet.
pub open spec fn spec_info_of(k: ApiKey) -> ApiKeyInfoSpec {
    ApiKeyInfoSpec {
        id: k.id@,
        key_hash: k.key_hash@,
        user_id: k.user_id@,
        scopes: crate::auth::models::strings_view(k.scopes@),
        created_at_ms: k.created_at_ms as int,
        expires_at_ms: opt_ms_view(k.expires_at_ms),
        name: crate::audit::models::opt_view(k.name),
        last_used_at_ms: Option::None,
    }
}

/// A record list with one internal id spliced out.
pub open spec fn spec_without_key_id(s: Seq<ApiKeyInfoSpec>, id: Seq<char>) -> Seq<ApiKeyInfoSpec>
    decreases s.len(),
{
    if s.len() == 0 {
        Seq::empty()
    } else {
        let rest = spec_without_key_id(s.drop_last(), id);
        if s.last().id == id {
            rest
        } else {
            rest.push(s.last())
        }
    }
}

/// Splicing an id out deletes exactly the records of that id: every kept
/// record is one of the originals, in order, and every record of another
/// id is kept.
pub proof fn lemma_without_key_id_exact(s: Seq<ApiKeyInfoSpec>, id: Seq<char>)
    ensures
        forall|k: int| 0 <= k < spec_without_key_id(s, id).len()
            ==> (#[trigger] spec_without_key_id(s, id)[k]).id != id,
        forall|k: int| 0 <= k < spec_without_key_id(s, id).len()
            ==> s.contains(#[trigger] spec_without_key_id(s, id)[k]),
        forall|j: int| 0 <= j < s.len() && (#[trigger] s[j]).id != id
            ==> spec_without_key_id(s, id).contains(s[j]),
    decreases s.len(),
{
    if s.len() > 0 {
        lemma_without_key_id_exact(s.drop_last(), id);
        let rest = spec_without_key_id(s.drop_last(), id);
        assert forall|k: int| 0 <= k < spec_without_key_id(s, id).len()
            implies s.contains(#[trigger] spec_without_key_id(s, id)[k]) by {
            if s.last().id != id && k == spec_without_key_id(s, id).len() - 1 {
                assert(spec_without_key_id(s, id)[k] == s[s.len() - 1]);
            } else {
                assert(spec_without_key_id(s, id)[k] == rest[k]);
                let j = choose|j: int|
                    0 <= j < s.drop_last().len() && s.drop_last()[j] == rest[k];
                assert(s[j] == rest[k]);
            }
        }
        assert forall|j: int| 0 <= j < s.len() && (#[trigger] s[j]).id != id
            implies spec_without_key_id(s, id).contains(s[j]) by {
            if j == s.len() - 1 {
                assert(spec_without_key_id(s, id)[rest.len() as int] == s[j]);
            } else {
                assert(s.drop_last()[j] == s[j]);
                let k = choose|k: int| 0 <= k < rest.len() && rest[k] == s[j];
                if s.last().id == id {
                    assert(spec_without_key_id(s, id)[k] == s[j]);
                } else {
                    assert(spec_without_key_id(s, id)[k] == s[j]);
                }
            }
        }
    }
}

/// The records belonging to one user, in stored order.
pub open spec fn spec_keys_of_user(s: Seq<ApiKeyInfoSpec>, user: Seq<char>) -> Seq<ApiKeyInfoSpec>
    decreases s.len(),
{
    if s.len() == 0 {
        Seq::empty()
    } else {
        let rest = spec_keys_of_user(s.drop_last(), user);
        if s.last().user_id == user {
            rest.push(s.last())
        } else {
            rest
        }
    }
}

/// The capability API keys are stored through.
pub trait ApiKeyStore: Sized {
    /// The stored records, oldest first.
    spec fn view(&self) -> Seq<ApiKeyInfoSpec>;

    /// Stores the record of a freshly created key.
    fn create_key(&mut self, key: &ApiKey) -> (r: Result<(), AuthError>)
        ensures
            r is Ok ==> final(self).view() == old(self).view().push(spec_info_of(*key)),
            r is Err ==> final(self).view() == old(self).view(),
    ;

    /// The record stored under a digest, if any.
    fn lookup_key(&self, key_hash: &str) -> (r: Result<Option<ApiKeyInfo>, AuthError>)
        ensures
            match r {
                Result::Ok(o) => match o {
                    Option::Some(info) => info@.key_hash == key_hash@
                        && exists|k: int|
                            0 <= k < self.view().len() && #[trigger] self.view()[k] == info@,
                    Option::None => forall|k: int|
                        0 <= k < self.view().len()
                            ==> (#[trigger] self.view()[k]).key_hash != key_hash@,
                },
                Result::Err(_) => true,
            },
    ;

    /// Deletes the record with the given internal id.
    fn revoke_key(&mut self, key_id: &str) -> (r: Result<(), AuthError>)
        ensures
            r is Ok ==> final(self).view() == spec_without_key_id(old(self).view(), key_id@),
            r is Err ==> final(self).view() == old(self).view(),
    ;

    /// The records belonging to a user.
    fn list_keys(&self, user_id: &str) -> (r: Result<Vec<ApiKeyInfo>, AuthError>)
        ensures
            r matches Ok(v) ==> v@.map_values(|i: ApiKeyInfo| i@)
                == spec_keys_of_user(self.view(), user_id@),
    ;

    /// Marks the record with the given id as used now.
    fn update_last_used(&mut self, key_id: &str) -> (r: Result<(), AuthError>)
        ensures
            r is Ok ==> exists|t: int|
                final(self).view() == spec_touch(old(self).view(), key_id@, t),
            r is Err ==> final(self).view() == old(self).view(),
    ;
}

/// The expiry instant a creation instant and a day count stand for: the
/// days (clamped to a sane window) in milliseconds past `now`, saturating
/// at the epoch type's top.
pub open spec fn spec_expiry_ms(now: int, days: int) -> int {
    let bounded = if days < 0 {
        0int
    } else if days > 1000000 {
        1000000int
    } else {
        days
    };
    let window = bounded * 86400000;
    if now <= i64::MAX - window {
        now + window
    } else {
        i64::MAX as int
    }
}

/// The record list with every record of the given id stamped as used at
/// `t`.
pub open spec fn spec_touch(s: Seq<ApiKeyInfoSpec>, id: Seq<char>, t: int) -> Seq<ApiKeyInfoSpec> {
    s.map_values(|info: ApiKeyInfoSpec| if info.id == id {
        ApiKeyInfoSpec { last_used_at_ms: Option::Some(t), ..info }
    } else {
        info
    })
}

/// The in-memory store: a growable list of records.
pub struct InMemoryApiKeyStore {
    /// The stored records, oldest first.
    pub keys: Vec<ApiKeyInfo>,
}

impl InMemoryApiKeyStore {
    /// An empty store.
    pub fn new() -> (r: InMemoryApiKeyStore)
        ensures
            r.view() == Seq::<ApiKeyInfoSpec>::empty(),
    {
        let r = InMemoryApiKeyStore { keys: Vec::new() };
        proof {
            assert(r.view() =~= Seq::<ApiKeyInfoSpec>::empty());
        }
        r
    }
}

impl ApiKeyStore for InMemoryApiKeyStore {
    open spec fn view(&self) -> Seq<ApiKeyInfoSpec> {
        self.keys@.map_values(|i: ApiKeyInfo| i@)
    }

    fn create_key(&mut self, key: &ApiKey) -> (r: Result<(), AuthError>) {
        let ghost v0 = self.view();
        let info = ApiKeyInfo {
            id: key.id.clone(),
            key_hash: key.key_hash.clone(),
            user_id: key.user_id.clone(),
            scopes: clone_strings(&key.scopes),
            created_at_ms: key.created_at_ms,
            expires_at_ms: key.expires_at_ms,
            name: crate::audit::models::clone_opt_string(&key.name),
            last_used_at_ms: None,
        };
        proof {
            assert(crate::auth::models::strings_view(info.scopes@)
                =~= crate::auth::models::strings_view(key.scopes@));
            assert(info@ == spec_info_of(*key));
        }
        self.keys.push(info);
        proof {
            assert(self.view() =~= v0.push(spec_info_of(*key)));
        }
        Ok(())
    }

    fn lookup_key(&self, key_hash: &str) -> (r: Result<Option<ApiKeyInfo>, AuthError>) {
        let n = self.keys.len();
        let mut i: usize = 0;
        while i < n
            invariant
                0 <= i <= n,
                n == self.keys@.len(),
                forall|k: int| 0 <= k < i ==> (#[trigger] self.keys@[k]@).key_hash != key_hash@,
            decreases n - i,
        {
            if str_eq(self.keys[i].key_hash.as_str(), key_hash) {
                let info = self.keys[i].clone_info();
                proof {
                    assert(self.view()[i as int] == info@);
                }
                return Ok(Some(info));
            }
            i = i + 1;
        }
        proof {
            assert forall|k: int| 0 <= k < self.view().len()
                implies (#[trigger] self.view()[k]).key_hash != key_hash@ by {
                assert(self.view()[k] == self.keys@[k]@);
            }
        }
        Ok(None)
    }

    fn revoke_key(&mut self, key_id: &str) -> (r: Result<(), AuthError>) {
        let ghost v0 = self.view();
        let n = self.keys.len();
        let mut out: Vec<ApiKeyInfo> = Vec::new();
        let mut i: usize = 0;
        while i < n
            invariant
                0 <= i <= n,
                n == self.keys@.len(),
                v0 == self.view(),
                v0.len() == n,
                forall|k: int| 0 <= k < n ==> #[trigger] v0[k] == self.keys@[k]@,
                out@.map_values(|x: ApiKeyInfo| x@)
                    =~= spec_without_key_id(v0.take(i as int), key_id@),
            decreases n - i,
        {
            let ghost o0 = out@.map_values(|x: ApiKeyInfo| x@);
            if !str_eq(self.keys[i].id.as_str(), key_id) {
                out.push(self.keys[i].clone_info());
            }
            proof {
                assert(v0.take(i as int + 1).drop_last() =~= v0.take(i as int));
                assert(v0.take(i as int + 1).last() == v0[i as int]);
                if v0[i as int].id == key_id@ {
                    assert(out@.map_values(|x: ApiKeyInfo| x@) =~= o0);
                } else {
                    assert(out@.map_values(|x: ApiKeyInfo| x@) =~= o0.push(self.keys@[i as int]@));
                }
            }
            i = i + 1;
        }
        proof {
            assert(v0.take(n as int) =~= v0);
        }
        self.keys = out;
        Ok(())
    }

    fn list_keys(&self, user_id: &str) -> (r: Result<Vec<ApiKeyInfo>, AuthError>) {
        let ghost v0 = self.view();
        let n = self.keys.len();
        let mut out: Vec<ApiKeyInfo> = Vec::new();
        let mut i: usize = 0;
        while i < n
            invariant
                0 <= i <= n,
                n == self.keys@.len(),
                v0 == self.view(),
                v0.len() == n,
                forall|k: int| 0 <= k < n ==> #[trigger] v0[k] == self.keys@[k]@,
                out@.map_values(|x: ApiKeyInfo| x@)
                    =~= spec_keys_of_user(v0.take(i as int), user_id@),
            decreases n - i,
        {
            let ghost o0 = out@.map_values(|x: ApiKeyInfo| x@);
            if str_eq(self.keys[i].user_id.as_str(), user_id) {
                out.push(self.keys[i].clone_info());
            }
            proof {
                assert(v0.take(i as int + 1).drop_last() =~= v0.take(i as int));
                assert(v0.take(i as int + 1).last() == v0[i as int]);
                if v0[i as int].user_id == user_id@ {
                    assert(out@.map_values(|x: ApiKeyInfo| x@) =~= o0.push(self.keys@[i as int]@));
                } else {
                    assert(out@.map_values(|x: ApiKeyInfo| x@) =~= o0);
                }
            }
            i = i + 1;
        }
        proof {
            assert(v0.take(n as int) =~= v0);
        }
        Ok(out)
    }

    fn update_last_used(&mut self, key_id: &str) -> (r: Result<(), AuthError>) {
        let ghost v0 = self.view();
        let now = now_unix_millis();
        let n = self.keys.len();
        let mut i: usize = 0;
        while i < n
            invariant
                0 <= i <= n,
                n == self.keys@.len(),
                v0.len() == n,
                forall|k: int| 0 <= k < n ==> #[trigger] v0[k] == old(self).keys@[k]@,
                self.keys@.len() == n,
                forall|k: int| i <= k < n ==> #[trigger] self.keys@[k]@ == v0[k],
                forall|k: int| 0 <= k < i ==> #[trigger] self.keys@[k]@
                    == (if v0[k].id == key_id@ {
                        ApiKeyInfoSpec { last_used_at_ms: Option::Some(now as int), ..v0[k] }
                    } else {
                        v0[k]
                    }),
            decreases n - i,
        {
            if str_eq(self.keys[i].id.as_str(), key_id) {
                let mut entry = self.keys[i].clone_info();
                entry.last_used_at_ms = Some(now);
                self.keys.set(i, entry);
            }
            i = i + 1;
        }
        proof {
            assert(self.view() =~= spec_touch(v0, key_id@, now as int));
        }
        Ok(())
    }
}

impl ApiKeyInfo {
    /// A copy with the same model.
    pub fn clone_info(&self) -> (r: ApiKeyInfo)
        ensures
            r@ == self@,
    {
        let r = ApiKeyInfo {
            id: self.id.clone(),
            key_hash: self.key_hash.clone(),
            user_id: self.user_id.clone(),
            scopes: clone_strings(&self.scopes),
            created_at_ms: self.created_at_ms,
            expires_at_ms: self.expires_at_ms,
            name: crate::audit::models::clone_opt_string(&self.name),
            last_used_at_ms: self.last_used_at_ms,
        };
        proof {
            assert(crate::auth::models::strings_view(r.scopes@)
                =~= crate::auth::models::strings_view(self.scopes@));
        }
        r
    }
}

/// Issues, looks up and revokes API keys over a store.
pub struct ApiKeyManager<S: ApiKeyStore> {
    store: S,
}

impl<S: ApiKeyStore> ApiKeyManager<S> {
    /// The stored records.
    pub closed spec fn store_view(self) -> Seq<ApiKeyInfoSpec> {
        self.store.view()
    }

    /// A manager over a store.
    pub fn new(store: S) -> (r: ApiKeyManager<S>)
        ensures
            r.store_view() == store.view(),
    {
        ApiKeyManager { store }
    }

    /// Issues a key: 48 random alphanumerics behind the fixed prefix,
    /// stored under the plaintext's SHA-256 hex digest. The plaintext
    /// comes back once, here.
    pub fn create_key(
        &mut self,
        user_id: &str,
        scopes: Vec<String>,
        name: Option<String>,
        expires_in_days: Option<i64>,
    ) -> (r: Result<ApiKey, AuthError>)
        ensures
            r matches Ok(k) ==> {
                &&& k.key@.len() == spec_key_prefix().len() + 48
                &&& k.key@.take(spec_key_prefix().len() as int) == spec_key_prefix()
                &&& k.key_hash@ == sha256_hex_of(k.key@)
                &&& k.id@.len() == 36
                &&& k.user_id@ == user_id@
                &&& crate::auth::models::strings_view(k.scopes@)
                    == crate::auth::models::strings_view(scopes@)
                &&& crate::audit::models::opt_view(k.name) == crate::audit::models::opt_view(name)
                &&& (k.expires_at_ms is Some <==> expires_in_days is Some)
                &&& (expires_in_days matches Some(days) ==> k.expires_at_ms matches Some(t)
                    && t == spec_expiry_ms(k.created_at_ms as int, days as int))
                &&& final(self).store_view() == old(self).store_view().push(spec_info_of(k))
            },
            r is Err ==> final(self).store_view() == old(self).store_view(),
    {
        let raw = random_alphanumeric_48();
        let mut key_plain = copy_str("llm_orch_");
        proof {
            reveal_strlit("llm_orch_");
        }
        key_plain.append(raw.as_str());
        proof {
            assert(key_plain@.take(spec_key_prefix().len() as int) =~= spec_key_prefix());
        }
        let key_hash = sha256_hex(key_plain.as_str());
        let now = now_unix_millis();
        let expires_at_ms: Option<i64> = match expires_in_days {
            Option::Some(days) => {
                let bounded: i64 = if days < 0 {
                    0
                } else if days > 1000000 {
                    1000000
                } else {
                    days
                };
                let window = bounded * 86400000;
                if now <= i64::MAX - window {
                    Some(now + window)
                } else {
                    Some(i64::MAX)
                }
            },
            Option::None => None,
        };
        let api_key = ApiKey {
            id: fresh_uuid_string(),
            key: key_plain,
            key_hash,
            user_id: copy_str(user_id),
            scopes,
            created_at_ms: now,
            expires_at_ms,
            name,
        };
        match self.store.create_key(&api_key) {
            Result::Ok(_) => Ok(api_key),
            Result::Err(e) => Err(e),
        }
    }

    /// Looks a plaintext key up by its digest against a clock reading:
    /// found and unexpired keys come back (stamped as used), a missing
    /// digest is `ApiKeyNotFound`, a passed expiry is `ApiKeyExpired`.
    pub fn lookup_key_at(&mut self, key: &str, now_ms: i64) -> (r: Result<ApiKeyInfo, AuthError>)
        ensures
            r matches Ok(info) ==> info@.key_hash == sha256_hex_of(key@)
                && info@.last_used_at_ms == Option::<int>::Some(now_ms as int)
                && (match info@.expires_at_ms {
                    Option::Some(t) => t >= now_ms,
                    Option::None => true,
                })
                && (exists|t: int| final(self).store_view()
                    == spec_touch(old(self).store_view(), info@.id, t)),
            r matches Err(e) ==> (e is ApiKeyNotFound || e is ApiKeyExpired || e is Internal),
            r matches Err(e) && e is ApiKeyNotFound ==> forall|k: int|
                0 <= k < old(self).store_view().len()
                    ==> (#[trigger] old(self).store_view()[k]).key_hash != sha256_hex_of(key@),
            r matches Err(e) && e is ApiKeyExpired ==> exists|k: int|
                0 <= k < old(self).store_view().len()
                    && (#[trigger] old(self).store_view()[k]).key_hash == sha256_hex_of(key@)
                    && (old(self).store_view()[k].expires_at_ms matches Some(t) && t < now_ms),
            (forall|k: int| 0 <= k < old(self).store_view().len()
                ==> (#[trigger] old(self).store_view()[k]).key_hash != sha256_hex_of(key@))
                ==> (r matches Err(e) && (e is ApiKeyNotFound || e is Internal)),
    {
        let key_hash = sha256_hex(key);
        let found = match self.store.lookup_key(key_hash.as_str()) {
            Result::Ok(o) => o,
            Result::Err(e) => {
                return Err(AuthError::Internal(e.message()));
            },
        };
        let info = match found {
            Option::Some(info) => info,
            Option::None => {
                return Err(AuthError::ApiKeyNotFound);
            },
        };
        match info.expires_at_ms {
            Option::Some(t) => {
                if t < now_ms {
                    return Err(AuthError::ApiKeyExpired);
                }
            },
            Option::None => {},
        }
        let ghost id0 = info.id@;
        match self.store.update_last_used(info.id.as_str()) {
            Result::Ok(_) => {},
            Result::Err(e) => {
                return Err(AuthError::Internal(e.message()));
            },
        }
        proof {
            let t = choose|t: int|
                self.store.view() == spec_touch(old(self).store_view(), id0, t);
            assert(self.store.view() == spec_touch(old(self).store_view(), id0, t));
        }
        let mut info = info;
        info.last_used_at_ms = Some(now_ms);
        proof {
            assert(info@.id == id0);
        }
        Ok(info)
    }

    /// Looks a plaintext key up as of the machine's clock.
    pub fn lookup_key(&mut self, key: &str) -> (r: Result<ApiKeyInfo, AuthError>)
        ensures
            r matches Ok(info) ==> info@.key_hash == sha256_hex_of(key@),
            r matches Err(e) ==> (e is ApiKeyNotFound || e is ApiKeyExpired || e is Internal),
            r matches Err(e) && e is ApiKeyNotFound ==> forall|k: int|
                0 <= k < old(self).store_view().len()
                    ==> (#[trigger] old(self).store_view()[k]).key_hash != sha256_hex_of(key@),
            (forall|k: int| 0 <= k < old(self).store_view().len()
                ==> (#[trigger] old(self).store_view()[k]).key_hash != sha256_hex_of(key@))
                ==> (r matches Err(e) && (e is ApiKeyNotFound || e is Internal)),
    {
        let now = now_unix_millis();
        self.lookup_key_at(key, now)
    }

    /// Deletes the key with the given internal id; later lookups of its
    /// plaintext fail with `ApiKeyNotFound`.
    pub fn revoke_key(&mut self, key_id: &str) -> (r: Result<(), AuthError>)
        ensures
            r is Ok ==> final(self).store_view()
                == spec_without_key_id(old(self).store_view(), key_id@),
            r is Err ==> final(self).store_view() == old(self).store_view(),
    {
        self.store.revoke_key(key_id)
    }

    /// The stored records belonging to a user.
    pub fn list_keys(&self, user_id: &str) -> (r: Result<Vec<ApiKeyInfo>, AuthError>)
        ensures
            r matches Ok(v) ==> v@.map_values(|i: ApiKeyInfo| i@)
                == spec_keys_of_user(self.store_view(), user_id@),
    {
        self.store.list_keys(user_id)
    }
}

} // verus!
