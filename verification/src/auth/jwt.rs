//! JWT issuance and verification: HMAC-SHA256 access and refresh tokens.
//!
//! Signing and decoding are the jsonwebtoken crate's work, behind trusted
//! wrappers; what a token's bytes are is named, not spelled out. The
//! validation the library owns — issuer equality, expiry against a clock
//! reading, the refresh discriminator — is verified code.

use vstd::prelude::*;
use serde_json::Value as Jv;
use jsonwebtoken::{Algorithm, DecodingKey, EncodingKey, Header, Validation};
use crate::auth::models::{Claims, ClaimsSpec, AuthError, strings_view};
use crate::strutil::{str_eq, copy_str};
use crate::clock::now_unix_seconds;
use crate::ident::fresh_uuid_string;

verus! {

/// The HMAC-SHA256 token the given secret and claims sign to; the
/// jsonwebtoken crate computes it, this names the result.
pub uninterp spec fn access_token_of(secret: Seq<u8>, c: ClaimsSpec) -> Seq<char>;

/// The HMAC-SHA256 refresh token (claims: subject, expiry, issue instant,
/// issuer, token id, and the discriminator word `refresh`) the given
/// secret signs to.
pub uninterp spec fn refresh_token_of(
    secret: Seq<u8>,
    sub: Seq<char>,
    exp: u64,
    iat: u64,
    iss: Seq<char>,
    jti: Seq<char>,
) -> Seq<char>;

/// The subject claim a token decodes to under a secret: decoding is a
/// function of secret and token alone, so the subject it yields has a
/// name.
pub uninterp spec fn refresh_subject_of(secret: Seq<u8>, token: Seq<char>) -> Seq<char>;

/// Relies on jsonwebtoken's `encode` with an HS256 header over a JSON
/// object of the claims: the token is a function of secret and claims
/// alone, and HMAC signing of a JSON payload cannot fail.
#[verifier::external_body]
fn jwt_encode_access(secret: &Vec<u8>, sub: &str, roles: &Vec<String>, exp: u64, iat: u64, iss: &str, jti: &str)
    -> (r: Result<String, String>)
    ensures
        r is Ok,
        r matches Ok(t) ==> t@ == access_token_of(
            secret@,
            (ClaimsSpec {
                sub: sub@,
                roles: strings_view(roles@),
                exp,
                iat,
                iss: iss@,
                jti: Option::Some(jti@),
            }),
        ),
{
    let roles: Vec<Jv> = roles.iter().map(|x| Jv::from(x.clone())).collect();
    let mut p = serde_json::Map::new();
    p.insert("sub".into(), sub.into());
    p.insert("roles".into(), roles.into());
    p.insert("exp".into(), exp.into());
    p.insert("iat".into(), iat.into());
    p.insert("iss".into(), iss.into());
    p.insert("jti".into(), jti.into());
    jsonwebtoken::encode(&Header::new(Algorithm::HS256), &Jv::Object(p), &EncodingKey::from_secret(secret))
        .map_err(|e| e.to_string())
}

/// Relies on jsonwebtoken's `encode`, as [`jwt_encode_access`], with the
/// refresh claim set: subject, expiry, issue instant, issuer, token id,
/// and `token_type` fixed to the word `refresh`.
#[verifier::external_body]
fn jwt_encode_refresh(secret: &Vec<u8>, sub: &str, exp: u64, iat: u64, iss: &str, jti: &str)
    -> (r: Result<String, String>)
    ensures
        r is Ok,
        r matches Ok(t) ==> t@ == refresh_token_of(secret@, sub@, exp, iat, iss@, jti@),
{
    let mut p = serde_json::Map::new();
    p.insert("sub".into(), sub.into());
    p.insert("exp".into(), exp.into());
    p.insert("iat".into(), iat.into());
    p.insert("iss".into(), iss.into());
    p.insert("jti".into(), jti.into());
    p.insert("token_type".into(), "refresh".into());
    jsonwebtoken::encode(&Header::new(Algorithm::HS256), &Jv::Object(p), &EncodingKey::from_secret(secret))
        .map_err(|e| e.to_string())
}

/// Relies on jsonwebtoken's `decode` under HS256 with the issuer pinned
/// and expiry left to the caller: a token this library signed with the
/// same secret and issuer decodes back to its claims; whatever decodes at
/// all carries the pinned issuer.
#[verifier::external_body]
fn jwt_decode_access(secret: &Vec<u8>, token: &str, issuer: &str) -> (r: Option<Claims>)
    ensures
        forall|c: ClaimsSpec|
            token@ == access_token_of(secret@, c) && c.iss == issuer@
                ==> r is Some && r->0@ == c,
        r matches Some(cl) ==> cl@.iss == issuer@,
        forall|sub: Seq<char>, exp: u64, iat: u64, iss2: Seq<char>, jti: Seq<char>|
            token@ == refresh_token_of(secret@, sub, exp, iat, iss2, jti) ==> r is None,
{
    let mut v = Validation::new(Algorithm::HS256);
    v.set_issuer(&[issuer]);
    v.validate_exp = false;
    let c = jsonwebtoken::decode::<Jv>(token, &DecodingKey::from_secret(secret), &v).ok()?.claims;
    let s = |k: &str| Some(c.get(k)?.as_str()?.to_string());
    let roles: Vec<String> = serde_json::from_value(c.get("roles")?.clone()).ok()?;
    Some(Claims {
        sub: s("sub")?, roles, exp: c.get("exp")?.as_u64()?,
        iat: c.get("iat")?.as_u64()?, iss: s("iss")?, jti: s("jti"),
    })
}

/// Relies on jsonwebtoken's `decode`, as [`jwt_decode_access`]: a refresh
/// token this library signed decodes back to its subject, expiry, and the
/// discriminator word; whatever decodes at all carries the subject that
/// names the decoding; an access token (whose payload has no
/// discriminator) never decodes here.
#[verifier::external_body]
fn jwt_decode_refresh(secret: &Vec<u8>, token: &str, issuer: &str) -> (r: Option<(String, u64, String)>)
    ensures
        forall|sub: Seq<char>, exp: u64, iat: u64, jti: Seq<char>|
            token@ == refresh_token_of(secret@, sub, exp, iat, issuer@, jti)
                ==> r is Some && (r->0).0@ == sub && (r->0).1 == exp && (r->0).2@ == "refresh"@,
        r matches Some(t3) ==> t3.0@ == refresh_subject_of(secret@, token@),
        forall|c: ClaimsSpec| token@ == access_token_of(secret@, c) ==> r is None,
{
    let mut v = Validation::new(Algorithm::HS256);
    v.set_issuer(&[issuer]);
    v.validate_exp = false;
    let c = jsonwebtoken::decode::<Jv>(token, &DecodingKey::from_secret(secret), &v).ok()?.claims;
    Some((
        c.get("sub")?.as_str()?.to_string(),
        c.get("exp")?.as_u64()?,
        c.get("token_type")?.as_str()?.to_string(),
    ))
}

/// The JWT manager: one signing secret, one issuer, two lifetimes.
pub struct JwtAuth {
    secret: Vec<u8>,
    issuer: String,
    expiry_seconds: u64,
    refresh_expiry_seconds: u64,
}

impl JwtAuth {
    /// The signing secret.
    pub closed spec fn secret_view(self) -> Seq<u8> {
        self.secret@
    }

    /// The issuer written into and demanded of every token.
    pub closed spec fn issuer_view(self) -> Seq<char> {
        self.issuer@
    }

    /// Access-token lifetime, seconds.
    pub closed spec fn spec_expiry_seconds(self) -> u64 {
        self.expiry_seconds
    }

    /// Refresh-token lifetime, seconds.
    pub closed spec fn spec_refresh_expiry_seconds(self) -> u64 {
        self.refresh_expiry_seconds
    }

    /// A manager with the default issuer, a 15-minute access lifetime and
    /// a 7-day refresh lifetime.
    pub fn new(secret: Vec<u8>) -> (r: JwtAuth)
        ensures
            r.secret_view() == secret@,
            r.issuer_view() == "llm-orchestrator"@,
            r.spec_expiry_seconds() == 900,
            r.spec_refresh_expiry_seconds() == 604800,
    {
        JwtAuth {
            secret,
            issuer: copy_str("llm-orchestrator"),
            expiry_seconds: 900,
            refresh_expiry_seconds: 604800,
        }
    }

    /// A builder over the same defaults.
    pub fn builder(secret: Vec<u8>) -> (r: JwtAuthBuilder)
        ensures
            r.secret@ == secret@,
            r.issuer@ == "llm-orchestrator"@,
            r.expiry_seconds == 900,
            r.refresh_expiry_seconds == 604800,
    {
        JwtAuthBuilder {
            secret,
            issuer: copy_str("llm-orchestrator"),
            expiry_seconds: 900,
            refresh_expiry_seconds: 604800,
        }
    }

    /// Signs an access token for the given instant and token id: the
    /// claims carry the subject, the roles, an expiry one lifetime past
    /// `now`, and this manager's issuer.
    pub fn generate_token_at(&self, user_id: &str, roles: Vec<String>, now: u64, jti: String)
        -> (r: Result<String, AuthError>)
        requires
            now + self.spec_expiry_seconds() <= u64::MAX,
        ensures
            r is Ok,
            r matches Ok(t) ==> t@ == access_token_of(
                self.secret_view(),
                (ClaimsSpec {
                    sub: user_id@,
                    roles: strings_view(roles@),
                    exp: (now + self.spec_expiry_seconds()) as u64,
                    iat: now,
                    iss: self.issuer_view(),
                    jti: Option::Some(jti@),
                }),
            ),
    {
        match jwt_encode_access(
            &self.secret,
            user_id,
            &roles,
            now + self.expiry_seconds,
            now,
            self.issuer.as_str(),
            jti.as_str(),
        ) {
            Result::Ok(t) => Ok(t),
            Result::Err(m) => Err(AuthError::InvalidToken(m)),
        }
    }

    /// Signs an access token as of the machine's clock, with a fresh
    /// token id.
    pub fn generate_token(&self, user_id: &str, roles: Vec<String>) -> (r: Result<String, AuthError>)
        ensures
            r matches Ok(t) ==> exists|c: ClaimsSpec|
                #![auto]
                t@ == access_token_of(self.secret_view(), c)
                    && c.sub == user_id@
                    && c.roles == strings_view(roles@)
                    && c.iss == self.issuer_view()
                    && c.iat + self.spec_expiry_seconds() == c.exp,
    {
        let now_i = now_unix_seconds();
        let now: u64 = if now_i < 0 {
            0
        } else {
            now_i as u64
        };
        if now > u64::MAX - self.expiry_seconds {
            return Err(AuthError::Internal(copy_str("clock reading out of range")));
        }
        let jti = fresh_uuid_string();
        let ghost jti_view = jti@;
        let r = self.generate_token_at(user_id, roles, now, jti);
        proof {
            if r is Ok {
                let c = ClaimsSpec {
                    sub: user_id@,
                    roles: strings_view(roles@),
                    exp: (now + self.spec_expiry_seconds()) as u64,
                    iat: now,
                    iss: self.issuer_view(),
                    jti: Option::Some(jti_view),
                };
                assert(r->Ok_0@ == access_token_of(self.secret_view(), c));
            }
        }
        r
    }

    /// Signs a refresh token for the given instant and token id: subject,
    /// a seven-day-class expiry, this manager's issuer, and the refresh
    /// discriminator.
    pub fn generate_refresh_token_at(&self, user_id: &str, now: u64, jti: &str)
        -> (r: Result<String, AuthError>)
        requires
            now + self.spec_refresh_expiry_seconds() <= u64::MAX,
        ensures
            r is Ok,
            r matches Ok(t) ==> t@ == refresh_token_of(
                self.secret_view(),
                user_id@,
                (now + self.spec_refresh_expiry_seconds()) as u64,
                now,
                self.issuer_view(),
                jti@,
            ),
    {
        match jwt_encode_refresh(
            &self.secret,
            user_id,
            now + self.refresh_expiry_seconds,
            now,
            self.issuer.as_str(),
            jti,
        ) {
            Result::Ok(t) => Ok(t),
            Result::Err(m) => Err(AuthError::InvalidToken(m)),
        }
    }

    /// Signs a refresh token as of the machine's clock, with a fresh
    /// token id.
    pub fn generate_refresh_token(&self, user_id: &str) -> (r: Result<String, AuthError>)
        ensures
            r matches Ok(t) ==> exists|exp: u64, iat: u64, jti: Seq<char>|
                #![auto]
                t@ == refresh_token_of(
                    self.secret_view(),
                    user_id@,
                    exp,
                    iat,
                    self.issuer_view(),
                    jti,
                ),
    {
        let now_i = now_unix_seconds();
        let now: u64 = if now_i < 0 {
            0
        } else {
            now_i as u64
        };
        if now > u64::MAX - self.refresh_expiry_seconds {
            return Err(AuthError::Internal(copy_str("clock reading out of range")));
        }
        let jti = fresh_uuid_string();
        let ghost jti_view = jti@;
        let r = self.generate_refresh_token_at(user_id, now, jti.as_str());
        proof {
            if r is Ok {
                assert(r->Ok_0@ == refresh_token_of(
                    self.secret_view(),
                    user_id@,
                    (now + self.spec_refresh_expiry_seconds()) as u64,
                    now,
                    self.issuer_view(),
                    jti_view,
                ));
            }
        }
        r
    }

    /// Verifies an access token against a clock reading: a token this
    /// manager signed whose issuer matches and whose expiry has not
    /// passed comes back as its claims; one whose expiry has passed is
    /// exactly `TokenExpired`; a refresh token never verifies here;
    /// whatever comes back carries this manager's issuer and an unexpired
    /// expiry.
    pub fn verify_token_at(&self, token: &str, now: u64) -> (r: Result<Claims, AuthError>)
        ensures
            forall|c: ClaimsSpec|
                token@ == access_token_of(self.secret_view(), c)
                    && c.iss == self.issuer_view() && c.exp >= now
                    ==> r is Ok && r->Ok_0@ == c,
            forall|c: ClaimsSpec|
                token@ == access_token_of(self.secret_view(), c)
                    && c.iss == self.issuer_view() && c.exp < now
                    ==> (r matches Err(e) && e is TokenExpired),
            forall|sub: Seq<char>, exp: u64, iat: u64, iss2: Seq<char>, jti: Seq<char>|
                token@ == refresh_token_of(self.secret_view(), sub, exp, iat, iss2, jti)
                    ==> (r matches Err(e) && e is InvalidToken),
            r matches Ok(cl) ==> cl@.iss == self.issuer_view() && cl@.exp >= now,
            r matches Err(e) ==> e is TokenExpired || e is InvalidToken,
    {
        match jwt_decode_access(&self.secret, token, self.issuer.as_str()) {
            Option::Some(claims) => {
                if claims.exp < now {
                    Err(AuthError::TokenExpired)
                } else {
                    Ok(claims)
                }
            },
            Option::None => Err(AuthError::InvalidToken(copy_str(
                "token did not decode or validate",
            ))),
        }
    }

    /// Verifies an access token as of the machine's clock.
    pub fn verify_token(&self, token: &str) -> (r: Result<Claims, AuthError>)
        ensures
            r matches Ok(cl) ==> cl@.iss == self.issuer_view(),
            forall|sub: Seq<char>, exp: u64, iat: u64, iss2: Seq<char>, jti: Seq<char>|
                token@ == refresh_token_of(self.secret_view(), sub, exp, iat, iss2, jti)
                    ==> (r matches Err(e) && e is InvalidToken),
            r matches Err(e) ==> e is TokenExpired || e is InvalidToken,
    {
        let now_i = now_unix_seconds();
        let now: u64 = if now_i < 0 {
            0
        } else {
            now_i as u64
        };
        self.verify_token_at(token, now)
    }

    /// Verifies a refresh token against a clock reading and returns its
    /// subject: the discriminator must read `refresh` and the expiry must
    /// not have passed. A refresh token this manager signed whose expiry
    /// has passed is exactly `TokenExpired`; an access token is never
    /// accepted; whatever is accepted is the subject its token decodes to.
    pub fn verify_refresh_token_at(&self, token: &str, now: u64) -> (r: Result<String, AuthError>)
        ensures
            forall|sub: Seq<char>, exp: u64, iat: u64, jti: Seq<char>|
                token@ == refresh_token_of(self.secret_view(), sub, exp, iat, self.issuer_view(), jti)
                    && exp >= now
                    ==> r is Ok && r->Ok_0@ == sub,
            forall|sub: Seq<char>, exp: u64, iat: u64, jti: Seq<char>|
                token@ == refresh_token_of(self.secret_view(), sub, exp, iat, self.issuer_view(), jti)
                    && exp < now
                    ==> (r matches Err(e) && e is TokenExpired),
            forall|c: ClaimsSpec|
                token@ == access_token_of(self.secret_view(), c)
                    ==> (r matches Err(e) && e is InvalidToken),
            r matches Ok(s) ==> s@ == refresh_subject_of(self.secret_view(), token@),
            r matches Err(e) ==> e is TokenExpired || e is InvalidToken,
    {
        match jwt_decode_refresh(&self.secret, token, self.issuer.as_str()) {
            Option::Some((sub, exp, token_type)) => {
                if exp < now {
                    return Err(AuthError::TokenExpired);
                }
                if !str_eq(token_type.as_str(), "refresh") {
                    return Err(AuthError::InvalidToken(copy_str("not a refresh token")));
                }
                Ok(sub)
            },
            Option::None => Err(AuthError::InvalidToken(copy_str(
                "token did not decode or validate",
            ))),
        }
    }

    /// Verifies a refresh token as of the machine's clock.
    pub fn verify_refresh_token(&self, token: &str) -> (r: Result<String, AuthError>)
        ensures
            r matches Ok(s) ==> s@ == refresh_subject_of(self.secret_view(), token@),
            forall|c: ClaimsSpec|
                token@ == access_token_of(self.secret_view(), c)
                    ==> (r matches Err(e) && e is InvalidToken),
            r matches Err(e) ==> e is TokenExpired || e is InvalidToken,
    {
        let now_i = now_unix_seconds();
        let now: u64 = if now_i < 0 {
            0
        } else {
            now_i as u64
        };
        self.verify_refresh_token_at(token, now)
    }

    /// Trades a refresh token for a fresh access token: the new token
    /// speaks for the refresh token's subject and carries the roles given
    /// now and this manager's issuer.
    pub fn refresh_access_token(&self, refresh_token: &str, roles: Vec<String>)
        -> (r: Result<String, AuthError>)
        ensures
            r matches Ok(t) ==> exists|c: ClaimsSpec|
                #![auto]
                t@ == access_token_of(self.secret_view(), c)
                    && c.sub == refresh_subject_of(self.secret_view(), refresh_token@)
                    && c.roles == strings_view(roles@)
                    && c.iss == self.issuer_view(),
    {
        let user_id = match self.verify_refresh_token(refresh_token) {
            Result::Ok(sub) => sub,
            Result::Err(e) => {
                return Err(e);
            },
        };
        let r = self.generate_token(user_id.as_str(), roles);
        r
    }
}

/// Step-by-step construction of a [`JwtAuth`].
pub struct JwtAuthBuilder {
    /// The signing secret.
    pub secret: Vec<u8>,
    /// The issuer written into every token.
    pub issuer: String,
    /// Access-token lifetime, seconds.
    pub expiry_seconds: u64,
    /// Refresh-token lifetime, seconds.
    pub refresh_expiry_seconds: u64,
}

impl JwtAuthBuilder {
    /// Replaces the issuer.
    pub fn issuer(self, issuer: String) -> (r: JwtAuthBuilder)
        ensures
            r == (JwtAuthBuilder { issuer, ..self }),
    {
        JwtAuthBuilder { issuer, ..self }
    }

    /// Replaces the access-token lifetime.
    pub fn expiry_seconds(self, seconds: u64) -> (r: JwtAuthBuilder)
        ensures
            r == (JwtAuthBuilder { expiry_seconds: seconds, ..self }),
    {
        JwtAuthBuilder { expiry_seconds: seconds, ..self }
    }

    /// Replaces the refresh-token lifetime.
    pub fn refresh_expiry_seconds(self, seconds: u64) -> (r: JwtAuthBuilder)
        ensures
            r == (JwtAuthBuilder { refresh_expiry_seconds: seconds, ..self }),
    {
        JwtAuthBuilder { refresh_expiry_seconds: seconds, ..self }
    }

    /// The manager the builder describes.
    pub fn build(self) -> (r: JwtAuth)
        ensures
            r.secret_view() == self.secret@,
            r.issuer_view() == self.issuer@,
            r.spec_expiry_seconds() == self.expiry_seconds,
            r.spec_refresh_expiry_seconds() == self.refresh_expiry_seconds,
    {
        JwtAuth {
            secret: self.secret,
            issuer: self.issuer,
            expiry_seconds: self.expiry_seconds,
            refresh_expiry_seconds: self.refresh_expiry_seconds,
        }
    }
}

} // verus!
