//! The authentication service: registration, credential login and
//! refresh rotation, joining the credential store, the password
//! hasher, the token issuer and the refresh-session store. Unknown
//! usernames and wrong passwords fail with one and the same error,
//! so login cannot probe for registered names.

use crate::models::RefreshToken;
use crate::passwords::{argon2_accepts, hash_password, verify_password};
use crate::repository::{username_taken, StoreError, UserRepository};
use crate::session::{token_live, token_revoked, RefreshTokenStore};
use crate::text::trim_spec;
use crate::token::{create_token, jwt_claims, new_opaque_token, ACCESS_TOKEN_TTL_SECS};
use vstd::prelude::*;

verus! {

/// Request body for registration: the chosen username and the
/// plaintext password, hashed before storage.
#[derive(Debug)]
pub struct RegisterRequest {
    pub username: String,
    pub password: String,
}

/// Request body for login.
#[derive(Debug)]
pub struct LoginRequest {
    pub username: String,
    pub password: String,
}

/// A successful authentication: the stateless access token, the
/// opaque single-use refresh token, and the access token's lifetime
/// in seconds.
#[derive(Debug)]
pub struct AuthTokenResponse {
    pub access_token: String,
    pub refresh_token: String,
    pub expires_in: u64,
}

/// The authenticated-user record the service works with.
#[derive(Debug)]
pub struct AuthUser {
    pub id: u32,
    pub username: String,
    pub password_hash: String,
}

/// Why an authentication operation failed. `InvalidCredentials`
/// covers an unknown username and a wrong password alike.
#[derive(Debug, PartialEq, Eq, Structural)]
pub enum AuthError {
    EmptyUsername,
    WeakPassword,
    UsernameTaken,
    InvalidCredentials,
    InvalidRefreshToken,
    HashingFailed,
    VerificationFailed,
    StoreFailure,
}

/// The store backing the authentication service: user records and
/// refresh-session rows, the in-memory form of the transactional
/// store the deployed system runs on.
pub struct AuthUserRepository {
    pub users: UserRepository,
    pub tokens: RefreshTokenStore,
}

impl AuthUserRepository {
    pub open spec fn wf(&self) -> bool {
        self.users.wf() && self.tokens.wf()
    }

    pub fn new() -> (r: AuthUserRepository)
        ensures
            r.wf(),
            r.users@ == Seq::<crate::models::User>::empty(),
            r.tokens@ == Seq::<RefreshToken>::empty(),
    {
        AuthUserRepository { users: UserRepository::new(), tokens: RefreshTokenStore::new() }
    }

    /// Looks a user up by username, yielding a copy of the record.
    pub fn find_by_username(&self, username: &str) -> (r: Option<AuthUser>)
        ensures
            match r {
                Some(u) => u.username@ == username@ && exists|i: int|
                    0 <= i < self.users@.len() && self.users@[i].id == u.id
                        && self.users@[i].username@ == u.username@ && self.users@[i].password_hash@
                        == u.password_hash@,
                None => !username_taken(self.users@, username@),
            },
    {
        match self.users.find_by_username(username) {
            Some(u) => Some(
                AuthUser {
                    id: u.id,
                    username: u.username.clone(),
                    password_hash: u.password_hash.clone(),
                },
            ),
            None => None,
        }
    }

    /// Creates a user, the store assigning the id and enforcing
    /// username uniqueness.
    pub fn create(&mut self, username: String, password_hash: String) -> (r: Result<
        AuthUser,
        StoreError,
    >)
        requires
            old(self).wf(),
        ensures
            final(self).wf(),
            final(self).tokens@ == old(self).tokens@,
            match r {
                Ok(u) => {
                    &&& u.username@ == username@
                    &&& u.password_hash@ == password_hash@
                    &&& !username_taken(old(self).users@, username@)
                    &&& final(self).users@.len() == old(self).users@.len() + 1
                    &&& final(self).users@.drop_last() == old(self).users@
                    &&& final(self).users@.last().id == u.id
                    &&& final(self).users@.last().username@ == username@
                    &&& final(self).users@.last().password_hash@ == password_hash@
                    &&& username_taken(final(self).users@, username@)
                },
                Err(e) => final(self).users@ == old(self).users@ && match e {
                    StoreError::DuplicateKey => username_taken(old(self).users@, username@),
                    StoreError::IdSpaceExhausted => !username_taken(old(self).users@, username@),
                },
            },
    {
        let uname = username.clone();
        let phash = password_hash.clone();
        match self.users.insert_new(username, password_hash) {
            Ok(id) => {
                proof {
                    assert(self.users@[self.users@.len() - 1].username@ == uname@);
                }
                Ok(AuthUser { id, username: uname, password_hash: phash })
            },
            Err(e) => Err(e),
        }
    }

    /// Marks every live refresh token of the user revoked.
    pub fn revoke_all_refresh_tokens_for_user(&mut self, user_id: u32, now: u64)
        requires
            old(self).wf(),
        ensures
            final(self).wf(),
            final(self).users@ == old(self).users@,
            final(self).tokens@.len() == old(self).tokens@.len(),
            forall|i: int|
                0 <= i < final(self).tokens@.len() && final(self).tokens@[i].user_id == user_id
                    ==> final(self).tokens@[i].revoked_at is Some,
            forall|t: Seq<char>|
                token_revoked(old(self).tokens@, t) ==> token_revoked(final(self).tokens@, t),
    {
        self.tokens.revoke_all_for_user(user_id, now);
    }

    /// Stores a fresh live refresh token for the user.
    pub fn insert_refresh_token(&mut self, user_id: u32, token: &str, now: u64) -> (r: Result<
        (),
        crate::session::TokenStoreError,
    >)
        requires
            old(self).wf(),
        ensures
            final(self).wf(),
            final(self).users@ == old(self).users@,
            r is Ok <==> !crate::session::token_present(old(self).tokens@, token@),
            r is Ok ==> token_live(final(self).tokens@, token@) && (forall|i: int|
                0 <= i < old(self).tokens@.len() ==> final(self).tokens@[i] == old(self).tokens@[i]) && final(self).tokens@.len() == old(self).tokens@.len() + 1 && final(self).tokens@.last().user_id == user_id && final(self).tokens@.last().revoked_at is None,
            r is Err ==> final(self).tokens@ == old(self).tokens@,
            forall|t: Seq<char>|
                token_revoked(old(self).tokens@, t) ==> token_revoked(final(self).tokens@, t),
    {
        let r = self.tokens.insert(token.to_owned(), user_id, now);
        proof {
            if r is Ok {
                assert(self.tokens@[self.tokens@.len() - 1].token@ == token@);
                assert forall|i: int|
                    0 <= i < old(self).tokens@.len() implies self.tokens@[i] == old(self).tokens@[i] by {
                    assert(self.tokens@.drop_last()[i] == self.tokens@[i]);
                }
            }
        }
        match r {
            Ok(()) => Ok(()),
            Err(e) => Err(e),
        }
    }

    /// The atomic rotation: revoke-iff-still-live and insert of the
    /// successor, in one step against the store.
    pub fn rotate_refresh_token(&mut self, old_token: &str, new_token: &str, now: u64) -> (r:
        Result<Option<u32>, crate::session::TokenStoreError>)
        requires
            old(self).wf(),
        ensures
            final(self).wf(),
            final(self).users@ == old(self).users@,
            (r matches Ok(Some(_))) <==> crate::session::rotation_grants(
                old(self).tokens@,
                old_token@,
                new_token@,
            ),
            r == Ok::<Option<u32>, crate::session::TokenStoreError>(None) <==> !token_live(
                old(self).tokens@,
                old_token@,
            ),
            r matches Ok(Some(uid)) ==> {
                &&& exists|i: int|
                    0 <= i < old(self).tokens@.len() && old(self).tokens@[i].token@ == old_token@
                        && old(self).tokens@[i].revoked_at is None && old(self).tokens@[i].user_id == uid
                &&& !token_live(final(self).tokens@, old_token@)
                &&& token_revoked(final(self).tokens@, old_token@)
                &&& token_live(final(self).tokens@, new_token@)
                &&& forall|i: int|
                    0 <= i < old(self).tokens@.len() && old(self).tokens@[i].token@ == old_token@
                        ==> final(self).tokens@[i].revoked_at == Some(now) && (final(self).tokens@[i].replaced_by matches Some(nt) && nt@ == new_token@)
                &&& final(self).tokens@.last().token@ == new_token@
                &&& final(self).tokens@.last().user_id == uid
                &&& final(self).tokens@.last().revoked_at is None
            },
            !(r matches Ok(Some(_))) ==> final(self).tokens@ == old(self).tokens@,
            forall|t: Seq<char>|
                token_revoked(old(self).tokens@, t) ==> token_revoked(final(self).tokens@, t),
    {
        let r = self.tokens.rotate(old_token, new_token.to_owned(), now);
        proof {
            if r matches Ok(Some(uid)) {
                assert(self.tokens@.last().token@ == new_token@);
            }
        }
        r
    }
}

pub const EXPIRES_IN: u64 = 3600;

/// The session-issuing authentication service. The signing secret is
/// configuration handed in at construction, never generated here.
pub struct SimpleAuthService {
    pub repo: AuthUserRepository,
    pub secret: Vec<u8>,
}

impl SimpleAuthService {
    pub open spec fn wf(&self) -> bool {
        self.repo.wf()
    }

    /// The process-wide signing secret.
    pub open spec fn secret_view(&self) -> Seq<u8> {
        self.secret@
    }

    pub fn new(repo: AuthUserRepository, secret: Vec<u8>) -> (r: SimpleAuthService)
        ensures
            r.repo.users@ == repo.users@,
            r.repo.tokens@ == repo.tokens@,
            r.secret_view() == secret@,
            repo.wf() ==> r.wf(),
    {
        SimpleAuthService { repo, secret }
    }

    /// Issues the access/refresh pair for a user: first revokes all
    /// of the user's live refresh tokens (one active session lineage
    /// per user), then stores one fresh live refresh token, with a
    /// newly signed access token beside it.
    fn issue_tokens(&mut self, user_id: u32, now: u64) -> (r: Result<AuthTokenResponse, AuthError>)
        requires
            old(self).wf(),
            now <= u64::MAX - ACCESS_TOKEN_TTL_SECS,
        ensures
            final(self).wf(),
            final(self).secret_view() == old(self).secret_view(),
            final(self).repo.users@ == old(self).repo.users@,
            r matches Ok(resp) ==> {
                &&& resp.expires_in == EXPIRES_IN
                &&& (jwt_claims(resp.access_token@, old(self).secret_view()) matches Some(c)
                    && c.0 == user_id && c.1 == now && c.2 == now + ACCESS_TOKEN_TTL_SECS)
                &&& resp.access_token@.len() > 0
                &&& resp.refresh_token@.len() == 36
                &&& token_live(final(self).repo.tokens@, resp.refresh_token@)
                &&& final(self).repo.tokens@.last().token@ == resp.refresh_token@
                &&& final(self).repo.tokens@.last().user_id == user_id
                &&& forall|i: int|
                    0 <= i < final(self).repo.tokens@.len() && final(self).repo.tokens@[i].user_id == user_id && final(self).repo.tokens@[i].revoked_at is None ==> final(self).repo.tokens@[i].token@
                        == resp.refresh_token@
            },
            r is Err ==> r == Err::<AuthTokenResponse, AuthError>(AuthError::StoreFailure),
            forall|t: Seq<char>|
                token_revoked(old(self).repo.tokens@, t) ==> token_revoked(
                    final(self).repo.tokens@,
                    t,
                ),
    {
        // Token creation cannot fail: the encoder's contract owes success.
        let access_token = create_token(user_id, now, self.secret.as_slice()).unwrap();
        let refresh_token = new_opaque_token();
        self.repo.revoke_all_refresh_tokens_for_user(user_id, now);
        match self.repo.insert_refresh_token(user_id, refresh_token.as_str(), now) {
            Ok(()) => {},
            Err(_) => {
                return Err(AuthError::StoreFailure);
            },
        }
        proof {
            assert forall|i: int|
                0 <= i < self.repo.tokens@.len() && self.repo.tokens@[i].user_id == user_id
                    && self.repo.tokens@[i].revoked_at is None implies self.repo.tokens@[i].token@
                == refresh_token@ by {
                if i < self.repo.tokens@.len() - 1 {
                    assert(self.repo.tokens@[i].revoked_at is Some);
                }
            }
        }
        Ok(AuthTokenResponse { access_token, refresh_token, expires_in: EXPIRES_IN })
    }

    /// Registration: validates the username and password, refuses a
    /// taken name with a conflict that never overwrites the existing
    /// record, stores the salted hash, and issues the first session.
    pub fn register(&mut self, req: RegisterRequest, now: u64) -> (r: Result<
        AuthTokenResponse,
        AuthError,
    >)
        requires
            old(self).wf(),
            now <= u64::MAX - ACCESS_TOKEN_TTL_SECS,
        ensures
            final(self).wf(),
            final(self).secret_view() == old(self).secret_view(),
            r == Err::<AuthTokenResponse, AuthError>(AuthError::EmptyUsername) <==> trim_spec(
                req.username@,
            ).len() == 0,
            trim_spec(req.username@).len() != 0 ==> (r == Err::<AuthTokenResponse, AuthError>(
                AuthError::WeakPassword,
            ) <==> req.password@.len() < 8),
            (trim_spec(req.username@).len() != 0 && req.password@.len() >= 8) ==> (r == Err::<
                AuthTokenResponse,
                AuthError,
            >(AuthError::UsernameTaken) <==> username_taken(old(self).repo.users@, req.username@)),
            (r == Err::<AuthTokenResponse, AuthError>(AuthError::EmptyUsername) || r == Err::<
                AuthTokenResponse,
                AuthError,
            >(AuthError::WeakPassword) || r == Err::<AuthTokenResponse, AuthError>(
                AuthError::UsernameTaken,
            ) || r == Err::<AuthTokenResponse, AuthError>(AuthError::HashingFailed)) ==> final(self).repo.users@ == old(self).repo.users@ && final(self).repo.tokens@ == old(self).repo.tokens@,
            old(self).repo.users@.is_prefix_of(final(self).repo.users@),
            r matches Ok(resp) ==> {
                &&& trim_spec(req.username@).len() != 0
                &&& req.password@.len() >= 8
                &&& !username_taken(old(self).repo.users@, req.username@)
                &&& final(self).repo.users@.len() == old(self).repo.users@.len() + 1
                &&& final(self).repo.users@.drop_last() == old(self).repo.users@
                &&& final(self).repo.users@.last().username@ == req.username@
                &&& argon2_accepts(req.password@, final(self).repo.users@.last().password_hash@)
                &&& crate::passwords::argon2_parses(final(self).repo.users@.last().password_hash@)
                &&& username_taken(final(self).repo.users@, req.username@)
                &&& resp.expires_in == EXPIRES_IN
                &&& resp.access_token@.len() > 0
                &&& resp.refresh_token@.len() == 36
                &&& (jwt_claims(resp.access_token@, old(self).secret_view()) matches Some(c)
                    && c.0 == final(self).repo.users@.last().id && c.1 == now && c.2 == now
                    + ACCESS_TOKEN_TTL_SECS)
                &&& token_live(final(self).repo.tokens@, resp.refresh_token@)
            },
            forall|t: Seq<char>|
                token_revoked(old(self).repo.tokens@, t) ==> token_revoked(
                    final(self).repo.tokens@,
                    t,
                ),
            (trim_spec(req.username@).len() != 0 && req.password@.len() >= 8 && !username_taken(
                old(self).repo.users@,
                req.username@,
            )) ==> (r is Ok || r == Err::<AuthTokenResponse, AuthError>(AuthError::HashingFailed)
                || r == Err::<AuthTokenResponse, AuthError>(AuthError::StoreFailure)),
            (trim_spec(req.username@).len() != 0 && req.password@.len() >= 8
                && req.password@.len() < 0x40000000 && !username_taken(
                old(self).repo.users@,
                req.username@,
            )) ==> (r is Ok || r == Err::<AuthTokenResponse, AuthError>(AuthError::StoreFailure)),
    {
        if crate::text::is_blank(req.username.as_str()) {
            return Err(AuthError::EmptyUsername);
        }
        if req.password.as_str().unicode_len() < 8 {
            return Err(AuthError::WeakPassword);
        }
        if self.repo.find_by_username(req.username.as_str()).is_some() {
            return Err(AuthError::UsernameTaken);
        }
        let password_hash = match hash_password(req.password.as_str()) {
            Ok(h) => h,
            Err(_) => {
                return Err(AuthError::HashingFailed);
            },
        };
        let user = match self.repo.create(req.username, password_hash) {
            Ok(u) => u,
            Err(_) => {
                return Err(AuthError::StoreFailure);
            },
        };
        self.issue_tokens(user.id, now)
    }

    /// Login: one and the same `InvalidCredentials` answers an
    /// unknown username and a wrong password, so the endpoint cannot
    /// be used to enumerate accounts. A correct credential pair is
    /// never answered with `InvalidCredentials`.
    pub fn login(&mut self, req: LoginRequest, now: u64) -> (r: Result<
        AuthTokenResponse,
        AuthError,
    >)
        requires
            old(self).wf(),
            now <= u64::MAX - ACCESS_TOKEN_TTL_SECS,
        ensures
            final(self).wf(),
            final(self).secret_view() == old(self).secret_view(),
            final(self).repo.users@ == old(self).repo.users@,
            !username_taken(old(self).repo.users@, req.username@) ==> r == Err::<
                AuthTokenResponse,
                AuthError,
            >(AuthError::InvalidCredentials),
            r == Err::<AuthTokenResponse, AuthError>(AuthError::InvalidCredentials)
                ==> !username_taken(old(self).repo.users@, req.username@) || (exists|i: int|
                0 <= i < old(self).repo.users@.len() && old(self).repo.users@[i].username@
                    == req.username@ && !argon2_accepts(
                    req.password@,
                    old(self).repo.users@[i].password_hash@,
                )),
            (exists|i: int|
                0 <= i < old(self).repo.users@.len() && old(self).repo.users@[i].username@
                    == req.username@ && argon2_accepts(
                    req.password@,
                    old(self).repo.users@[i].password_hash@,
                )) ==> r != Err::<AuthTokenResponse, AuthError>(AuthError::InvalidCredentials),
            (exists|i: int|
                0 <= i < old(self).repo.users@.len() && old(self).repo.users@[i].username@
                    == req.username@ && crate::passwords::argon2_parses(
                    old(self).repo.users@[i].password_hash@,
                ) && !argon2_accepts(req.password@, old(self).repo.users@[i].password_hash@))
                ==> r == Err::<AuthTokenResponse, AuthError>(AuthError::InvalidCredentials),
            r == Err::<AuthTokenResponse, AuthError>(AuthError::VerificationFailed)
                <==> (exists|i: int|
                0 <= i < old(self).repo.users@.len() && old(self).repo.users@[i].username@
                    == req.username@ && !crate::passwords::argon2_parses(
                    old(self).repo.users@[i].password_hash@,
                )),
            (exists|i: int|
                0 <= i < old(self).repo.users@.len() && old(self).repo.users@[i].username@
                    == req.username@ && crate::passwords::argon2_parses(
                    old(self).repo.users@[i].password_hash@,
                ) && argon2_accepts(req.password@, old(self).repo.users@[i].password_hash@)) ==> (
            r is Ok || r == Err::<AuthTokenResponse, AuthError>(AuthError::StoreFailure)),
            r matches Ok(resp) ==> {
                &&& exists|i: int|
                    0 <= i < old(self).repo.users@.len() && old(self).repo.users@[i].username@
                        == req.username@ && argon2_accepts(
                        req.password@,
                        old(self).repo.users@[i].password_hash@,
                    ) && (jwt_claims(resp.access_token@, old(self).secret_view()) matches Some(c)
                        && c.0 == old(self).repo.users@[i].id && c.1 == now && c.2 == now
                        + ACCESS_TOKEN_TTL_SECS)
                &&& resp.expires_in == EXPIRES_IN
                &&& resp.access_token@.len() > 0
                &&& resp.refresh_token@.len() == 36
                &&& token_live(final(self).repo.tokens@, resp.refresh_token@)
            },
            forall|t: Seq<char>|
                token_revoked(old(self).repo.tokens@, t) ==> token_revoked(
                    final(self).repo.tokens@,
                    t,
                ),
    {
        let user = match self.repo.find_by_username(req.username.as_str()) {
            Some(u) => u,
            None => {
                return Err(AuthError::InvalidCredentials);
            },
        };
        let ghost users = self.repo.users@;
        proof {
            let i = choose|i: int|
                0 <= i < users.len() && users[i].id == user.id && users[i].username@
                    == user.username@ && users[i].password_hash@ == user.password_hash@;
            lemma_username_unique_record(users, req.username@);
            assert forall|j: int|
                0 <= j < users.len() && users[j].username@ == req.username@ implies users[j].id
                == user.id && users[j].password_hash@ == user.password_hash@ by {
                assert(j == i);
            }
        }
        let valid = match verify_password(req.password.as_str(), user.password_hash.as_str()) {
            Ok(b) => b,
            Err(_) => {
                proof {
                    let i = choose|i: int|
                        0 <= i < users.len() && users[i].id == user.id && users[i].username@
                            == user.username@ && users[i].password_hash@ == user.password_hash@;
                    assert(users[i].username@ == req.username@
                        && !crate::passwords::argon2_parses(users[i].password_hash@));
                }
                return Err(AuthError::VerificationFailed);
            },
        };
        if !valid {
            proof {
                assert forall|j: int|
                    0 <= j < users.len() && users[j].username@ == req.username@
                    implies !argon2_accepts(req.password@, users[j].password_hash@) by {}
                let i = choose|i: int|
                    0 <= i < users.len() && users[i].id == user.id && users[i].username@
                        == user.username@ && users[i].password_hash@ == user.password_hash@;
                assert(users[i].username@ == req.username@ && !argon2_accepts(
                    req.password@,
                    users[i].password_hash@,
                ));
            }
            return Err(AuthError::InvalidCredentials);
        }
        self.issue_tokens(user.id, now)
    }

    /// Refresh rotation: a live token is exchanged, in one atomic
    /// store step, for a fresh pair; the old token is revoked by
    /// that same step and can never rotate again. An unknown or
    /// already-rotated token is refused — reuse detection.
    pub fn refresh(&mut self, refresh_token: String, now: u64) -> (r: Result<
        AuthTokenResponse,
        AuthError,
    >)
        requires
            old(self).wf(),
            now <= u64::MAX - ACCESS_TOKEN_TTL_SECS,
        ensures
            final(self).wf(),
            final(self).secret_view() == old(self).secret_view(),
            final(self).repo.users@ == old(self).repo.users@,
            r == Err::<AuthTokenResponse, AuthError>(AuthError::InvalidRefreshToken)
                <==> !token_live(old(self).repo.tokens@, refresh_token@),
            r == Err::<AuthTokenResponse, AuthError>(AuthError::InvalidRefreshToken) ==> final(self).repo.tokens@ == old(self).repo.tokens@,
            r == Err::<AuthTokenResponse, AuthError>(AuthError::StoreFailure) ==> final(self).repo.tokens@ == old(self).repo.tokens@ && token_live(
                old(self).repo.tokens@,
                refresh_token@,
            ),
            token_live(old(self).repo.tokens@, refresh_token@) ==> (r is Ok || r == Err::<
                AuthTokenResponse,
                AuthError,
            >(AuthError::StoreFailure)),
            r matches Ok(resp) ==> {
                &&& token_live(old(self).repo.tokens@, refresh_token@)
                &&& !token_live(final(self).repo.tokens@, refresh_token@)
                &&& token_revoked(final(self).repo.tokens@, refresh_token@)
                &&& token_live(final(self).repo.tokens@, resp.refresh_token@)
                &&& resp.expires_in == EXPIRES_IN
                &&& resp.access_token@.len() > 0
                &&& resp.refresh_token@.len() == 36
                &&& forall|i: int|
                    0 <= i < old(self).repo.tokens@.len() && old(self).repo.tokens@[i].token@
                        == refresh_token@ ==> final(self).repo.tokens@[i].revoked_at == Some(now)
                        && (final(self).repo.tokens@[i].replaced_by matches Some(nt) && nt@
                        == resp.refresh_token@)
                &&& final(self).repo.tokens@.last().token@ == resp.refresh_token@
                &&& final(self).repo.tokens@.last().revoked_at is None
                &&& exists|i: int|
                    0 <= i < old(self).repo.tokens@.len() && old(self).repo.tokens@[i].token@
                        == refresh_token@ && old(self).repo.tokens@[i].revoked_at is None && final(self).repo.tokens@.last().user_id == old(self).repo.tokens@[i].user_id && (
                    jwt_claims(resp.access_token@, old(self).secret_view()) matches Some(c) && c.0
                        == old(self).repo.tokens@[i].user_id && c.1 == now && c.2 == now
                        + ACCESS_TOKEN_TTL_SECS)
            },
            forall|t: Seq<char>|
                token_revoked(old(self).repo.tokens@, t) ==> token_revoked(
                    final(self).repo.tokens@,
                    t,
                ),
    {
        let new_refresh = new_opaque_token();
        let uid = match self.repo.rotate_refresh_token(
            refresh_token.as_str(),
            new_refresh.as_str(),
            now,
        ) {
            Ok(Some(uid)) => uid,
            Ok(None) => {
                return Err(AuthError::InvalidRefreshToken);
            },
            Err(_) => {
                return Err(AuthError::StoreFailure);
            },
        };
        // Token creation cannot fail: the encoder's contract owes success.
        let access_token = create_token(uid, now, self.secret.as_slice()).unwrap();
        Ok(AuthTokenResponse {
            access_token,
            refresh_token: new_refresh,
            expires_in: EXPIRES_IN,
        })
    }
}

impl SimpleAuthService {
    /// Logout: revokes every live refresh token of the user. Already
    /// issued access tokens are untouched; they simply expire.
    pub fn logout(&mut self, user_id: u32, now: u64)
        requires
            old(self).wf(),
        ensures
            final(self).wf(),
            final(self).secret_view() == old(self).secret_view(),
            final(self).repo.users@ == old(self).repo.users@,
            forall|i: int|
                0 <= i < final(self).repo.tokens@.len() && final(self).repo.tokens@[i].user_id
                    == user_id ==> final(self).repo.tokens@[i].revoked_at is Some,
            forall|t: Seq<char>|
                token_revoked(old(self).repo.tokens@, t) ==> token_revoked(
                    final(self).repo.tokens@,
                    t,
                ),
    {
        self.repo.revoke_all_refresh_tokens_for_user(user_id, now);
    }
}

/// With unique usernames, every record carrying a given username is
/// the same record.
proof fn lemma_username_unique_record(s: Seq<crate::models::User>, name: Seq<char>)
    requires
        crate::repository::unique_usernames(s),
    ensures
        forall|i: int, j: int|
            (0 <= i < s.len() && 0 <= j < s.len() && s[i].username@ == name && s[j].username@
                == name) ==> i == j,
{
    assert forall|i: int, j: int|
        (0 <= i < s.len() && 0 <= j < s.len() && s[i].username@ == name && s[j].username@ == name)
        implies i == j by {
        if i < j {
            assert(s[i].username@ != s[j].username@);
        } else if j < i {
            assert(s[j].username@ != s[i].username@);
        }
    }
}

/// A registered username is never lost: the credential store only
/// ever appends records, so once a name is on the books every later
/// state still holds it, and a second registration under it keeps
/// failing with the same conflict.
pub proof fn lemma_username_stays_taken(pre: Seq<crate::models::User>, post: Seq<crate::models::User>, name: Seq<char>)
    requires
        username_taken(pre, name),
        pre.is_prefix_of(post),
    ensures
        username_taken(post, name),
{
    let i = choose|i: int| 0 <= i < pre.len() && pre[i].username@ == name;
    assert(post[i] == pre[i]);
}

/// The authentication interface the HTTP layer programs against:
/// one in-memory implementation lives here; a store-backed one can
/// stand in for it outside the verified core.
pub trait AuthService {
    spec fn inv(&self) -> bool;

    fn register(&mut self, req: RegisterRequest, now: u64) -> (r: Result<
        AuthTokenResponse,
        AuthError,
    >)
        requires
            old(self).inv(),
            now <= u64::MAX - 3600,
        ensures
            final(self).inv(),
    ;

    fn login(&mut self, req: LoginRequest, now: u64) -> (r: Result<AuthTokenResponse, AuthError>)
        requires
            old(self).inv(),
            now <= u64::MAX - 3600,
        ensures
            final(self).inv(),
    ;

    fn refresh(&mut self, refresh_token: String, now: u64) -> (r: Result<
        AuthTokenResponse,
        AuthError,
    >)
        requires
            old(self).inv(),
            now <= u64::MAX - 3600,
        ensures
            final(self).inv(),
    ;
}

impl AuthService for SimpleAuthService {
    open spec fn inv(&self) -> bool {
        self.wf()
    }

    fn register(&mut self, req: RegisterRequest, now: u64) -> Result<AuthTokenResponse, AuthError> {
        SimpleAuthService::register(self, req, now)
    }

    fn login(&mut self, req: LoginRequest, now: u64) -> Result<AuthTokenResponse, AuthError> {
        SimpleAuthService::login(self, req, now)
    }

    fn refresh(&mut self, refresh_token: String, now: u64) -> Result<AuthTokenResponse, AuthError> {
        SimpleAuthService::refresh(self, refresh_token, now)
    }
}

/// Response of the identity endpoint.
#[derive(Debug)]
pub struct MeResponse {
    pub user_id: u32,
}

/// Response of the liveness endpoint.
#[derive(Debug)]
pub struct HealthResponse {
    pub status: &'static str,
    pub message: &'static str,
}

} // verus!
