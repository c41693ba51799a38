//! The login orchestration state machine and the RPC-facing mappings.
//!
//! One login runs the machine fresh from `Received`: the request is
//! validated, a pooled connection is acquired, the credential row is fetched
//! and judged, the connection is released, and on success an access and a
//! refresh token are minted together. The binary performs each named action
//! — acquiring, querying, releasing, responding — and feeds the next event
//! back; every decision in between is made here. No state survives a
//! request, and the client-visible outcome of every credential failure is
//! one and the same.

use vstd::prelude::*;
use vstd::utf8::encode_utf8;
use crate::claims::{spec_sat_add_i64, sat_add_i64, ClaimsView, JwtClaimsBuilder, JwtType};
use crate::clock::now_timestamp;
use crate::codec::{
    claims_fit, enc_token, encode_token, spec_decode, lemma_token_round_trip, SigningKey,
};
use crate::credentials::{verify_credential, StoredCredential, UserIdentity};
use crate::error::{CredentialError, HeimdallrError, LoginRejection, TokenError};

verus! {

/// The boundary request: what the client presented.
pub struct LoginRequest {
    /// The login name.
    pub username: String,
    /// The secret presented for it, in the stored material's form.
    pub secret: String,
}

/// The boundary response: both tokens or neither, with their expiries.
pub struct LoginResponse {
    /// The short-lived access token.
    pub access_token: Vec<u8>,
    /// When the access token expires.
    pub access_expires_at: i64,
    /// The long-lived refresh token.
    pub refresh_token: Vec<u8>,
    /// When the refresh token expires.
    pub refresh_expires_at: i64,
}

/// What a finished login produced.
pub enum LoginOutcome {
    Success(LoginResponse),
    Rejected(LoginRejection),
}

/// What the orchestrator needs to mint tokens: the signing key and the two
/// lifetimes, in seconds.
pub struct AuthConfig {
    /// Key material, read-only for the process lifetime.
    pub key: SigningKey,
    /// Lifetime of an access token, short.
    pub access_lifetime: i64,
    /// Lifetime of a refresh token, long.
    pub refresh_lifetime: i64,
}

/// The states of one login.
pub enum LoginState {
    /// The request arrived and is not yet validated.
    Received,
    /// Credentials are being checked against the store.
    CredentialCheck,
    /// The credentials held; the identity is fixed.
    Authenticated(UserIdentity),
    /// The login failed; the classification is fixed.
    Rejected(LoginRejection),
    /// Tokens are being minted for the identity.
    TokenIssuance(UserIdentity),
    /// Terminal: the outcome to answer with.
    Completed(LoginOutcome),
}

/// What the binary reports back to the machine.
pub enum LoginEvent {
    /// The request should be taken up.
    Start,
    /// Whether a pooled connection was obtained within the wait bound.
    Connection(bool),
    /// The credential row the lookup returned, if any.
    Credential(Option<StoredCredential>),
    /// The previous action is done; move on.
    Proceed,
}

/// What the binary must do next.
#[derive(PartialEq, Eq, Structural, Clone, Copy, Debug)]
pub enum LoginAction {
    /// Lease a connection from the pool, waiting up to the configured bound.
    AcquireConnection,
    /// Look the request's username up over the leased connection.
    FetchCredential,
    /// Return the leased connection to the pool.
    ReleaseConnection,
    /// Nothing outside is needed; feed `Proceed` back in.
    Advance,
    /// Terminal: answer the client with the completed outcome.
    Respond,
}

/// The claim set of one minted token: the verified user as subject, a fresh
/// token identifier, validity from `now` for `lifetime` seconds.
pub open spec fn issued_claims(user: Seq<char>, token_id: Seq<char>, now: i64, lifetime: i64)
    -> ClaimsView {
    ClaimsView {
        exp: spec_sat_add_i64(now as int, lifetime as int),
        nbf: now,
        iat: now,
        iss: None,
        sub: Some(user),
        aud: None,
        jti: Some(token_id),
        extra: Seq::empty(),
    }
}

/// Both tokens of a response are the encodings of [`issued_claims`] for one
/// user at one time, under their kinds, with the matching expiries.
#[verifier::opaque]
pub open spec fn minted_pair(
    resp: LoginResponse,
    user: Seq<char>,
    key: Seq<u8>,
    access_lifetime: i64,
    refresh_lifetime: i64,
    now: i64,
    access_id: Seq<char>,
    refresh_id: Seq<char>,
) -> bool {
    &&& resp.access_token@ == enc_token(
        issued_claims(user, access_id, now, access_lifetime),
        JwtType::AccessToken,
        key,
    )
    &&& resp.refresh_token@ == enc_token(
        issued_claims(user, refresh_id, now, refresh_lifetime),
        JwtType::RefreshToken,
        key,
    )
    &&& resp.access_expires_at == spec_sat_add_i64(now as int, access_lifetime as int)
    &&& resp.refresh_expires_at == spec_sat_add_i64(now as int, refresh_lifetime as int)
}

/// Builds and signs one token deterministically from its inputs.
fn mint_one(
    user: &UserIdentity,
    token_id: String,
    now: i64,
    lifetime: i64,
    kind: JwtType,
    key: &SigningKey,
) -> (r: Result<Vec<u8>, HeimdallrError>)
    ensures
        r is Ok <==> now < spec_sat_add_i64(now as int, lifetime as int),
        r matches Ok(t) ==> t@ == enc_token(
            issued_claims(user.user_id@, token_id@, now, lifetime),
            kind,
            key@,
        ),
{
    let exp = sat_add_i64(now, lifetime);
    let builder = JwtClaimsBuilder::new()
        .subject(user.user_id.clone())
        .token_id(token_id)
        .not_before(now)
        .issued_at(now)
        .expires(exp);
    match builder.build() {
        Err(e) => Err(e),
        Ok(c) => {
            proof {
                assert(c@ =~= issued_claims(user.user_id@, token_id@, now, lifetime));
            }
            Ok(encode_token(&c, kind, key))
        },
    }
}

/// Mints the access and the refresh token together: either both sign, or
/// nothing is returned at all. With a well-formed configuration this fails
/// only when the clock reading already sits at the end of the timestamp
/// range, where an expiry strictly later than `now` no longer exists.
pub fn mint_token_pair(
    user: &UserIdentity,
    config: &AuthConfig,
    now: i64,
    access_id: String,
    refresh_id: String,
) -> (r: Result<LoginResponse, HeimdallrError>)
    ensures
        r is Ok <==> (now < spec_sat_add_i64(now as int, config.access_lifetime as int) && now
            < spec_sat_add_i64(now as int, config.refresh_lifetime as int)),
        r matches Ok(resp) ==> minted_pair(
            resp,
            user.user_id@,
            config.key@,
            config.access_lifetime,
            config.refresh_lifetime,
            now,
            access_id@,
            refresh_id@,
        ),
{
    let access_expires_at = sat_add_i64(now, config.access_lifetime);
    let refresh_expires_at = sat_add_i64(now, config.refresh_lifetime);
    let access_token = match mint_one(
        user,
        access_id,
        now,
        config.access_lifetime,
        JwtType::AccessToken,
        &config.key,
    ) {
        Err(e) => {
            return Err(e);
        },
        Ok(t) => t,
    };
    let refresh_token = match mint_one(
        user,
        refresh_id,
        now,
        config.refresh_lifetime,
        JwtType::RefreshToken,
        &config.key,
    ) {
        Err(e) => {
            return Err(e);
        },
        Ok(t) => t,
    };
    let resp = LoginResponse { access_token, access_expires_at, refresh_token, refresh_expires_at };
    proof {
        reveal(minted_pair);
    }
    Ok(resp)
}

/// Relies on uuid::Uuid::new_v4 and its display form: a fresh random
/// identifier written as 36 hyphenated lower-case hex characters. Only the
/// length is assumed; uniqueness is statistical and nothing here rests on it.
#[verifier::external_body]
fn new_token_id() -> (r: String)
    ensures
        r@.len() == 36,
{
    uuid::Uuid::new_v4().to_string()
}

/// Every credential failure — unknown name, wrong secret, unavailable
/// account — becomes the one client-visible rejection.
pub open spec fn spec_credential_rejection(e: CredentialError) -> LoginRejection {
    LoginRejection::InvalidCredentials
}

/// Maps a credential failure to the login rejection a client may see.
pub fn credential_rejection(e: CredentialError) -> (r: LoginRejection)
    ensures
        r == spec_credential_rejection(e),
{
    match e {
        CredentialError::NotFound => LoginRejection::InvalidCredentials,
        CredentialError::Mismatch => LoginRejection::InvalidCredentials,
        CredentialError::AccountUnavailable => LoginRejection::InvalidCredentials,
    }
}

/// The completed state token issuance may end in: a response whose tokens
/// are a [`minted_pair`] for the user at some clock reading and fresh
/// identifiers, or the internal-error rejection.
/// The response's tokens are a [`minted_pair`] for the user at some clock
/// reading and some fresh identifiers.
pub open spec fn some_minted_response(
    resp: LoginResponse,
    u: UserIdentity,
    config: AuthConfig,
) -> bool {
    exists|now: i64, aid: Seq<char>, rid: Seq<char>|
        #[trigger] minted_pair(
            resp,
            u.user_id@,
            config.key@,
            config.access_lifetime,
            config.refresh_lifetime,
            now,
            aid,
            rid,
        )
}

pub open spec fn issuance_result(r0: LoginState, u: UserIdentity, config: AuthConfig) -> bool {
    match r0 {
        LoginState::Completed(LoginOutcome::Success(resp)) => some_minted_response(
            resp,
            u,
            config,
        ),
        LoginState::Completed(LoginOutcome::Rejected(rej)) => rej
            == LoginRejection::InternalError,
        _ => false,
    }
}

/// Mints the token pair for an authenticated user: the clock is read once,
/// two fresh identifiers are drawn, and the outcome is terminal either way.
fn issue_tokens(u: UserIdentity, config: &AuthConfig) -> (r: (LoginState, LoginAction))
    ensures
        r.1 == LoginAction::Respond,
        issuance_result(r.0, u, *config),
{
    let now = now_timestamp();
    let access_id = new_token_id();
    let refresh_id = new_token_id();
    let ghost aidv = access_id@;
    let ghost ridv = refresh_id@;
    match mint_token_pair(&u, config, now, access_id, refresh_id) {
        Ok(resp) => {
            let ghost respv = resp;
            let r = (LoginState::Completed(LoginOutcome::Success(resp)), LoginAction::Respond);
            proof {
                assert(minted_pair(
                    respv,
                    u.user_id@,
                    config.key@,
                    config.access_lifetime,
                    config.refresh_lifetime,
                    now,
                    aidv,
                    ridv,
                ));
                assert(some_minted_response(respv, u, *config));
                assert(issuance_result(r.0, u, *config));
            }
            r
        },
        Err(_) => (
            LoginState::Completed(LoginOutcome::Rejected(LoginRejection::InternalError)),
            LoginAction::Respond,
        ),
    }
}

/// Drives one login forward: the next state, and what the binary must do.
/// Every transition is fixed by the state and the event; only token minting
/// draws on the clock and fresh identifiers, and what it may produce is
/// pinned by [`minted_pair`]. A pairing not listed changes nothing.
#[verifier::rlimit(60)]
#[verifier::spinoff_prover]
pub fn login_step(
    state: LoginState,
    event: LoginEvent,
    request: &LoginRequest,
    config: &AuthConfig,
) -> (r: (LoginState, LoginAction))
    ensures
        state is Received && event is Start ==> if request.username@.len() == 0
            || request.secret@.len() == 0 {
            r == (
                LoginState::Rejected(LoginRejection::InvalidRequest),
                LoginAction::Advance,
            )
        } else {
            r == (LoginState::CredentialCheck, LoginAction::AcquireConnection)
        },
        event matches LoginEvent::Connection(got) ==> (state is CredentialCheck ==> if got {
            r == (LoginState::CredentialCheck, LoginAction::FetchCredential)
        } else {
            r == (LoginState::Rejected(LoginRejection::PoolTimeout), LoginAction::Advance)
        }),
        event matches LoginEvent::Credential(row) ==> (state is CredentialCheck ==> {
            &&& r.1 == LoginAction::ReleaseConnection
            &&& match row {
                None => r.0 == LoginState::Rejected(LoginRejection::InvalidCredentials),
                Some(c) => {
                    if c.disabled || c.locked || c.secret_hash@ != encode_utf8(request.secret@) {
                        r.0 == LoginState::Rejected(LoginRejection::InvalidCredentials)
                    } else {
                        r.0 matches LoginState::Authenticated(u) && u.user_id@ == c.user_id@
                            && u.username@ == c.username@
                    }
                },
            }
        }),
        state matches LoginState::Authenticated(u) ==> (event is Proceed ==> r == (
            LoginState::TokenIssuance(u),
            LoginAction::Advance,
        )),
        state matches LoginState::TokenIssuance(u) ==> (event is Proceed ==> r.1
            == LoginAction::Respond && issuance_result(r.0, u, *config)),
        state matches LoginState::Rejected(rej) ==> (event is Proceed ==> r == (
            LoginState::Completed(LoginOutcome::Rejected(rej)),
            LoginAction::Respond,
        )),
        state matches LoginState::Completed(o) ==> r == (
            LoginState::Completed(o),
            LoginAction::Respond,
        ),
        state is Received ==> (!(event is Start) ==> r == (
            LoginState::Received,
            LoginAction::Advance,
        )),
        state is CredentialCheck ==> ((event is Start || event is Proceed) ==> r == (
            LoginState::CredentialCheck,
            LoginAction::Advance,
        )),
        state matches LoginState::Authenticated(u) ==> (!(event is Proceed) ==> r == (
            LoginState::Authenticated(u),
            LoginAction::Advance,
        )),
        state matches LoginState::TokenIssuance(u) ==> (!(event is Proceed) ==> r == (
            LoginState::TokenIssuance(u),
            LoginAction::Advance,
        )),
        state matches LoginState::Rejected(rej) ==> (!(event is Proceed) ==> r == (
            LoginState::Rejected(rej),
            LoginAction::Advance,
        )),
{
    match (state, event) {
        (LoginState::Received, LoginEvent::Start) => {
            if request.username.as_str().is_empty() || request.secret.as_str().is_empty() {
                (LoginState::Rejected(LoginRejection::InvalidRequest), LoginAction::Advance)
            } else {
                (LoginState::CredentialCheck, LoginAction::AcquireConnection)
            }
        },
        (LoginState::CredentialCheck, LoginEvent::Connection(got)) => {
            if got {
                (LoginState::CredentialCheck, LoginAction::FetchCredential)
            } else {
                (LoginState::Rejected(LoginRejection::PoolTimeout), LoginAction::Advance)
            }
        },
        (LoginState::CredentialCheck, LoginEvent::Credential(row)) => {
            match verify_credential(&row, request.secret.as_str().as_bytes()) {
                Ok(u) => (LoginState::Authenticated(u), LoginAction::ReleaseConnection),
                Err(e) => (
                    LoginState::Rejected(credential_rejection(e)),
                    LoginAction::ReleaseConnection,
                ),
            }
        },
        (LoginState::Authenticated(u), LoginEvent::Proceed) => (
            LoginState::TokenIssuance(u),
            LoginAction::Advance,
        ),
        (LoginState::TokenIssuance(u), LoginEvent::Proceed) => issue_tokens(u, config),
        (LoginState::Rejected(rej), LoginEvent::Proceed) => (
            LoginState::Completed(LoginOutcome::Rejected(rej)),
            LoginAction::Respond,
        ),
        (LoginState::Completed(o), _) => (LoginState::Completed(o), LoginAction::Respond),
        (s, _) => (s, LoginAction::Advance),
    }
}

// ---------------------------------------------------------------------------
// The RPC boundary.
// ---------------------------------------------------------------------------
/// The protocol statuses an unsuccessful login collapses to.
#[derive(PartialEq, Eq, Structural, Clone, Copy, Debug)]
pub enum RpcStatus {
    Unauthenticated,
    Unavailable,
    Internal,
}

/// The status each rejection maps to: every credential-shaped rejection is
/// plain unauthenticated, pool exhaustion is unavailability, and a server
/// fault stays internal.
pub open spec fn spec_rejection_status(r: LoginRejection) -> RpcStatus {
    match r {
        LoginRejection::InvalidRequest => RpcStatus::Unauthenticated,
        LoginRejection::InvalidCredentials => RpcStatus::Unauthenticated,
        LoginRejection::PoolTimeout => RpcStatus::Unavailable,
        LoginRejection::InternalError => RpcStatus::Internal,
    }
}

/// Maps a rejection to its protocol status.
pub fn rejection_status(r: LoginRejection) -> (s: RpcStatus)
    ensures
        s == spec_rejection_status(r),
{
    match r {
        LoginRejection::InvalidRequest => RpcStatus::Unauthenticated,
        LoginRejection::InvalidCredentials => RpcStatus::Unauthenticated,
        LoginRejection::PoolTimeout => RpcStatus::Unavailable,
        LoginRejection::InternalError => RpcStatus::Internal,
    }
}

/// The message each status carries; one fixed text per status, nothing of
/// the server-side detail.
pub open spec fn spec_status_message(s: RpcStatus) -> Seq<char> {
    match s {
        RpcStatus::Unauthenticated => "invalid credentials"@,
        RpcStatus::Unavailable => "service unavailable"@,
        RpcStatus::Internal => "internal error"@,
    }
}

/// The client-visible message for a rejection.
pub fn rejection_message(r: LoginRejection) -> (m: String)
    ensures
        m@ == spec_status_message(spec_rejection_status(r)),
{
    match rejection_status(r) {
        RpcStatus::Unauthenticated => String::from_str("invalid credentials"),
        RpcStatus::Unavailable => String::from_str("service unavailable"),
        RpcStatus::Internal => String::from_str("internal error"),
    }
}

/// The liveness acknowledgment; no side effects.
pub fn ping_response() -> (r: String)
    ensures
        r@ == "pong"@,
{
    String::from_str("pong")
}

/// CREDENTIAL ENUMERATION RESISTANCE: whatever two ways a credential check
/// failed — an unknown username, a wrong secret, an unavailable account —
/// the rejection, the protocol status and the message the client sees are
/// identical.
pub proof fn lemma_credential_enumeration_resistance(e1: CredentialError, e2: CredentialError)
    ensures
        spec_credential_rejection(e1) == spec_credential_rejection(e2),
        spec_rejection_status(spec_credential_rejection(e1)) == spec_rejection_status(
            spec_credential_rejection(e2),
        ),
        spec_status_message(spec_rejection_status(spec_credential_rejection(e1)))
            == spec_status_message(spec_rejection_status(spec_credential_rejection(e2))),
{
}

/// ATOMIC ISSUANCE: a successful login's response carries both tokens, and
/// both decode, under the same key and within their windows, to claim sets
/// naming the same subject — the access token as an access token, the
/// refresh token as a refresh token. No response holds exactly one usable
/// token.
pub proof fn lemma_atomic_issuance(
    resp: LoginResponse,
    user: Seq<char>,
    key: Seq<u8>,
    access_lifetime: i64,
    refresh_lifetime: i64,
    now: i64,
    access_id: Seq<char>,
    refresh_id: Seq<char>,
    at: i64,
    leeway: u32,
)
    requires
        minted_pair(resp, user, key, access_lifetime, refresh_lifetime, now, access_id, refresh_id),
        claims_fit(issued_claims(user, access_id, now, access_lifetime)),
        claims_fit(issued_claims(user, refresh_id, now, refresh_lifetime)),
        now <= at + leeway,
        at <= spec_sat_add_i64(now as int, access_lifetime as int) + leeway,
        at <= spec_sat_add_i64(now as int, refresh_lifetime as int) + leeway,
    ensures
        spec_decode(resp.access_token@, key, at, leeway) == Ok::<
            (ClaimsView, JwtType),
            TokenError,
        >((issued_claims(user, access_id, now, access_lifetime), JwtType::AccessToken)),
        spec_decode(resp.refresh_token@, key, at, leeway) == Ok::<
            (ClaimsView, JwtType),
            TokenError,
        >((issued_claims(user, refresh_id, now, refresh_lifetime), JwtType::RefreshToken)),
{
    reveal(minted_pair);
    lemma_token_round_trip(
        issued_claims(user, access_id, now, access_lifetime),
        JwtType::AccessToken,
        key,
        at,
        leeway,
    );
    lemma_token_round_trip(
        issued_claims(user, refresh_id, now, refresh_lifetime),
        JwtType::RefreshToken,
        key,
        at,
        leeway,
    );
}

} // verus!
