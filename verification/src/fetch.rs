//! Decision logic of the cache-or-fetch pipeline.
//!
//! The pipeline alternates outside work (cache lookup, credential lookup,
//! the HTTP request, the cache write, JSON decoding) with decisions. The
//! decisions live here as a verified step function from a state and the
//! event reported by the runner to the next state and the next action; the
//! runner performs each action and reports back.

use vstd::prelude::*;
use vstd::string::StringExecFns;
use crate::repo::Repo;

verus! {

/// Why a fetch ended without records.
#[derive(Debug)]
pub enum FetchError {
    /// The credential variable was not set; no request was sent.
    MissingCredential,
    /// The request could not be sent or no response arrived.
    ConnectionFailed,
    /// A response arrived with a non-success status.
    BadStatus(u16),
    /// The body in hand was not a well-formed record list.
    DecodeFailed,
}

/// The pipeline's position between two outside steps.
#[derive(Debug)]
pub enum FetchState {
    /// Nothing has happened yet; the cache must be consulted for `user`.
    Start { user: String },
    /// The cache had no entry; the credential must be read.
    NeedCredential { user: String },
    /// The request for `user` is out; a response is awaited.
    AwaitResponse { user: String },
    /// A fresh body is being written to the cache.
    AwaitStore,
    /// A body is being decoded into records.
    Decoding,
    /// The pipeline is finished.
    Done { outcome: Result<Vec<Repo>, FetchError> },
}

/// What the runner reports after performing the action it was handed.
#[derive(Debug)]
pub enum FetchEvent {
    /// The cache was consulted: the stored body, or `None` for absence.
    CacheChecked { cached: Option<String> },
    /// The credential variable was read: its value, or `None` when unset.
    CredentialRead { token: Option<String> },
    /// The request went out: status and body, or `None` for no connection.
    ResponseReceived { response: Option<(u16, String)> },
    /// The body was written to the cache; the runner hands it back.
    BodyStored { body: String },
    /// The body was decoded: the records, or `None` when malformed.
    Decoded { records: Option<Vec<Repo>> },
}

/// What the runner must do next.
#[derive(Debug)]
pub enum FetchAction {
    /// Look `user` up in the cache and report `CacheChecked`.
    CheckCache { user: String },
    /// Read the credential variable and report `CredentialRead`.
    ReadCredential,
    /// Send a GET for `url` carrying `authorization` and report
    /// `ResponseReceived`.
    SendRequest { url: String, authorization: String },
    /// Write `body` to the cache under `user` and report `BodyStored`
    /// with the body handed back.
    WriteCache { user: String, body: String },
    /// Decode `body` and report `Decoded`.
    DecodeBody { body: String },
    /// Nothing: the outcome in `Done` is final.
    Stop,
}

/// The endpoint queried for a user's starred repositories.
pub open spec fn api_url_of(user: Seq<char>) -> Seq<char> {
    "https://api.github.com/users/"@ + user + "/starred?per_page=10"@
}

/// The authorization header value formed from a bearer token.
pub open spec fn bearer_of(token: Seq<char>) -> Seq<char> {
    "Bearer "@ + token
}

/// An HTTP status in the success range.
pub open spec fn is_success(status: u16) -> bool {
    200 <= status < 300
}

/// The event kind each state awaits.
pub open spec fn expects(s: FetchState, e: FetchEvent) -> bool {
    match s {
        FetchState::Start { .. } => e matches FetchEvent::CacheChecked { .. },
        FetchState::NeedCredential { .. } => e matches FetchEvent::CredentialRead { .. },
        FetchState::AwaitResponse { .. } => e matches FetchEvent::ResponseReceived { .. },
        FetchState::AwaitStore => e matches FetchEvent::BodyStored { .. },
        FetchState::Decoding => e matches FetchEvent::Decoded { .. },
        FetchState::Done { .. } => false,
    }
}

/// The transition relation of the pipeline: from state `s` under event `e`
/// to state `s2` with next action `a`.
pub open spec fn step_rel(s: FetchState, e: FetchEvent, s2: FetchState, a: FetchAction) -> bool {
    match (s, e) {
        (FetchState::Start { user }, FetchEvent::CacheChecked { cached }) => match cached {
            Some(body) => {
                &&& s2 matches FetchState::Decoding
                &&& (a matches FetchAction::DecodeBody { body: b } && b == body)
            },
            None => {
                &&& (s2 matches FetchState::NeedCredential { user: u } && u == user)
                &&& a matches FetchAction::ReadCredential
            },
        },
        (FetchState::NeedCredential { user }, FetchEvent::CredentialRead { token }) => match token {
            Some(t) => {
                &&& (s2 matches FetchState::AwaitResponse { user: u } && u == user)
                &&& (a matches FetchAction::SendRequest { url, authorization } && url@
                    == api_url_of(user@) && authorization@ == bearer_of(t@))
            },
            None => {
                &&& (s2 matches FetchState::Done { outcome } && outcome matches Err(
                    FetchError::MissingCredential,
                ))
                &&& a matches FetchAction::Stop
            },
        },
        (FetchState::AwaitResponse { user }, FetchEvent::ResponseReceived { response }) => match response {
            Some((status, body)) => {
                if is_success(status) {
                    &&& s2 matches FetchState::AwaitStore
                    &&& (a matches FetchAction::WriteCache { user: u, body: b } && u == user && b
                        == body)
                } else {
                    &&& (s2 matches FetchState::Done { outcome } && outcome matches Err(
                        FetchError::BadStatus(st),
                    ) && st == status)
                    &&& a matches FetchAction::Stop
                }
            },
            None => {
                &&& (s2 matches FetchState::Done { outcome } && outcome matches Err(
                    FetchError::ConnectionFailed,
                ))
                &&& a matches FetchAction::Stop
            },
        },
        (FetchState::AwaitStore, FetchEvent::BodyStored { body }) => {
            &&& s2 matches FetchState::Decoding
            &&& (a matches FetchAction::DecodeBody { body: b } && b == body)
        },
        (FetchState::Decoding, FetchEvent::Decoded { records }) => match records {
            Some(repos) => {
                &&& (s2 matches FetchState::Done { outcome } && outcome matches Ok(rs) && rs
                    == repos)
                &&& a matches FetchAction::Stop
            },
            None => {
                &&& (s2 matches FetchState::Done { outcome } && outcome matches Err(
                    FetchError::DecodeFailed,
                ))
                &&& a matches FetchAction::Stop
            },
        },
        _ => false,
    }
}

/// Build the request address for a user.
pub fn api_url(user: &str) -> (r: String)
    ensures
        r@ == api_url_of(user@),
{
    let mut r = ("https://api.github.com/users/").to_owned();
    r.append(user);
    r.append("/starred?per_page=10");
    r
}

/// Build the authorization header value for a token.
pub fn bearer(token: &str) -> (r: String)
    ensures
        r@ == bearer_of(token@),
{
    let mut r = ("Bearer ").to_owned();
    r.append(token);
    r
}

/// One decision of the pipeline: consume the awaited event, move to the
/// next state and name the next outside action.
pub fn step(s: FetchState, e: FetchEvent) -> (r: (FetchState, FetchAction))
    requires
        expects(s, e),
    ensures
        step_rel(s, e, r.0, r.1),
{
    match (s, e) {
        (FetchState::Start { user }, FetchEvent::CacheChecked { cached }) => match cached {
            Some(body) => (FetchState::Decoding, FetchAction::DecodeBody { body }),
            None => (FetchState::NeedCredential { user }, FetchAction::ReadCredential),
        },
        (FetchState::NeedCredential { user }, FetchEvent::CredentialRead { token }) => match token {
            Some(t) => {
                let url = api_url(user.as_str());
                let authorization = bearer(t.as_str());
                (
                    FetchState::AwaitResponse { user },
                    FetchAction::SendRequest { url, authorization },
                )
            },
            None => (
                FetchState::Done { outcome: Err(FetchError::MissingCredential) },
                FetchAction::Stop,
            ),
        },
        (FetchState::AwaitResponse { user }, FetchEvent::ResponseReceived { response }) => match response {
            Some((status, body)) => {
                if 200 <= status && status < 300 {
                    (FetchState::AwaitStore, FetchAction::WriteCache { user, body })
                } else {
                    (
                        FetchState::Done { outcome: Err(FetchError::BadStatus(status)) },
                        FetchAction::Stop,
                    )
                }
            },
            None => (
                FetchState::Done { outcome: Err(FetchError::ConnectionFailed) },
                FetchAction::Stop,
            ),
        },
        (FetchState::AwaitStore, FetchEvent::BodyStored { body }) => (
            FetchState::Decoding,
            FetchAction::DecodeBody { body },
        ),
        (FetchState::Decoding, FetchEvent::Decoded { records }) => match records {
            Some(repos) => (FetchState::Done { outcome: Ok(repos) }, FetchAction::Stop),
            None => (FetchState::Done { outcome: Err(FetchError::DecodeFailed) }, FetchAction::Stop),
        },
        _ => (FetchState::Done { outcome: Err(FetchError::DecodeFailed) }, FetchAction::Stop),
    }
}

/// States from which the pipeline can no longer send a request.
pub open spec fn network_settled(s: FetchState) -> bool {
    ||| s matches FetchState::AwaitStore
    ||| s matches FetchState::Decoding
    ||| s matches FetchState::Done { .. }
}

/// A cache hit settles the network at once: the body is decoded and no
/// request is ever sent.
pub proof fn lemma_cache_hit_no_request(s: FetchState, e: FetchEvent, s2: FetchState, a: FetchAction)
    requires
        s matches FetchState::Start { .. },
        e matches FetchEvent::CacheChecked { cached } && cached is Some,
        step_rel(s, e, s2, a),
    ensures
        a matches FetchAction::DecodeBody { .. },
        network_settled(s2),
{
}

/// Once the network is settled, no later step emits a request.
pub proof fn lemma_settled_stays_settled(
    s: FetchState,
    e: FetchEvent,
    s2: FetchState,
    a: FetchAction,
)
    requires
        network_settled(s),
        step_rel(s, e, s2, a),
    ensures
        !(a matches FetchAction::SendRequest { .. }),
        network_settled(s2),
{
}

/// A cache miss forces the pipeline toward the network: the credential is
/// read, and when it is present the very next action is the request for
/// that user's address.
pub proof fn lemma_cache_miss_fetches(
    user: String,
    token: String,
    s2: FetchState,
    a2: FetchAction,
    s3: FetchState,
    a3: FetchAction,
)
    requires
        step_rel(
            FetchState::Start { user },
            FetchEvent::CacheChecked { cached: None },
            s2,
            a2,
        ),
        step_rel(s2, FetchEvent::CredentialRead { token: Some(token) }, s3, a3),
    ensures
        a2 matches FetchAction::ReadCredential,
        a3 matches FetchAction::SendRequest { url, .. } && url@ == api_url_of(user@),
{
}

/// A missing credential fails the fetch while the request is still unsent,
/// and no later step sends one.
pub proof fn lemma_missing_credential_no_request(
    user: String,
    s2: FetchState,
    a2: FetchAction,
    s3: FetchState,
    a3: FetchAction,
)
    requires
        step_rel(
            FetchState::Start { user },
            FetchEvent::CacheChecked { cached: None },
            s2,
            a2,
        ),
        step_rel(s2, FetchEvent::CredentialRead { token: None }, s3, a3),
    ensures
        !(a2 matches FetchAction::SendRequest { .. }),
        s3 matches FetchState::Done { outcome } && outcome matches Err(
            FetchError::MissingCredential,
        ),
        a3 matches FetchAction::Stop,
        network_settled(s3),
{
}

} // verus!
