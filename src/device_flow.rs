//! The decisions of the device authorization grant: which response fields
//! are required, and when polling for the token goes on, succeeds or fails.
//! The requests themselves, and the waiting, are the caller's.

use vstd::prelude::*;

verus! {

/// The name this client registers under.
pub const CLIENT_NAME: &'static str = "profile-sync-client";

/// The kind of client that is registered: a public one.
pub const CLIENT_TYPE: &'static str = "public";

/// The scope that the registration asks for.
pub const SCOPES: &'static str = "sso-portal:*";

/// The grant type of every token request.
pub const GRANT_TYPE: &'static str = "urn:ietf:params:oauth:grant-type:device_code";

/// How long to wait, in milliseconds, after a pending token response.
pub const POLL_INTERVAL_MS: u64 = 1000;

/// Why the device authorization grant failed.
#[derive(Debug, PartialEq, Eq)]
pub enum AuthError {
    MissingClientId,
    MissingClientSecret,
    MissingVerificationUri,
    MissingDeviceCode,
    MissingAccessToken,
    /// The identity provider rejected a request; its message.
    Service(String),
    /// A request did not reach the identity provider; the message.
    Transport(String),
}

/// A registered client.
#[derive(Debug)]
pub struct ClientRegistration {
    pub client_id: String,
    pub client_secret: String,
}

/// A started device authorization.
#[derive(Debug)]
pub struct DeviceAuthorization {
    pub verification_uri: String,
    pub device_code: String,
}

/// What the identity provider answered to a token request.
#[derive(Debug)]
pub enum TokenResponse {
    /// The user has not approved yet.
    Pending,
    /// A token was issued; its access token, if the response carried one.
    Issued(Option<String>),
    /// Any other rejection by the provider.
    Rejected(String),
    /// The request failed on its way.
    Unreachable(String),
}

/// What to do after a token response.
#[derive(Debug, PartialEq, Eq)]
pub enum PollStep {
    /// Wait `POLL_INTERVAL_MS` and ask again.
    Wait,
    /// Stop with this access token.
    Done(String),
    /// Stop with this error.
    Failed(AuthError),
}

/// The registration made of a response's fields, or the first one missing.
pub open spec fn registration_result(
    client_id: Option<String>,
    client_secret: Option<String>,
) -> Result<(String, String), AuthError> {
    match (client_id, client_secret) {
        (None, _) => Err(AuthError::MissingClientId),
        (Some(_), None) => Err(AuthError::MissingClientSecret),
        (Some(i), Some(s)) => Ok((i, s)),
    }
}

/// Checks a registration response: both the client id and the secret are
/// required.
pub fn registration_of(client_id: Option<String>, client_secret: Option<String>) -> (r: Result<
    ClientRegistration,
    AuthError,
>)
    ensures
        match r {
            Ok(c) => registration_result(client_id, client_secret) == Ok::<
                (String, String),
                AuthError,
            >((c.client_id, c.client_secret)),
            Err(e) => registration_result(client_id, client_secret) == Err::<
                (String, String),
                AuthError,
            >(e),
        },
{
    match client_id {
        None => Err(AuthError::MissingClientId),
        Some(client_id) => match client_secret {
            None => Err(AuthError::MissingClientSecret),
            Some(client_secret) => Ok(ClientRegistration { client_id, client_secret }),
        },
    }
}

/// The authorization made of a response's fields, or the first one missing.
pub open spec fn authorization_result(
    verification_uri: Option<String>,
    device_code: Option<String>,
) -> Result<(String, String), AuthError> {
    match (verification_uri, device_code) {
        (None, _) => Err(AuthError::MissingVerificationUri),
        (Some(_), None) => Err(AuthError::MissingDeviceCode),
        (Some(u), Some(d)) => Ok((u, d)),
    }
}

/// Checks a device authorization response: the complete verification URI
/// and the device code are required.
pub fn authorization_of(verification_uri: Option<String>, device_code: Option<String>) -> (r:
    Result<DeviceAuthorization, AuthError>)
    ensures
        match r {
            Ok(a) => authorization_result(verification_uri, device_code) == Ok::<
                (String, String),
                AuthError,
            >((a.verification_uri, a.device_code)),
            Err(e) => authorization_result(verification_uri, device_code) == Err::<
                (String, String),
                AuthError,
            >(e),
        },
{
    match verification_uri {
        None => Err(AuthError::MissingVerificationUri),
        Some(verification_uri) => match device_code {
            None => Err(AuthError::MissingDeviceCode),
            Some(device_code) => Ok(DeviceAuthorization { verification_uri, device_code }),
        },
    }
}

/// The step that follows a token response.
pub open spec fn step_of(response: TokenResponse) -> PollStep {
    match response {
        TokenResponse::Pending => PollStep::Wait,
        TokenResponse::Issued(Some(t)) => PollStep::Done(t),
        TokenResponse::Issued(None) => PollStep::Failed(AuthError::MissingAccessToken),
        TokenResponse::Rejected(m) => PollStep::Failed(AuthError::Service(m)),
        TokenResponse::Unreachable(m) => PollStep::Failed(AuthError::Transport(m)),
    }
}

/// Decides what follows a token response: only a pending one is waited out.
pub fn poll_step(response: &TokenResponse) -> (r: PollStep)
    ensures
        r == step_of(*response),
{
    match response {
        TokenResponse::Pending => PollStep::Wait,
        TokenResponse::Issued(token) => match token {
            Some(t) => PollStep::Done(t.clone()),
            None => PollStep::Failed(AuthError::MissingAccessToken),
        },
        TokenResponse::Rejected(m) => PollStep::Failed(AuthError::Service(m.clone())),
        TokenResponse::Unreachable(m) => PollStep::Failed(AuthError::Transport(m.clone())),
    }
}

/// Polling over the responses `rs`, one per request: how many requests are
/// made, and how it ends, if the responses do not run out first.
pub open spec fn polled(rs: Seq<TokenResponse>) -> (nat, Option<Result<String, AuthError>>)
    decreases rs.len(),
{
    if rs.len() == 0 {
        (0, None)
    } else {
        match step_of(rs[0]) {
            PollStep::Wait => {
                let rest = polled(rs.drop_first());
                (rest.0 + 1, rest.1)
            },
            PollStep::Done(t) => (1, Some(Ok(t))),
            PollStep::Failed(e) => (1, Some(Err(e))),
        }
    }
}

/// Runs the polling over a given sequence of responses, one per request:
/// returns how many requests were made and the token or the error they ended
/// with, or `None` if every response was pending.
pub fn poll_responses(responses: &Vec<TokenResponse>) -> (r: (
    usize,
    Option<Result<String, AuthError>>,
))
    ensures
        r.0 as nat == polled(responses@).0,
        r.1 == polled(responses@).1,
{
    let mut i: usize = 0;
    proof {
        assert(responses@.subrange(0, responses@.len() as int) =~= responses@);
    }
    while i < responses.len()
        invariant
            i <= responses@.len(),
            polled(responses@) == (
                (polled(responses@.subrange(i as int, responses@.len() as int)).0 + i) as nat,
                polled(responses@.subrange(i as int, responses@.len() as int)).1,
            ),
        decreases responses@.len() - i,
    {
        let ghost rest = responses@.subrange(i as int, responses@.len() as int);
        proof {
            assert(rest[0] == responses@[i as int]);
            assert(rest.drop_first() =~= responses@.subrange(i + 1, responses@.len() as int));
        }
        match poll_step(&responses[i]) {
            PollStep::Wait => {},
            PollStep::Done(t) => {
                return (i + 1, Some(Ok(t)));
            },
            PollStep::Failed(e) => {
                return (i + 1, Some(Err(e)));
            },
        }
        i = i + 1;
    }
    proof {
        assert(responses@.subrange(i as int, responses@.len() as int).len() == 0);
    }
    (i, None)
}

} // verus!
