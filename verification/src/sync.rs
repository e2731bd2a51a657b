//! The decision core of the synchronization protocol.
//!
//! The driver performs the outside work (HTTP requests, prompting,
//! logging in); this session decides, from each outcome, what happens
//! next. A cached bearer credential is reused when present; exactly one
//! unauthorized response is recovered by logging in afresh and retrying;
//! a second one, or any other failure, is surfaced.

use vstd::prelude::*;

verus! {

use crate::auth::Authentication;
use crate::error::Error;

/// What the driver is asked to do next.
#[derive(Debug)]
pub enum SyncCommand {
    /// Send the request, carrying this bearer credential.
    Send(Authentication),
    /// Ask for user credentials and log in.
    Login,
}

/// What one request came back as, as the driver classifies it.
#[derive(Clone, Copy, Debug, PartialEq, Eq, Structural)]
pub enum SyncResponse {
    /// The server answered the request.
    Success,
    /// The server rejected the bearer credential.
    Unauthorized,
    /// Anything else: network or parse failure.
    Failure,
}

/// How a step left the session.
#[derive(Debug)]
pub enum SyncOutcome {
    /// Keep going: do this next.
    Command(SyncCommand),
    /// The exchange succeeded.
    Done,
    /// The exchange failed; surfaced unmodified to the caller.
    Failed(Error),
}

/// Which kind of credential the last request carried.
#[derive(Clone, Copy, Debug, PartialEq, Eq, Structural)]
pub enum SyncPhase {
    /// The cached credential: an unauthorized response may still be
    /// recovered by logging in.
    TriedCached,
    /// A freshly obtained credential: an unauthorized response is final.
    TriedFresh,
}

/// One synchronization exchange: at most one request with the cached
/// credential, at most one login, at most one retry.
pub struct SyncSession {
    pub phase: SyncPhase,
}

impl SyncSession {
    /// Start an exchange: reuse the cached credential if there is one,
    /// else log in first.
    pub fn begin(cached: Option<Authentication>) -> (r: (SyncSession, SyncCommand))
        ensures
            match cached {
                Some(a) => r.0.phase == SyncPhase::TriedCached && r.1 == SyncCommand::Send(a),
                None => r.0.phase == SyncPhase::TriedFresh && r.1 == SyncCommand::Login,
            },
    {
        match cached {
            Some(a) => (SyncSession { phase: SyncPhase::TriedCached }, SyncCommand::Send(a)),
            None => (SyncSession { phase: SyncPhase::TriedFresh }, SyncCommand::Login),
        }
    }

    /// Judge a response. Success completes the exchange; an unauthorized
    /// response is recovered by a login exactly when the cached
    /// credential was tried, and is otherwise an authentication failure;
    /// any other failure is a transport failure.
    pub fn on_response(&mut self, response: SyncResponse) -> (r: SyncOutcome)
        ensures
            final(self).phase == old(self).phase,
            match response {
                SyncResponse::Success => r == SyncOutcome::Done,
                SyncResponse::Unauthorized => {
                    if old(self).phase == SyncPhase::TriedCached {
                        r == SyncOutcome::Command(SyncCommand::Login)
                    } else {
                        r == SyncOutcome::Failed(Error::AuthFailure)
                    }
                },
                SyncResponse::Failure => r == SyncOutcome::Failed(Error::TransportFailure),
            },
    {
        match response {
            SyncResponse::Success => SyncOutcome::Done,
            SyncResponse::Unauthorized => match self.phase {
                SyncPhase::TriedCached => SyncOutcome::Command(SyncCommand::Login),
                SyncPhase::TriedFresh => SyncOutcome::Failed(Error::AuthFailure),
            },
            SyncResponse::Failure => SyncOutcome::Failed(Error::TransportFailure),
        }
    }

    /// Adopt a freshly obtained credential and retry: the session will
    /// not recover another unauthorized response.
    pub fn on_login(&mut self, auth: Authentication) -> (r: SyncCommand)
        ensures
            final(self).phase == SyncPhase::TriedFresh,
            r == SyncCommand::Send(auth),
    {
        self.phase = SyncPhase::TriedFresh;
        SyncCommand::Send(auth)
    }
}

} // verus!
