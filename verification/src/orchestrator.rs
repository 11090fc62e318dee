//! The login orchestrator: a state machine from events to actions.
//!
//! The orchestrator owns the session and decides; the caller performs.
//! Each call of [`AuthorizationOrchestrator::step`] consumes one event —
//! the login request, the callback's result or its timeout, the
//! transport's report from the token endpoint, the outcome of writing the
//! credential file — and returns the one action the caller must perform
//! next. Terminal states absorb every further event.
use vstd::prelude::*;

use crate::callback::AuthorizationResult;
use crate::errors::TdiError;
use crate::exchange::{token_request_view, token_response_of, ExchangeOutcome};
use crate::session::{session_wf, OAuthSession};
use crate::store::{credential_json, AccessTokenView};

verus! {

/// Where one login attempt stands.
#[derive(Debug, PartialEq, Eq)]
pub enum LoginStage {
    /// Nothing requested yet.
    Idle,
    /// URL built, browser launch attempted, listener started.
    AwaitingRedirect,
    /// A code arrived; the token endpoint has been asked.
    ExchangingToken,
    /// A token arrived; the credential file is being written.
    Persisting,
    /// The token is durably persisted; terminal.
    Authenticated,
    /// The attempt is over without a credential; terminal.
    Failed(TdiError),
}

/// What the world tells the orchestrator.
#[derive(Debug, PartialEq, Eq)]
pub enum LoginEvent {
    /// The user asked to log in.
    LoginRequested,
    /// The callback listener delivered its one result.
    CallbackDelivered(AuthorizationResult),
    /// The redirect never arrived within the allotted window.
    CallbackTimedOut,
    /// The transport reported back from the token endpoint.
    ExchangeCompleted(ExchangeOutcome),
    /// Writing the credential file succeeded or failed.
    CredentialWritten(bool),
}

/// What the caller must do next.
#[derive(Debug, PartialEq, Eq)]
pub enum LoginAction {
    /// Nothing; consult the stage.
    Wait,
    /// Open this URL in the browser (print it when that fails) and start
    /// the loopback listener.
    OpenBrowser(Vec<u8>),
    /// POST this form body to the session's token endpoint.
    ExchangeCode(Vec<u8>),
    /// Write this document to the credential file, atomically.
    WriteCredential(Vec<u8>),
    /// Stop the loopback listener and release its port.
    StopListening,
}

/// A terminal stage absorbs every further event.
pub open spec fn is_terminal(s: &LoginStage) -> bool {
    s is Authenticated || s is Failed
}

/// Drives one login attempt from request to persisted credential.
pub struct AuthorizationOrchestrator {
    pub session: OAuthSession,
    pub stage: LoginStage,
}

impl AuthorizationOrchestrator {
    /// A fresh attempt over the given session.
    pub fn new(session: OAuthSession) -> (o: Self)
        ensures
            o.stage is Idle,
            o.session == session,
    {
        AuthorizationOrchestrator { session, stage: LoginStage::Idle }
    }

    /// Consume one event; move to the next stage and say what to do.
    ///
    /// The transitions, each stated below, are exactly: request starts the
    /// attempt; a code starts the exchange; a provider error, the timeout,
    /// a failed exchange and a failed write each end the attempt with its
    /// error; a token starts the write; a successful write authenticates.
    /// Every other event in every other stage changes nothing.
    pub fn step(&mut self, event: LoginEvent) -> (action: LoginAction)
        requires
            session_wf(old(self).session@),
        ensures
            final(self).session == old(self).session,
            is_terminal(&old(self).stage) ==> final(self).stage == old(self).stage && action
                is Wait,
            old(self).stage is Idle ==> match event {
                LoginEvent::LoginRequested => final(self).stage is AwaitingRedirect && (
                action matches LoginAction::OpenBrowser(url) && url@
                    == crate::session::authorize_url_view(old(self).session@)),
                _ => final(self).stage == old(self).stage && action is Wait,
            },
            old(self).stage is AwaitingRedirect ==> match event {
                LoginEvent::CallbackDelivered(res) => match res {
                    AuthorizationResult::Code(c) => final(self).stage is ExchangingToken && (
                    action matches LoginAction::ExchangeCode(body) && body@ == token_request_view(
                        old(self).session@,
                        c@,
                    )),
                    AuthorizationResult::Error(m) => (final(self).stage matches LoginStage::Failed(
                        e,
                    ) && e matches TdiError::ProviderRedirect(m2) && m2@ == m@) && action is Wait,
                },
                LoginEvent::CallbackTimedOut => final(self).stage == LoginStage::Failed(
                    TdiError::CallbackTimeout,
                ) && action is StopListening,
                _ => final(self).stage == old(self).stage && action is Wait,
            },
            old(self).stage is ExchangingToken ==> match event {
                LoginEvent::ExchangeCompleted(outcome) => match outcome {
                    ExchangeOutcome::NetworkFailure(m) => (final(self).stage
                        matches LoginStage::Failed(e) && e matches TdiError::TokenExchangeNetwork(
                        m2,
                    ) && m2@ == m@) && action is Wait,
                    ExchangeOutcome::Response(st, body) => {
                        if 200 <= st < 300 {
                            match token_response_of(body@) {
                                Some(f) => final(self).stage is Persisting && (action
                                    matches LoginAction::WriteCredential(doc) && doc@
                                    == credential_json(
                                    AccessTokenView {
                                        access_token: f.access_token,
                                        token_type: f.token_type,
                                        expires_in: f.expires_in,
                                        scopes: old(self).session@.scopes,
                                    },
                                )),
                                None => final(self).stage == LoginStage::Failed(
                                    TdiError::TokenExchangeProtocol(
                                        crate::errors::ProtocolFault::MalformedBody,
                                    ),
                                ) && action is Wait,
                            }
                        } else {
                            final(self).stage == LoginStage::Failed(
                                TdiError::TokenExchangeProtocol(
                                    crate::errors::ProtocolFault::HttpStatus(st),
                                ),
                            ) && action is Wait
                        }
                    },
                },
                _ => final(self).stage == old(self).stage && action is Wait,
            },
            old(self).stage is Persisting ==> match event {
                LoginEvent::CredentialWritten(ok) => {
                    if ok {
                        final(self).stage is Authenticated && action is Wait
                    } else {
                        final(self).stage == LoginStage::Failed(TdiError::CredentialStore)
                            && action is Wait
                    }
                },
                _ => final(self).stage == old(self).stage && action is Wait,
            },
    {
        match (&self.stage, event) {
            (LoginStage::Idle, LoginEvent::LoginRequested) => {
                let url = crate::session::build_authorize_url(&self.session);
                self.stage = LoginStage::AwaitingRedirect;
                LoginAction::OpenBrowser(url)
            },
            (LoginStage::AwaitingRedirect, LoginEvent::CallbackDelivered(res)) => {
                match res {
                    AuthorizationResult::Code(c) => {
                        let body = crate::exchange::build_token_request(&self.session, &c);
                        self.stage = LoginStage::ExchangingToken;
                        LoginAction::ExchangeCode(body)
                    },
                    AuthorizationResult::Error(m) => {
                        self.stage = LoginStage::Failed(TdiError::ProviderRedirect(m));
                        LoginAction::Wait
                    },
                }
            },
            (LoginStage::AwaitingRedirect, LoginEvent::CallbackTimedOut) => {
                self.stage = LoginStage::Failed(TdiError::CallbackTimeout);
                LoginAction::StopListening
            },
            (LoginStage::ExchangingToken, LoginEvent::ExchangeCompleted(outcome)) => {
                match crate::exchange::interpret_exchange(outcome, &self.session.scopes) {
                    Ok(token) => {
                        let doc = crate::store::render_credential(&token);
                        self.stage = LoginStage::Persisting;
                        LoginAction::WriteCredential(doc)
                    },
                    Err(e) => {
                        self.stage = LoginStage::Failed(e);
                        LoginAction::Wait
                    },
                }
            },
            (LoginStage::Persisting, LoginEvent::CredentialWritten(ok)) => {
                if ok {
                    self.stage = LoginStage::Authenticated;
                } else {
                    self.stage = LoginStage::Failed(TdiError::CredentialStore);
                }
                LoginAction::Wait
            },
            _ => LoginAction::Wait,
        }
    }
}

/// Law: in the waiting stage the timeout alone moves the attempt to the
/// terminal timeout failure and stops the listener, and the failure then
/// absorbs every further event; releasing the port itself is the
/// listener's side of the bargain.
pub proof fn lemma_timeout_reaches_failed(stage: LoginStage)
    requires
        stage is AwaitingRedirect,
    ensures
        !is_terminal(&stage),
        is_terminal(&LoginStage::Failed(TdiError::CallbackTimeout)),
{
}

} // verus!
