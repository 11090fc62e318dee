//! The loopback callback endpoint: a one-shot server that turns the
//! provider's redirect request into exactly one [`AuthorizationResult`].
//!
//! Only the request handling and the single-delivery slot live here; the
//! socket itself is bound and driven outside the library. The caller feeds
//! each request's path and raw query string to [`LoopbackCallbackServer::handle_request`]
//! and writes back the response it returns, then shuts the socket down as
//! soon as [`LoopbackCallbackServer::done`] reports the slot filled.
use vstd::prelude::*;

use crate::proto::{code, redirect_path};
use crate::query::query_param;
use crate::urlenc::pct_decoded;
use vstd::string::StrSliceExecFns;

verus! {

/// What one login attempt's redirect produced: the authorization code,
/// or the provider's (or parser's) error text.
#[derive(Debug, Clone, PartialEq, Eq)]
pub enum AuthorizationResult {
    Code(Vec<u8>),
    Error(Vec<u8>),
}

/// The mathematical shadow of an [`AuthorizationResult`].
pub enum AuthResultView {
    CodeV(Seq<u8>),
    ErrorV(Seq<u8>),
}

impl View for AuthorizationResult {
    type V = AuthResultView;

    open spec fn view(&self) -> AuthResultView {
        match self {
            AuthorizationResult::Code(c) => AuthResultView::CodeV(c@),
            AuthorizationResult::Error(m) => AuthResultView::ErrorV(m@),
        }
    }
}

/// A successful redirect query, carrying the authorization code.
#[derive(Debug, Clone, PartialEq, Eq)]
pub struct AccessCode {
    pub code: Vec<u8>,
}

/// The decoded `code` parameter of a redirect query, if there is one.
pub open spec fn redirect_code(query: Seq<u8>) -> Option<Seq<u8>> {
    match query_param(query, code()) {
        Some(raw) => pct_decoded(raw),
        None => None,
    }
}

/// Extract the `code` parameter of a redirect query.
pub fn access_code_of_query(query: &[u8]) -> (r: Option<AccessCode>)
    ensures
        match r {
            Some(ac) => redirect_code(query@) == Some(ac.code@),
            None => redirect_code(query@) is None,
        },
{
    let key = crate::proto::code_vec();
    match crate::query::find_param_decoded(query, key.as_slice()) {
        Some(v) => Some(AccessCode { code: v }),
        None => None,
    }
}

/// The response the server writes back to the browser.
pub struct HttpResponse {
    pub status: u16,
    pub body: Vec<u8>,
}

/// Status for the page shown after a captured code.
pub const STATUS_CREATED: u16 = 201;

/// Status for the failure page and for rejected paths.
pub const STATUS_NOT_FOUND: u16 = 404;

/// The mathematical state of the one-shot server.
pub struct ServerView {
    /// Still willing to process a meaningful redirect request.
    pub listening: bool,
    /// The result captured but not yet handed to the consumer.
    pub pending: Option<AuthResultView>,
    /// A result has been handed to the consumer.
    pub delivered: bool,
}

/// How one request changes the server, and with what response status.
pub open spec fn spec_handle(s: ServerView, path: Seq<u8>, query: Seq<u8>) -> (ServerView, u16) {
    if !s.listening {
        (s, STATUS_NOT_FOUND)
    } else if path != redirect_path() {
        (s, STATUS_NOT_FOUND)
    } else {
        match redirect_code(query) {
            Some(c) => (
                ServerView { listening: false, pending: Some(AuthResultView::CodeV(c)), ..s },
                STATUS_CREATED,
            ),
            None => (
                ServerView {
                    listening: false,
                    pending: Some(AuthResultView::ErrorV(error_note())),
                    ..s
                },
                STATUS_NOT_FOUND,
            ),
        }
    }
}

/// How taking the result changes the server, and what it yields.
pub open spec fn spec_take(s: ServerView) -> (ServerView, Option<AuthResultView>) {
    match s.pending {
        Some(r) => (ServerView { pending: None, delivered: true, ..s }, Some(r)),
        None => (s, None),
    }
}

/// The message recorded when a redirect carries no usable code.
pub open spec fn error_note() -> Seq<u8> {
    vstd::utf8::encode_utf8("error getting access code"@)
}

/// A server that has seen nothing yet.
pub open spec fn fresh_server() -> ServerView {
    ServerView { listening: true, pending: None, delivered: false }
}

/// The one-shot loopback callback server, less its socket.
pub struct LoopbackCallbackServer {
    listening: bool,
    pending: Option<AuthorizationResult>,
    delivered: bool,
}

impl View for LoopbackCallbackServer {
    type V = ServerView;

    closed spec fn view(&self) -> ServerView {
        ServerView {
            listening: self.listening,
            pending: match self.pending {
                Some(r) => Some(r@),
                None => None,
            },
            delivered: self.delivered,
        }
    }
}

impl LoopbackCallbackServer {
    /// Start a login attempt with an empty result slot.
    pub fn start() -> (s: Self)
        ensures
            s@ == fresh_server(),
    {
        LoopbackCallbackServer { listening: true, pending: None, delivered: false }
    }

    /// The slot is filled: respond, then shut the socket down.
    pub fn done(&self) -> (r: bool)
        ensures
            r == !self@.listening,
    {
        !self.listening
    }

    /// Process one request to the given path with the given raw query.
    ///
    /// The first request to the redirect path fills the slot — with the
    /// decoded `code` parameter, or with an error note when the query has
    /// no usable code — and asks for shutdown; every other request is
    /// answered with a failure status and changes nothing.
    pub fn handle_request(&mut self, path: &[u8], query: &[u8]) -> (resp: HttpResponse)
        ensures
            final(self)@ == spec_handle(old(self)@, path@, query@).0,
            resp.status == spec_handle(old(self)@, path@, query@).1,
    {
        if !self.listening {
            return HttpResponse { status: STATUS_NOT_FOUND, body: failure_page() };
        }
        let expected = crate::proto::redirect_path_vec();
        if !crate::query::bytes_eq(path, expected.as_slice()) {
            return HttpResponse { status: STATUS_NOT_FOUND, body: failure_page() };
        }
        match access_code_of_query(query) {
            Some(ac) => {
                self.listening = false;
                self.pending = Some(AuthorizationResult::Code(ac.code));
                HttpResponse { status: STATUS_CREATED, body: success_page() }
            },
            None => {
                self.listening = false;
                let note = error_note_vec();
                self.pending = Some(AuthorizationResult::Error(note));
                HttpResponse { status: STATUS_NOT_FOUND, body: failure_page() }
            },
        }
    }

    /// Hand the captured result to the consumer, exactly once.
    pub fn take_result(&mut self) -> (r: Option<AuthorizationResult>)
        ensures
            final(self)@ == spec_take(old(self)@).0,
            match r {
                Some(a) => spec_take(old(self)@).1 == Some(a@),
                None => spec_take(old(self)@).1 is None,
            },
    {
        let mut slot: Option<AuthorizationResult> = None;
        core::mem::swap(&mut self.pending, &mut slot);
        match slot {
            Some(a) => {
                self.delivered = true;
                Some(a)
            },
            None => None,
        }
    }
}

fn error_note_vec() -> (r: Vec<u8>)
    ensures
        r@ == error_note(),
{
    "error getting access code".as_bytes_vec()
}

fn success_page() -> (r: Vec<u8>) {
    "the access code was received and stored locally, you may safely close this browser window".as_bytes_vec()
}

fn failure_page() -> (r: Vec<u8>) {
    "error encountered requesting the access code".as_bytes_vec()
}

/// Law: a redirect carrying code `c` fills the slot with exactly
/// `Code(c)`, answers with the success status, stops the listener, and
/// the result is handed out once — afterwards the slot yields nothing
/// and further requests change nothing.
pub proof fn lemma_code_delivered_exactly_once(path: Seq<u8>, query: Seq<u8>, c: Seq<u8>)
    requires
        path == redirect_path(),
        redirect_code(query) == Some(c),
    ensures
        ({
            let (s1, status) = spec_handle(fresh_server(), path, query);
            let (s2, first) = spec_take(s1);
            let (s3, second) = spec_take(s2);
            &&& status == STATUS_CREATED
            &&& !s1.listening
            &&& first == Some(AuthResultView::CodeV(c))
            &&& second is None
            &&& s2.delivered
            &&& forall|p: Seq<u8>, q: Seq<u8>| spec_handle(s2, p, q).0 == s2
        }),
{
}

/// Law: a redirect without a usable code fills the slot with exactly one
/// error result and answers with the failure status, and the slot again
/// yields nothing the second time.
pub proof fn lemma_error_delivered_exactly_once(path: Seq<u8>, query: Seq<u8>)
    requires
        path == redirect_path(),
        redirect_code(query) is None,
    ensures
        ({
            let (s1, status) = spec_handle(fresh_server(), path, query);
            let (s2, first) = spec_take(s1);
            let (s3, second) = spec_take(s2);
            &&& status == STATUS_NOT_FOUND
            &&& !s1.listening
            &&& first == Some(AuthResultView::ErrorV(error_note()))
            &&& second is None
            &&& s2.delivered
        }),
{
}

} // verus!
