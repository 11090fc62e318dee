//! The per-attempt OAuth session and the authorization URL built from it.
use vstd::prelude::*;

use crate::proto::{client_id_key, code, redirect_uri_key, response_type_key, scope_key};
use crate::query::{
    built_query, free_of, join_with, key_wf, lemma_built_query_round_trip, query_pairs, split_on,
};
use crate::urlenc::{lemma_pct_round_trip, pct_decoded, pct_encoded};
use vstd::string::StrSliceExecFns;

verus! {

/// The byte of the space separating scopes inside the `scope` parameter.
pub const SP: u8 = 32;

/// One login attempt's configuration: who is asking, for what, and where
/// the provider should send the browser back.
#[derive(Debug, Clone, PartialEq, Eq)]
pub struct OAuthSession {
    pub client_id: Vec<u8>,
    pub client_secret: Vec<u8>,
    pub scopes: Vec<Vec<u8>>,
    pub redirect_uri: Vec<u8>,
    pub authorize_endpoint: Vec<u8>,
    pub token_endpoint: Vec<u8>,
}

/// The mathematical shadow of an [`OAuthSession`].
pub struct OAuthSessionView {
    pub client_id: Seq<u8>,
    pub client_secret: Seq<u8>,
    pub scopes: Seq<Seq<u8>>,
    pub redirect_uri: Seq<u8>,
    pub authorize_endpoint: Seq<u8>,
    pub token_endpoint: Seq<u8>,
}

impl View for OAuthSession {
    type V = OAuthSessionView;

    open spec fn view(&self) -> OAuthSessionView {
        OAuthSessionView {
            client_id: self.client_id@,
            client_secret: self.client_secret@,
            scopes: self.scopes.deep_view(),
            redirect_uri: self.redirect_uri@,
            authorize_endpoint: self.authorize_endpoint@,
            token_endpoint: self.token_endpoint@,
        }
    }
}

/// The scope strings hold well-formed text, so a credential rendered from
/// them is itself well-formed.
pub open spec fn session_wf(s: OAuthSessionView) -> bool {
    forall|i: int| 0 <= i < s.scopes.len() ==> vstd::utf8::valid_utf8(#[trigger] s.scopes[i])
}

/// The query parameters of the authorization URL, in order.
pub open spec fn authorize_pairs(s: OAuthSessionView) -> Seq<(Seq<u8>, Seq<u8>)> {
    seq![
        (client_id_key(), s.client_id),
        (scope_key(), join_with(s.scopes, SP)),
        (response_type_key(), code()),
        (redirect_uri_key(), s.redirect_uri),
    ]
}

/// The query part of the authorization URL.
pub open spec fn authorize_query_view(s: OAuthSessionView) -> Seq<u8> {
    built_query(authorize_pairs(s))
}

/// The whole authorization URL: the endpoint (which already ends in `?`)
/// followed by the query.
pub open spec fn authorize_url_view(s: OAuthSessionView) -> Seq<u8> {
    s.authorize_endpoint + authorize_query_view(s)
}

fn copy_bytes(v: &Vec<u8>) -> (r: Vec<u8>)
    ensures
        r@ == v@,
{
    vstd::slice::slice_to_vec(v.as_slice())
}

/// Join the scope strings with single spaces.
fn join_scopes(scopes: &Vec<Vec<u8>>) -> (r: Vec<u8>)
    ensures
        r@ == join_with(scopes.deep_view(), SP),
{
    let ghost goal = scopes.deep_view();
    let mut out: Vec<u8> = Vec::new();
    let mut i: usize = 0;
    proof {
        assert(goal.len() == scopes@.len());
    }
    while i < scopes.len()
        invariant
            i <= scopes@.len(),
            goal == scopes.deep_view(),
            goal.len() == scopes@.len(),
            forall|j: int| 0 <= j < scopes@.len() ==> goal[j] == (#[trigger] scopes@[j])@,
            i == 0 ==> out@ == Seq::<u8>::empty(),
            i > 0 ==> out@ == join_with(goal.take(i as int), SP),
        decreases scopes@.len() - i,
    {
        if i > 0 {
            out.push(SP);
        }
        out.extend_from_slice(scopes[i].as_slice());
        proof {
            crate::query::lemma_join_take_snoc(goal, SP, i as int);
            if i == 0 {
                assert(out@ =~= join_with(goal.take(1), SP));
            } else {
                assert(out@ =~= join_with(goal.take(i + 1), SP));
            }
        }
        i += 1;
    }
    proof {
        if scopes@.len() == 0 {
            assert(out@ =~= join_with(goal, SP));
        } else {
            assert(goal.take(scopes@.len() as int) =~= goal);
        }
    }
    out
}

/// Build the authorization URL the browser must visit.
pub fn build_authorize_url(s: &OAuthSession) -> (r: Vec<u8>)
    ensures
        r@ == authorize_url_view(s@),
{
    let mut pairs: Vec<(Vec<u8>, Vec<u8>)> = Vec::new();
    pairs.push((crate::proto::client_id_key_vec(), copy_bytes(&s.client_id)));
    pairs.push((crate::proto::scope_key_vec(), join_scopes(&s.scopes)));
    pairs.push((crate::proto::response_type_key_vec(), crate::proto::code_vec()));
    pairs.push((crate::proto::redirect_uri_key_vec(), copy_bytes(&s.redirect_uri)));
    proof {
        assert(pairs.deep_view() =~~= authorize_pairs(s@));
    }
    let query = crate::query::build_query(&pairs);
    let mut out = copy_bytes(&s.authorize_endpoint);
    out.extend_from_slice(query.as_slice());
    proof {
        assert(out@ =~= authorize_url_view(s@));
    }
    out
}

/// The session the command-line tool starts from: a placeholder client,
/// the task and profile scopes, and the loopback redirect.
pub fn default_session() -> (s: OAuthSession)
    ensures
        s@.client_id == Seq::<u8>::empty(),
        s@.client_secret == Seq::<u8>::empty(),
        s@.scopes == seq![
            vstd::utf8::encode_utf8("tasks.readwrite"@),
            vstd::utf8::encode_utf8("tasks.read"@),
            vstd::utf8::encode_utf8("user.read"@),
        ],
        s@.redirect_uri == vstd::utf8::encode_utf8("http://localhost:8000/redirect"@),
        s@.authorize_endpoint == vstd::utf8::encode_utf8(
            "https://login.live.com/oauth20_authorize.srf?"@,
        ),
        s@.token_endpoint == vstd::utf8::encode_utf8(
            "https://login.microsoftonline.com/common/oauth2/v2.0/token"@,
        ),
{
    let mut scopes: Vec<Vec<u8>> = Vec::new();
    scopes.push("tasks.readwrite".as_bytes_vec());
    scopes.push("tasks.read".as_bytes_vec());
    scopes.push("user.read".as_bytes_vec());
    let s = OAuthSession {
        client_id: Vec::new(),
        client_secret: Vec::new(),
        scopes,
        redirect_uri: "http://localhost:8000/redirect".as_bytes_vec(),
        authorize_endpoint: "https://login.live.com/oauth20_authorize.srf?".as_bytes_vec(),
        token_endpoint: "https://login.microsoftonline.com/common/oauth2/v2.0/token".as_bytes_vec(),
    };
    proof {
        assert(s@.scopes =~~= seq![
            vstd::utf8::encode_utf8("tasks.readwrite"@),
            vstd::utf8::encode_utf8("tasks.read"@),
            vstd::utf8::encode_utf8("user.read"@),
        ]);
    }
    s
}

/// Law: the query of the authorization URL parses back to exactly its
/// four parameters — the client id, the scopes joined by single spaces,
/// the `code` response type, and the exact redirect URI — each value
/// percent-encoded; decoding recovers the exact originals, and splitting
/// the decoded scope value yields every scope exactly once, in order.
pub proof fn lemma_authorize_query_exact(s: OAuthSessionView)
    requires
        forall|i: int| 0 <= i < s.scopes.len() ==> free_of(#[trigger] s.scopes[i], SP),
    ensures
        query_pairs(authorize_query_view(s)) == authorize_pairs(s).map_values(
            |p: (Seq<u8>, Seq<u8>)| (p.0, pct_encoded(p.1)),
        ),
        pct_decoded(pct_encoded(s.client_id)) == Some(s.client_id),
        pct_decoded(pct_encoded(s.redirect_uri)) == Some(s.redirect_uri),
        pct_decoded(pct_encoded(join_with(s.scopes, SP))) == Some(join_with(s.scopes, SP)),
        s.scopes.len() >= 1 ==> split_on(join_with(s.scopes, SP), SP) == s.scopes,
{
    let pairs = authorize_pairs(s);
    assert(key_wf(client_id_key()));
    assert(key_wf(scope_key()));
    assert(key_wf(response_type_key()));
    assert(key_wf(redirect_uri_key()));
    assert(forall|i: int| 0 <= i < pairs.len() ==> key_wf((#[trigger] pairs[i]).0));
    lemma_built_query_round_trip(pairs);
    lemma_pct_round_trip(s.client_id);
    lemma_pct_round_trip(s.redirect_uri);
    lemma_pct_round_trip(join_with(s.scopes, SP));
    if s.scopes.len() >= 1 {
        crate::query::lemma_join_split(s.scopes, SP);
    }
}

} // verus!
