//! The code-for-token exchange: the form body sent to the token endpoint,
//! and the interpretation of whatever comes back.
//!
//! The network call itself happens outside the library; it reports either
//! a transport failure or the status and body it received, and
//! [`interpret_exchange`] turns that report into a token or into the
//! error class the caller may act on.
use vstd::prelude::*;

use crate::errors::{ProtocolFault, TdiError};
use crate::proto::{authorization_code, client_id_key, code, grant_type_key, redirect_uri_key};
use crate::query::built_query;
use crate::session::{OAuthSession, OAuthSessionView};
use crate::store::AccessToken;
use vstd::utf8::valid_utf8;

verus! {

/// What the transport reports back from the token endpoint.
#[derive(Debug, Clone, PartialEq, Eq)]
pub enum ExchangeOutcome {
    /// The call never completed; the payload is the transport's message.
    NetworkFailure(Vec<u8>),
    /// The endpoint answered with this status and body.
    Response(u16, Vec<u8>),
}

/// The fields of a well-formed token response document.
pub struct TokenReplyView {
    pub access_token: Seq<u8>,
    pub token_type: Seq<u8>,
    pub expires_in: Option<u64>,
}

/// The token fields carried by a token response body.
#[derive(Debug, Clone, PartialEq, Eq)]
pub struct TokenReply {
    pub access_token: Vec<u8>,
    pub token_type: Vec<u8>,
    pub expires_in: Option<u64>,
}

impl View for TokenReply {
    type V = TokenReplyView;

    open spec fn view(&self) -> TokenReplyView {
        TokenReplyView {
            access_token: self.access_token@,
            token_type: self.token_type@,
            expires_in: self.expires_in,
        }
    }
}

/// The token fields a JSON parser finds in a response body: the string
/// members `access_token` and `token_type` and the numeric `expires_in`,
/// if the body parses and the required two are present.
pub uninterp spec fn token_response_of(body: Seq<u8>) -> Option<TokenReplyView>;

/// Relies on `serde_json::from_slice` and `Value::get` / `Value::as_str` /
/// `Value::as_u64`: yields the fields named by [`token_response_of`];
/// string members of a parsed document are well-formed text.
#[verifier::external_body]
fn parse_token_response(body: &[u8]) -> (r: Option<TokenReply>)
    ensures
        r is Some <==> token_response_of(body@) is Some,
        r matches Some(t) ==> token_response_of(body@) == Some(t@) && valid_utf8(t.access_token@)
            && valid_utf8(t.token_type@),
{
    let value: serde_json::Value = match serde_json::from_slice(body) {
        Ok(v) => v,
        Err(_) => return None,
    };
    let access_token = match value.get("access_token").and_then(|t| t.as_str()) {
        Some(s) => s.as_bytes().to_vec(),
        None => return None,
    };
    let token_type = match value.get("token_type").and_then(|t| t.as_str()) {
        Some(s) => s.as_bytes().to_vec(),
        None => return None,
    };
    let expires_in = value.get("expires_in").and_then(|t| t.as_u64());
    Some(TokenReply { access_token, token_type, expires_in })
}

/// The form parameters of the token request, in order; the client secret
/// is sent only where one is configured.
pub open spec fn token_request_pairs(s: OAuthSessionView, code_value: Seq<u8>) -> Seq<
    (Seq<u8>, Seq<u8>),
> {
    seq![(grant_type_key(), authorization_code()), (client_id_key(), s.client_id)] + (if s
        .client_secret.len() > 0 {
        seq![(crate::proto::client_secret_key(), s.client_secret)]
    } else {
        Seq::<(Seq<u8>, Seq<u8>)>::empty()
    }) + seq![(redirect_uri_key(), s.redirect_uri), (code(), code_value)]
}

/// The form body POSTed to the token endpoint.
pub open spec fn token_request_view(s: OAuthSessionView, code_value: Seq<u8>) -> Seq<u8> {
    built_query(token_request_pairs(s, code_value))
}

fn copy_bytes(v: &Vec<u8>) -> (r: Vec<u8>)
    ensures
        r@ == v@,
{
    vstd::slice::slice_to_vec(v.as_slice())
}

/// Build the form body that exchanges an authorization code for a token.
pub fn build_token_request(s: &OAuthSession, code_value: &Vec<u8>) -> (r: Vec<u8>)
    ensures
        r@ == token_request_view(s@, code_value@),
{
    let mut pairs: Vec<(Vec<u8>, Vec<u8>)> = Vec::new();
    pairs.push((crate::proto::grant_type_key_vec(), crate::proto::authorization_code_vec()));
    pairs.push((crate::proto::client_id_key_vec(), copy_bytes(&s.client_id)));
    if s.client_secret.len() > 0 {
        pairs.push((crate::proto::client_secret_key_vec(), copy_bytes(&s.client_secret)));
    }
    pairs.push((crate::proto::redirect_uri_key_vec(), copy_bytes(&s.redirect_uri)));
    pairs.push((crate::proto::code_vec(), copy_bytes(code_value)));
    proof {
        assert(pairs.deep_view() =~~= token_request_pairs(s@, code_value@));
    }
    crate::query::build_query(&pairs)
}

fn copy_scopes(v: &Vec<Vec<u8>>) -> (r: Vec<Vec<u8>>)
    ensures
        r.deep_view() == v.deep_view(),
{
    let mut out: Vec<Vec<u8>> = Vec::new();
    let mut i: usize = 0;
    while i < v.len()
        invariant
            i <= v@.len(),
            out@.len() == i,
            forall|j: int| 0 <= j < i ==> (#[trigger] out@[j])@ == v@[j]@,
        decreases v@.len() - i,
    {
        out.push(copy_bytes(&v[i]));
        i += 1;
    }
    proof {
        assert(out.deep_view() =~= v.deep_view());
    }
    out
}

/// Classify the transport's report: a token on a success status with a
/// well-formed body, and otherwise the error class that tells a caller
/// whether a retry can help.
pub fn interpret_exchange(outcome: ExchangeOutcome, scopes: &Vec<Vec<u8>>) -> (r: Result<
    AccessToken,
    TdiError,
>)
    requires
        forall|i: int| 0 <= i < scopes.deep_view().len() ==> valid_utf8(
            #[trigger] scopes.deep_view()[i],
        ),
    ensures
        outcome matches ExchangeOutcome::NetworkFailure(m) ==> (r matches Err(e) && e matches
            TdiError::TokenExchangeNetwork(m2) && m2@ == m@),
        outcome matches ExchangeOutcome::Response(st, body) ==> !(200 <= st < 300) ==> r
            == Err::<AccessToken, TdiError>(
            TdiError::TokenExchangeProtocol(ProtocolFault::HttpStatus(st)),
        ),
        outcome matches ExchangeOutcome::Response(st, body) ==> (200 <= st < 300
            && token_response_of(body@) is None) ==> r == Err::<AccessToken, TdiError>(
            TdiError::TokenExchangeProtocol(ProtocolFault::MalformedBody),
        ),
        outcome matches ExchangeOutcome::Response(st, body) ==> 200 <= st < 300 ==> (
        token_response_of(body@) matches Some(f) ==> (r matches Ok(t)
            && t@.access_token == f.access_token && t@.token_type == f.token_type && t@.expires_in
            == f.expires_in && t@.scopes == scopes.deep_view() && crate::store::token_fields_utf8(
            t@,
        ))),
{
    match outcome {
        ExchangeOutcome::NetworkFailure(m) => Err(TdiError::TokenExchangeNetwork(m)),
        ExchangeOutcome::Response(status, body) => {
            if status < 200 || status >= 300 {
                Err(TdiError::TokenExchangeProtocol(ProtocolFault::HttpStatus(status)))
            } else {
                match parse_token_response(body.as_slice()) {
                    Some(reply) => Ok(
                        AccessToken {
                            access_token: reply.access_token,
                            token_type: reply.token_type,
                            expires_in: reply.expires_in,
                            scopes: copy_scopes(scopes),
                        },
                    ),
                    None => Err(TdiError::TokenExchangeProtocol(ProtocolFault::MalformedBody)),
                }
            }
        },
    }
}

} // verus!
