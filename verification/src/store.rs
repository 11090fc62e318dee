//! The token store: the credential document written after a login, and
//! the reading of the bearer token back out of it.
//!
//! The library renders the document itself, byte for byte, so its exact
//! content is specified; reading goes through `serde_json`, behind a
//! trusted wrapper. Writing the bytes to disk and reading them back is
//! the caller's job: the functions here map between tokens and document
//! bytes, and classify a missing or unreadable document.
use vstd::prelude::*;

use crate::errors::TdiError;
use crate::query::join_with;
use crate::urlenc::hex_digit;
use vstd::string::StrSliceExecFns;
use vstd::utf8::valid_utf8;

verus! {

/// The token material obtained from a successful exchange, together with
/// the scopes the session asked for.
#[derive(Debug, Clone, PartialEq, Eq)]
pub struct AccessToken {
    pub access_token: Vec<u8>,
    pub token_type: Vec<u8>,
    pub expires_in: Option<u64>,
    pub scopes: Vec<Vec<u8>>,
}

/// The mathematical shadow of an [`AccessToken`].
pub struct AccessTokenView {
    pub access_token: Seq<u8>,
    pub token_type: Seq<u8>,
    pub expires_in: Option<u64>,
    pub scopes: Seq<Seq<u8>>,
}

impl View for AccessToken {
    type V = AccessTokenView;

    open spec fn view(&self) -> AccessTokenView {
        AccessTokenView {
            access_token: self.access_token@,
            token_type: self.token_type@,
            expires_in: self.expires_in,
            scopes: self.scopes.deep_view(),
        }
    }
}

/// All textual fields of the token hold well-formed text, so that the
/// rendered document is itself well-formed.
pub open spec fn token_fields_utf8(c: AccessTokenView) -> bool {
    &&& valid_utf8(c.access_token)
    &&& valid_utf8(c.token_type)
    &&& forall|i: int| 0 <= i < c.scopes.len() ==> valid_utf8(#[trigger] c.scopes[i])
}

/// How one byte is written inside a JSON string literal.
pub open spec fn json_escaped_byte(b: u8) -> Seq<u8> {
    if b == 34 {
        seq![92u8, 34u8]
    } else if b == 92 {
        seq![92u8, 92u8]
    } else if b < 32 {
        seq![92u8, 117u8, 48u8, 48u8, hex_digit(b / 16), hex_digit(b % 16)]
    } else {
        seq![b]
    }
}

/// The escaped body of a JSON string literal.
pub open spec fn json_escaped(s: Seq<u8>) -> Seq<u8>
    decreases s.len(),
{
    if s.len() == 0 {
        Seq::<u8>::empty()
    } else {
        json_escaped_byte(s[0]) + json_escaped(s.skip(1))
    }
}

/// A whole JSON string literal: quote, escaped body, quote.
pub open spec fn json_string(s: Seq<u8>) -> Seq<u8> {
    seq![34u8] + json_escaped(s) + seq![34u8]
}

/// The decimal digits of a number, most significant first.
pub open spec fn dec_digits(n: nat) -> Seq<u8>
    decreases n,
{
    if n < 10 {
        seq![(48 + n) as u8]
    } else {
        dec_digits(n / 10) + seq![(48 + n % 10) as u8]
    }
}

/// The JSON array of the scope strings.
pub open spec fn scopes_json(scopes: Seq<Seq<u8>>) -> Seq<u8> {
    seq![91u8] + join_with(scopes.map_values(|s: Seq<u8>| json_string(s)), 44u8) + seq![93u8]
}

/// The credential document: a JSON object whose `access_token` member
/// mirrors the in-memory token.
pub open spec fn credential_json(c: AccessTokenView) -> Seq<u8> {
    vstd::utf8::encode_utf8("{\"access_token\":{\"access_token\":"@) + json_string(c.access_token)
        + vstd::utf8::encode_utf8(",\"token_type\":"@) + json_string(c.token_type) + (match c
        .expires_in {
        Some(e) => vstd::utf8::encode_utf8(",\"expires_in\":"@) + dec_digits(e as nat),
        None => Seq::<u8>::empty(),
    }) + vstd::utf8::encode_utf8(",\"scope\":"@) + scopes_json(c.scopes) + vstd::utf8::encode_utf8(
        "}}"@,
    )
}

pub proof fn lemma_json_escaped_concat(a: Seq<u8>, b: Seq<u8>)
    ensures
        json_escaped(a + b) == json_escaped(a) + json_escaped(b),
    decreases a.len(),
{
    if a.len() == 0 {
        assert(a + b =~= b);
        assert(json_escaped(a) + json_escaped(b) =~= json_escaped(b));
    } else {
        assert((a + b).skip(1) =~= a.skip(1) + b);
        lemma_json_escaped_concat(a.skip(1), b);
        assert((a + b)[0] == a[0]);
        assert(json_escaped(a + b) =~= json_escaped(a) + json_escaped(b));
    }
}

/// Write the escaped body of a JSON string literal.
fn escape_json(s: &[u8]) -> (r: Vec<u8>)
    ensures
        r@ == json_escaped(s@),
{
    let mut out: Vec<u8> = Vec::new();
    let mut i: usize = 0;
    while i < s.len()
        invariant
            i <= s.len(),
            out@ == json_escaped(s@.take(i as int)),
        decreases s.len() - i,
    {
        let b = s[i];
        if b == 34 || b == 92 {
            out.push(92);
            out.push(b);
        } else if b < 32 {
            out.push(92);
            out.push(117);
            out.push(48);
            out.push(48);
            out.push(crate::urlenc::hex_digit_exec(b / 16));
            out.push(crate::urlenc::hex_digit_exec(b % 16));
        } else {
            out.push(b);
        }
        proof {
            lemma_json_escaped_concat(s@.take(i as int), seq![s@[i as int]]);
            assert(s@.take(i as int) + seq![s@[i as int]] =~= s@.take(i + 1));
            assert(seq![s@[i as int]].skip(1) =~= Seq::<u8>::empty());
            assert(json_escaped(Seq::<u8>::empty()) =~= Seq::<u8>::empty());
            assert(json_escaped(seq![s@[i as int]]) =~= json_escaped_byte(s@[i as int]));
            assert(out@ =~= json_escaped(s@.take(i + 1)));
        }
        i += 1;
    }
    proof {
        assert(s@.take(s@.len() as int) =~= s@);
    }
    out
}

/// Write a whole JSON string literal.
fn write_json_string(s: &[u8]) -> (r: Vec<u8>)
    ensures
        r@ == json_string(s@),
{
    let mut out: Vec<u8> = Vec::new();
    out.push(34);
    let body = escape_json(s);
    out.extend_from_slice(body.as_slice());
    out.push(34);
    proof {
        assert(out@ =~= json_string(s@));
    }
    out
}

/// Write a number in decimal.
fn write_decimal(n: u64) -> (r: Vec<u8>)
    ensures
        r@ == dec_digits(n as nat),
    decreases n,
{
    if n < 10 {
        let mut out: Vec<u8> = Vec::new();
        out.push(48 + (n as u8));
        proof {
            assert(out@ =~= dec_digits(n as nat));
        }
        out
    } else {
        let mut out = write_decimal(n / 10);
        out.push(48 + ((n % 10) as u8));
        proof {
            assert(out@ =~= dec_digits(n as nat));
        }
        out
    }
}

/// Write the JSON array of the scope strings.
fn write_scopes(scopes: &Vec<Vec<u8>>) -> (r: Vec<u8>)
    ensures
        r@ == scopes_json(scopes.deep_view()),
{
    let ghost goal = scopes.deep_view().map_values(|s: Seq<u8>| json_string(s));
    let mut out: Vec<u8> = Vec::new();
    out.push(91);
    let mut i: usize = 0;
    proof {
        assert(scopes.deep_view().len() == scopes@.len());
    }
    while i < scopes.len()
        invariant
            i <= scopes@.len(),
            goal == scopes.deep_view().map_values(|s: Seq<u8>| json_string(s)),
            goal.len() == scopes@.len(),
            forall|j: int|
                0 <= j < scopes@.len() ==> scopes.deep_view()[j] == (#[trigger] scopes@[j])@,
            i == 0 ==> out@ == seq![91u8],
            i > 0 ==> out@ == seq![91u8] + join_with(goal.take(i as int), 44u8),
        decreases scopes@.len() - i,
    {
        if i > 0 {
            out.push(44);
        }
        let piece = write_json_string(scopes[i].as_slice());
        out.extend_from_slice(piece.as_slice());
        proof {
            crate::query::lemma_join_take_snoc(goal, 44u8, i as int);
            if i == 0 {
                assert(out@ =~= seq![91u8] + join_with(goal.take(1), 44u8));
            } else {
                assert(out@ =~= seq![91u8] + join_with(goal.take(i + 1), 44u8));
            }
        }
        i += 1;
    }
    out.push(93);
    proof {
        if scopes@.len() == 0 {
            assert(join_with(goal, 44u8) =~= Seq::<u8>::empty());
            assert(out@ =~= scopes_json(scopes.deep_view()));
        } else {
            assert(goal.take(scopes@.len() as int) =~= goal);
            assert(out@ =~= scopes_json(scopes.deep_view()));
        }
    }
    out
}

/// Render the credential document for a token; this is what `Save`
/// writes to `credentials.json`.
pub fn render_credential(t: &AccessToken) -> (r: Vec<u8>)
    ensures
        r@ == credential_json(t@),
{
    let mut out: Vec<u8> = Vec::new();
    let head = "{\"access_token\":{\"access_token\":".as_bytes_vec();
    out.extend_from_slice(head.as_slice());
    let tok = write_json_string(t.access_token.as_slice());
    out.extend_from_slice(tok.as_slice());
    let ty_key = ",\"token_type\":".as_bytes_vec();
    out.extend_from_slice(ty_key.as_slice());
    let ty = write_json_string(t.token_type.as_slice());
    out.extend_from_slice(ty.as_slice());
    match t.expires_in {
        Some(e) => {
            let exp_key = ",\"expires_in\":".as_bytes_vec();
            out.extend_from_slice(exp_key.as_slice());
            let exp = write_decimal(e);
            out.extend_from_slice(exp.as_slice());
        },
        None => {},
    }
    let scope_key = ",\"scope\":".as_bytes_vec();
    out.extend_from_slice(scope_key.as_slice());
    let scopes = write_scopes(&t.scopes);
    out.extend_from_slice(scopes.as_slice());
    let tail = "}}".as_bytes_vec();
    out.extend_from_slice(tail.as_slice());
    proof {
        assert(out@ =~= credential_json(t@));
    }
    out
}

/// The bearer token that a JSON parser finds at
/// `document.access_token.access_token`, if the document parses and that
/// member is a string.
pub uninterp spec fn bearer_of(doc: Seq<u8>) -> Option<Seq<u8>>;

/// Relies on `serde_json::from_slice` and `Value::get` / `Value::as_str`:
/// the returned bytes are the string member at
/// `document.access_token.access_token`, and a document rendered by this
/// store from well-formed token fields always yields back that token's
/// `access_token` bytes.
#[verifier::external_body]
fn extract_bearer(doc: &[u8]) -> (r: Option<Vec<u8>>)
    ensures
        r is Some <==> bearer_of(doc@) is Some,
        r matches Some(v) ==> bearer_of(doc@) == Some(v@),
        r is Some <== exists|c: AccessTokenView|
            token_fields_utf8(c) && doc@ == credential_json(c),
        r matches Some(v) ==> forall|c: AccessTokenView|
            token_fields_utf8(c) && doc@ == credential_json(c) ==> v@ == c.access_token,
{
    let value: serde_json::Value = match serde_json::from_slice(doc) {
        Ok(v) => v,
        Err(_) => return None,
    };
    match value.get("access_token").and_then(|t| t.get("access_token")).and_then(|t| t.as_str()) {
        Some(s) => Some(s.as_bytes().to_vec()),
        None => None,
    }
}

/// Interpret the credential file's content, read (or found missing) by
/// the caller: the bearer token bytes on success, `NotAuthenticated` when
/// there is no file at all, and `CredentialStore` when the file exists
/// but no bearer token can be read out of it.
pub fn load_credential(content: Option<&Vec<u8>>) -> (r: Result<Vec<u8>, TdiError>)
    ensures
        content is None ==> r == Err::<Vec<u8>, TdiError>(TdiError::NotAuthenticated),
        (content matches Some(d) && bearer_of(d@) is None) ==> r == Err::<Vec<u8>, TdiError>(
            TdiError::CredentialStore,
        ),
        content matches Some(d) ==> bearer_of(d@) matches Some(b) ==> (r matches Ok(v) && v@
            == b),
        forall|c: AccessTokenView|
            (token_fields_utf8(c) && (content matches Some(d) && d@ == credential_json(c))) ==> (
            r matches Ok(v) && v@ == c.access_token),
{
    match content {
        None => Err(TdiError::NotAuthenticated),
        Some(doc) => {
            match extract_bearer(doc.as_slice()) {
                Some(v) => Ok(v),
                None => Err(TdiError::CredentialStore),
            }
        },
    }
}

} // verus!
