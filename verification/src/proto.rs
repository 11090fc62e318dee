//! The protocol words of the flow, as byte strings: query-parameter keys,
//! the loopback redirect path, and fixed parameter values.
use vstd::prelude::*;

verus! {

/// The bytes of `code`.
pub open spec fn code() -> Seq<u8> {
    seq![99, 111, 100, 101]
}

/// The bytes of `code`, as a vector.
pub fn code_vec() -> (r: Vec<u8>)
    ensures
        r@ == code(),
{
    let mut v: Vec<u8> = Vec::new();
    v.push(99);
    v.push(111);
    v.push(100);
    v.push(101);
    assert(v@ =~= code());
    v
}

/// The bytes of `redirect`.
pub open spec fn redirect_path() -> Seq<u8> {
    seq![114, 101, 100, 105, 114, 101, 99, 116]
}

/// The bytes of `redirect`, as a vector.
pub fn redirect_path_vec() -> (r: Vec<u8>)
    ensures
        r@ == redirect_path(),
{
    let mut v: Vec<u8> = Vec::new();
    v.push(114);
    v.push(101);
    v.push(100);
    v.push(105);
    v.push(114);
    v.push(101);
    v.push(99);
    v.push(116);
    assert(v@ =~= redirect_path());
    v
}

/// The bytes of `client_id`.
pub open spec fn client_id_key() -> Seq<u8> {
    seq![99, 108, 105, 101, 110, 116, 95, 105, 100]
}

/// The bytes of `client_id`, as a vector.
pub fn client_id_key_vec() -> (r: Vec<u8>)
    ensures
        r@ == client_id_key(),
{
    let mut v: Vec<u8> = Vec::new();
    v.push(99);
    v.push(108);
    v.push(105);
    v.push(101);
    v.push(110);
    v.push(116);
    v.push(95);
    v.push(105);
    v.push(100);
    assert(v@ =~= client_id_key());
    v
}

/// The bytes of `client_secret`.
pub open spec fn client_secret_key() -> Seq<u8> {
    seq![99, 108, 105, 101, 110, 116, 95, 115, 101, 99, 114, 101, 116]
}

/// The bytes of `client_secret`, as a vector.
pub fn client_secret_key_vec() -> (r: Vec<u8>)
    ensures
        r@ == client_secret_key(),
{
    let mut v: Vec<u8> = Vec::new();
    v.push(99);
    v.push(108);
    v.push(105);
    v.push(101);
    v.push(110);
    v.push(116);
    v.push(95);
    v.push(115);
    v.push(101);
    v.push(99);
    v.push(114);
    v.push(101);
    v.push(116);
    assert(v@ =~= client_secret_key());
    v
}
/// The bytes of `scope`.
pub open spec fn scope_key() -> Seq<u8> {
    seq![115, 99, 111, 112, 101]
}

/// The bytes of `scope`, as a vector.
pub fn scope_key_vec() -> (r: Vec<u8>)
    ensures
        r@ == scope_key(),
{
    let mut v: Vec<u8> = Vec::new();
    v.push(115);
    v.push(99);
    v.push(111);
    v.push(112);
    v.push(101);
    assert(v@ =~= scope_key());
    v
}

/// The bytes of `response_type`.
pub open spec fn response_type_key() -> Seq<u8> {
    seq![114, 101, 115, 112, 111, 110, 115, 101, 95, 116, 121, 112, 101]
}

/// The bytes of `response_type`, as a vector.
pub fn response_type_key_vec() -> (r: Vec<u8>)
    ensures
        r@ == response_type_key(),
{
    let mut v: Vec<u8> = Vec::new();
    v.push(114);
    v.push(101);
    v.push(115);
    v.push(112);
    v.push(111);
    v.push(110);
    v.push(115);
    v.push(101);
    v.push(95);
    v.push(116);
    v.push(121);
    v.push(112);
    v.push(101);
    assert(v@ =~= response_type_key());
    v
}

/// The bytes of `redirect_uri`.
pub open spec fn redirect_uri_key() -> Seq<u8> {
    seq![114, 101, 100, 105, 114, 101, 99, 116, 95, 117, 114, 105]
}

/// The bytes of `redirect_uri`, as a vector.
pub fn redirect_uri_key_vec() -> (r: Vec<u8>)
    ensures
        r@ == redirect_uri_key(),
{
    let mut v: Vec<u8> = Vec::new();
    v.push(114);
    v.push(101);
    v.push(100);
    v.push(105);
    v.push(114);
    v.push(101);
    v.push(99);
    v.push(116);
    v.push(95);
    v.push(117);
    v.push(114);
    v.push(105);
    assert(v@ =~= redirect_uri_key());
    v
}

/// The bytes of `grant_type`.
pub open spec fn grant_type_key() -> Seq<u8> {
    seq![103, 114, 97, 110, 116, 95, 116, 121, 112, 101]
}

/// The bytes of `grant_type`, as a vector.
pub fn grant_type_key_vec() -> (r: Vec<u8>)
    ensures
        r@ == grant_type_key(),
{
    let mut v: Vec<u8> = Vec::new();
    v.push(103);
    v.push(114);
    v.push(97);
    v.push(110);
    v.push(116);
    v.push(95);
    v.push(116);
    v.push(121);
    v.push(112);
    v.push(101);
    assert(v@ =~= grant_type_key());
    v
}

/// The bytes of `authorization_code`.
pub open spec fn authorization_code() -> Seq<u8> {
    seq![97, 117, 116, 104, 111, 114, 105, 122, 97, 116, 105, 111, 110, 95, 99, 111, 100, 101]
}

/// The bytes of `authorization_code`, as a vector.
pub fn authorization_code_vec() -> (r: Vec<u8>)
    ensures
        r@ == authorization_code(),
{
    let mut v: Vec<u8> = Vec::new();
    v.push(97);
    v.push(117);
    v.push(116);
    v.push(104);
    v.push(111);
    v.push(114);
    v.push(105);
    v.push(122);
    v.push(97);
    v.push(116);
    v.push(105);
    v.push(111);
    v.push(110);
    v.push(95);
    v.push(99);
    v.push(111);
    v.push(100);
    v.push(101);
    assert(v@ =~= authorization_code());
    v
}

} // verus!
