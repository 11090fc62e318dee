//! Percent-encoding of byte strings as they appear in URL query components.
//!
//! The encoder keeps RFC 3986 unreserved bytes and writes every other byte
//! as `%XX` with upper-case hex digits. The decoder additionally maps `+`
//! to a space, as form-urlencoded parsers do.
use vstd::prelude::*;

verus! {

/// Bytes that the encoder passes through unchanged (RFC 3986 unreserved).
pub open spec fn is_unreserved(b: u8) -> bool {
    (97 <= b && b <= 122) || (65 <= b && b <= 90) || (48 <= b && b <= 57)
        || b == 45 || b == 46 || b == 95 || b == 126
}

/// The upper-case hex digit for a nibble.
pub open spec fn hex_digit(n: u8) -> u8 {
    if n < 10 {
        (48 + n) as u8
    } else {
        (55 + n) as u8
    }
}

/// The nibble a hex digit byte stands for, if it is one.
pub open spec fn hex_val(b: u8) -> Option<u8> {
    if 48 <= b && b <= 57 {
        Some((b - 48) as u8)
    } else if 65 <= b && b <= 70 {
        Some((b - 55) as u8)
    } else if 97 <= b && b <= 102 {
        Some((b - 87) as u8)
    } else {
        None
    }
}

/// How a single byte is encoded.
pub open spec fn encode_byte(b: u8) -> Seq<u8> {
    if is_unreserved(b) {
        seq![b]
    } else {
        seq![37, hex_digit(b / 16), hex_digit(b % 16)]
    }
}

/// The percent-encoding of a whole byte string.
pub open spec fn pct_encoded(s: Seq<u8>) -> Seq<u8>
    decreases s.len(),
{
    if s.len() == 0 {
        Seq::<u8>::empty()
    } else {
        encode_byte(s[0]) + pct_encoded(s.skip(1))
    }
}

/// The percent-decoding of a byte string; `None` on a malformed escape.
pub open spec fn pct_decoded(s: Seq<u8>) -> Option<Seq<u8>>
    decreases s.len(),
{
    if s.len() == 0 {
        Some(Seq::<u8>::empty())
    } else if s[0] == 37 {
        if s.len() >= 3 && hex_val(s[1]) is Some && hex_val(s[2]) is Some {
            match pct_decoded(s.skip(3)) {
                Some(r) => Some(
                    seq![(16 * hex_val(s[1]).unwrap() + hex_val(s[2]).unwrap()) as u8] + r,
                ),
                None => None,
            }
        } else {
            None
        }
    } else {
        match pct_decoded(s.skip(1)) {
            Some(r) => Some(seq![if s[0] == 43 { 32 } else { s[0] }] + r),
            None => None,
        }
    }
}

pub proof fn lemma_pct_encoded_concat(a: Seq<u8>, b: Seq<u8>)
    ensures
        pct_encoded(a + b) == pct_encoded(a) + pct_encoded(b),
    decreases a.len(),
{
    if a.len() == 0 {
        assert(a + b =~= b);
        assert(pct_encoded(a) + pct_encoded(b) =~= pct_encoded(b));
    } else {
        assert((a + b).skip(1) =~= a.skip(1) + b);
        lemma_pct_encoded_concat(a.skip(1), b);
        assert((a + b)[0] == a[0]);
        assert(pct_encoded(a + b) =~= pct_encoded(a) + pct_encoded(b));
    }
}

pub(crate) fn hex_digit_exec(n: u8) -> (r: u8)
    requires
        n < 16,
    ensures
        r == hex_digit(n),
{
    if n < 10 {
        48 + n
    } else {
        55 + n
    }
}

fn is_unreserved_exec(b: u8) -> (r: bool)
    ensures
        r == is_unreserved(b),
{
    (97 <= b && b <= 122) || (65 <= b && b <= 90) || (48 <= b && b <= 57)
        || b == 45 || b == 46 || b == 95 || b == 126
}

/// Percent-encode a byte string.
pub fn pct_encode(s: &[u8]) -> (r: Vec<u8>)
    ensures
        r@ == pct_encoded(s@),
{
    let mut out: Vec<u8> = Vec::new();
    let mut i: usize = 0;
    while i < s.len()
        invariant
            i <= s.len(),
            out@ == pct_encoded(s@.take(i as int)),
        decreases s.len() - i,
    {
        let b = s[i];
        if is_unreserved_exec(b) {
            out.push(b);
        } else {
            out.push(37);
            out.push(hex_digit_exec(b / 16));
            out.push(hex_digit_exec(b % 16));
        }
        proof {
            assert(s@.take(i + 1).skip(i as int) =~= seq![s@[i as int]]);
            assert(s@.take(i + 1).take(i as int) =~= s@.take(i as int));
            lemma_pct_encoded_concat(s@.take(i as int), seq![s@[i as int]]);
            assert(s@.take(i as int) + seq![s@[i as int]] =~= s@.take(i + 1));
            assert(seq![s@[i as int]].skip(1) =~= Seq::<u8>::empty());
            assert(pct_encoded(Seq::<u8>::empty()) =~= Seq::<u8>::empty());
            assert(encode_byte(s@[i as int]) + Seq::<u8>::empty() =~= encode_byte(s@[i as int]));
            assert(pct_encoded(seq![s@[i as int]]) =~= encode_byte(s@[i as int]));
            assert(out@ =~= pct_encoded(s@.take(i + 1)));
        }
        i += 1;
    }
    proof {
        assert(s@.take(s@.len() as int) =~= s@);
    }
    out
}

fn hex_val_exec(b: u8) -> (r: Option<u8>)
    ensures
        r == hex_val(b),
{
    if 48 <= b && b <= 57 {
        Some(b - 48)
    } else if 65 <= b && b <= 70 {
        Some(b - 55)
    } else if 97 <= b && b <= 102 {
        Some(b - 87)
    } else {
        None
    }
}

/// Percent-decode a byte string; `None` on a malformed escape.
pub fn pct_decode(s: &[u8]) -> (r: Option<Vec<u8>>)
    ensures
        match r {
            Some(v) => pct_decoded(s@) == Some(v@),
            None => pct_decoded(s@) is None,
        },
{
    let mut out: Vec<u8> = Vec::new();
    let mut i: usize = 0;
    proof {
        assert(s@.skip(0) =~= s@);
        assert forall|d: Seq<u8>|
            pct_decoded(s@.skip(0)) == Some::<Seq<u8>>(d) implies pct_decoded(s@) == Some(
            out@ + d,
        ) by {
            assert(out@ + d =~= d);
        }
    }
    while i < s.len()
        invariant
            i <= s.len(),
            forall|d: Seq<u8>|
                pct_decoded(s@.skip(i as int)) == Some::<Seq<u8>>(d) ==> pct_decoded(s@)
                    == Some(out@ + d),
            pct_decoded(s@.skip(i as int)) is None ==> pct_decoded(s@) is None,
        decreases s.len() - i,
    {
        let ghost pre = s@.skip(i as int);
        let ghost out0 = out@;
        assert(pre[0] == s@[i as int]);
        let b = s[i];
        if b == 37 {
            if s.len() - i > 2 {
                let h1 = hex_val_exec(s[i + 1]);
                let h2 = hex_val_exec(s[i + 2]);
                assert(pre[1] == s@[i + 1] && pre[2] == s@[i + 2]);
                match (h1, h2) {
                    (Some(x), Some(y)) => {
                        let c = 16 * x + y;
                        out.push(c);
                        proof {
                            assert(pre.skip(3) =~= s@.skip(i + 3));
                            assert forall|d: Seq<u8>|
                                pct_decoded(s@.skip(i + 3)) == Some::<Seq<u8>>(d) implies
                                pct_decoded(s@) == Some(out@ + d) by {
                                assert(pct_decoded(pre) == Some(seq![c] + d));
                                assert(out0 + (seq![c] + d) =~= out@ + d);
                            }
                        }
                        i += 3;
                    },
                    _ => {
                        assert(pct_decoded(pre) is None);
                        return None;
                    },
                }
            } else {
                assert(pre.len() < 3);
                assert(pct_decoded(pre) is None);
                return None;
            }
        } else {
            let c = if b == 43 {
                32
            } else {
                b
            };
            out.push(c);
            proof {
                assert(pre.skip(1) =~= s@.skip(i + 1));
                assert forall|d: Seq<u8>|
                    pct_decoded(s@.skip(i + 1)) == Some::<Seq<u8>>(d) implies pct_decoded(s@)
                    == Some(out@ + d) by {
                    assert(pct_decoded(pre) == Some(seq![c] + d));
                    assert(out0 + (seq![c] + d) =~= out@ + d);
                }
            }
            i += 1;
        }
    }
    proof {
        assert(s@.skip(s@.len() as int) =~= Seq::<u8>::empty());
        assert(pct_decoded(s@.skip(s@.len() as int)) == Some(Seq::<u8>::empty()));
        assert(out@ + Seq::<u8>::empty() =~= out@);
    }
    Some(out)
}

/// Law: decoding inverts encoding, for every byte string.
pub proof fn lemma_pct_round_trip(s: Seq<u8>)
    ensures
        pct_decoded(pct_encoded(s)) == Some(s),
    decreases s.len(),
{
    if s.len() == 0 {
    } else {
        lemma_pct_round_trip(s.skip(1));
        let e = pct_encoded(s);
        let b = s[0];
        if is_unreserved(b) {
            assert(e =~= seq![b] + pct_encoded(s.skip(1)));
            assert(e[0] == b);
            assert(e.skip(1) =~= pct_encoded(s.skip(1)));
            assert(b != 37 && b != 43);
            assert(seq![s[0]] + s.skip(1) =~= s);
        } else {
            assert(e =~= seq![37, hex_digit(b / 16), hex_digit(b % 16)]
                + pct_encoded(s.skip(1)));
            assert(e[0] == 37 && e[1] == hex_digit(b / 16) && e[2] == hex_digit(b % 16));
            assert(e.skip(3) =~= pct_encoded(s.skip(1)));
            assert(b / 16 < 16 && b % 16 < 16);
            lemma_hex_digit_val(b / 16);
            lemma_hex_digit_val(b % 16);
            assert(16 * (b / 16) + (b % 16) == b);
            assert(seq![s[0]] + s.skip(1) =~= s);
        }
    }
}

proof fn lemma_hex_digit_val(n: u8)
    requires
        n < 16,
    ensures
        hex_val(hex_digit(n)) == Some(n),
{
}

/// Every byte of an encoded string is either unreserved, a `%`, or a hex digit;
/// in particular none of them is `&`, `=`, `?` or a space.
pub proof fn lemma_pct_encoded_bytes(s: Seq<u8>)
    ensures
        forall|i: int|
            0 <= i < pct_encoded(s).len() ==> (#[trigger] pct_encoded(s)[i] != 38
                && pct_encoded(s)[i] != 61 && pct_encoded(s)[i] != 63
                && pct_encoded(s)[i] != 32 && pct_encoded(s)[i] != 43),
    decreases s.len(),
{
    if s.len() == 0 {
    } else {
        lemma_pct_encoded_bytes(s.skip(1));
        let e = pct_encoded(s);
        let h = encode_byte(s[0]);
        assert forall|i: int| 0 <= i < e.len() implies (#[trigger] e[i] != 38 && e[i] != 61
            && e[i] != 63 && e[i] != 32 && e[i] != 43) by {
            if i < h.len() {
                assert(e[i] == h[i]);
            } else {
                assert(e[i] == pct_encoded(s.skip(1))[i - h.len()]);
            }
        }
    }
}

} // verus!
