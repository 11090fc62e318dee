//! Query strings of the `k=v&k2=v2` form: splitting, parameter lookup,
//! and the laws that make building and parsing inverse to each other.
use vstd::prelude::*;

use crate::urlenc::{pct_decoded, pct_encoded};

verus! {

/// The byte `&`, separating query parameters.
pub const AMP: u8 = 38;

/// The byte `=`, separating a key from its value.
pub const EQ: u8 = 61;

/// Split a byte string on a separator. The result always has at least one
/// component; splitting the empty string gives one empty component.
pub open spec fn split_on(s: Seq<u8>, sep: u8) -> Seq<Seq<u8>>
    decreases s.len(),
{
    if s.len() == 0 {
        seq![Seq::<u8>::empty()]
    } else if s[0] == sep {
        seq![Seq::<u8>::empty()] + split_on(s.skip(1), sep)
    } else {
        let rest = split_on(s.skip(1), sep);
        seq![seq![s[0]] + rest[0]] + rest.skip(1)
    }
}

/// Join components with a separator; inverse of `split_on` on
/// separator-free components.
pub open spec fn join_with(parts: Seq<Seq<u8>>, sep: u8) -> Seq<u8>
    decreases parts.len(),
{
    if parts.len() == 0 {
        Seq::<u8>::empty()
    } else if parts.len() == 1 {
        parts[0]
    } else {
        parts[0] + seq![sep] + join_with(parts.skip(1), sep)
    }
}

/// A component holds no occurrence of the byte `b`.
pub open spec fn free_of(s: Seq<u8>, b: u8) -> bool {
    forall|i: int| 0 <= i < s.len() ==> s[i] != b
}

/// Split one `k=v` component at its first `=`; a component without `=`
/// is all key and has the empty value.
pub open spec fn pair_of(part: Seq<u8>) -> (Seq<u8>, Seq<u8>)
    decreases part.len(),
{
    if part.len() == 0 {
        (Seq::<u8>::empty(), Seq::<u8>::empty())
    } else if part[0] == EQ {
        (Seq::<u8>::empty(), part.skip(1))
    } else {
        let r = pair_of(part.skip(1));
        (seq![part[0]] + r.0, r.1)
    }
}

/// The key/value pairs of a query string, in order.
pub open spec fn query_pairs(q: Seq<u8>) -> Seq<(Seq<u8>, Seq<u8>)> {
    split_on(q, AMP).map_values(|p: Seq<u8>| pair_of(p))
}

/// The raw (still encoded) value of the first pair with the given key.
pub open spec fn lookup_pairs(ps: Seq<(Seq<u8>, Seq<u8>)>, key: Seq<u8>) -> Option<Seq<u8>>
    decreases ps.len(),
{
    if ps.len() == 0 {
        None
    } else if ps[0].0 == key {
        Some(ps[0].1)
    } else {
        lookup_pairs(ps.skip(1), key)
    }
}

/// The raw value of a query parameter, if the key occurs.
pub open spec fn query_param(q: Seq<u8>, key: Seq<u8>) -> Option<Seq<u8>> {
    lookup_pairs(query_pairs(q), key)
}

pub proof fn lemma_split_len(s: Seq<u8>, sep: u8)
    ensures
        split_on(s, sep).len() >= 1,
    decreases s.len(),
{
    if s.len() == 0 {
    } else {
        lemma_split_len(s.skip(1), sep);
    }
}

/// A separator-free string splits into itself alone.
pub proof fn lemma_split_sepfree(s: Seq<u8>, sep: u8)
    requires
        free_of(s, sep),
    ensures
        split_on(s, sep) == seq![s],
    decreases s.len(),
{
    if s.len() == 0 {
        assert(s =~= Seq::<u8>::empty());
        assert(split_on(s, sep) =~~= seq![s]);
    } else {
        assert(free_of(s.skip(1), sep));
        lemma_split_sepfree(s.skip(1), sep);
        assert(seq![s[0]] + s.skip(1) =~= s);
        assert(split_on(s, sep) =~= seq![s]);
    }
}

/// Splitting `a`, a separator, then `t` yields `a` and then the split of `t`.
pub proof fn lemma_split_concat(a: Seq<u8>, t: Seq<u8>, sep: u8)
    requires
        free_of(a, sep),
    ensures
        split_on(a + seq![sep] + t, sep) == seq![a] + split_on(t, sep),
    decreases a.len(),
{
    let s = a + seq![sep] + t;
    if a.len() == 0 {
        assert(s[0] == sep);
        assert(s.skip(1) =~= t);
        assert(a =~= Seq::<u8>::empty());
        assert(split_on(s, sep) =~~= seq![a] + split_on(t, sep));
    } else {
        assert(s[0] == a[0] && a[0] != sep);
        assert(s.skip(1) =~= a.skip(1) + seq![sep] + t);
        assert(free_of(a.skip(1), sep));
        lemma_split_concat(a.skip(1), t, sep);
        let rest = split_on(s.skip(1), sep);
        lemma_split_len(t, sep);
        assert(rest[0] == a.skip(1));
        assert(rest.skip(1) =~= split_on(t, sep));
        assert(seq![s[0]] + rest[0] =~= a);
        assert(split_on(s, sep) =~= seq![a] + split_on(t, sep));
    }
}

/// Law: splitting the join of separator-free components gives them back.
pub proof fn lemma_join_split(parts: Seq<Seq<u8>>, sep: u8)
    requires
        parts.len() >= 1,
        forall|i: int| 0 <= i < parts.len() ==> free_of(#[trigger] parts[i], sep),
    ensures
        split_on(join_with(parts, sep), sep) == parts,
    decreases parts.len(),
{
    if parts.len() == 1 {
        lemma_split_sepfree(parts[0], sep);
        assert(split_on(join_with(parts, sep), sep) =~= parts);
    } else {
        assert(forall|i: int|
            0 <= i < parts.skip(1).len() ==> free_of(#[trigger] parts.skip(1)[i], sep));
        lemma_join_split(parts.skip(1), sep);
        lemma_split_concat(parts[0], join_with(parts.skip(1), sep), sep);
        assert(split_on(join_with(parts, sep), sep) =~= parts);
    }
}

/// `pair_of` in terms of the position of the first `=`.
pub proof fn lemma_pair_of_at(part: Seq<u8>, j: int)
    requires
        0 <= j <= part.len(),
        forall|t: int| 0 <= t < j ==> part[t] != EQ,
        j < part.len() ==> part[j] == EQ,
    ensures
        j < part.len() ==> pair_of(part) == (part.take(j), part.skip(j + 1)),
        j == part.len() ==> pair_of(part) == (part, Seq::<u8>::empty()),
    decreases part.len(),
{
    if part.len() == 0 {
        assert(pair_of(part) =~= (part, Seq::<u8>::empty()));
    } else if j == 0 {
        if part[0] == EQ {
            assert(part.take(0) =~= Seq::<u8>::empty());
            assert(pair_of(part) =~= (part.take(0), part.skip(1)));
        } else {
            assert(j < part.len() ==> part[j] == EQ);
            assert(j == 0 && part.len() > 0);
            // j == 0 < len and part[0] != EQ contradicts the requirement
            assert(false);
        }
    } else {
        assert(part[0] != EQ);
        let r = pair_of(part.skip(1));
        lemma_pair_of_at(part.skip(1), j - 1);
        if j < part.len() {
            assert(part.take(j) =~= seq![part[0]] + part.skip(1).take(j - 1));
            assert(part.skip(j + 1) =~= part.skip(1).skip(j));
            assert(pair_of(part) =~= (part.take(j), part.skip(j + 1)));
        } else {
            assert(seq![part[0]] + part.skip(1) =~= part);
            assert(pair_of(part) =~= (part, Seq::<u8>::empty()));
        }
    }
}

/// A component built as `key=value` parses back to its key and value,
/// provided the key holds no `=`.
pub proof fn lemma_pair_of_built(key: Seq<u8>, value: Seq<u8>)
    requires
        free_of(key, EQ),
    ensures
        pair_of(key + seq![EQ] + value) == (key, value),
{
    let part = key + seq![EQ] + value;
    assert(part[key.len() as int] == EQ);
    lemma_pair_of_at(part, key.len() as int);
    assert(part.take(key.len() as int) =~= key);
    assert(part.skip(key.len() as int + 1) =~= value);
}

/// Lookup ignores a prefix of pairs whose keys all differ from the key.
pub proof fn lemma_lookup_skip(ps: Seq<(Seq<u8>, Seq<u8>)>, key: Seq<u8>, n: int)
    requires
        0 <= n <= ps.len(),
        forall|t: int| 0 <= t < n ==> (#[trigger] ps[t]).0 != key,
    ensures
        lookup_pairs(ps, key) == lookup_pairs(ps.skip(n), key),
    decreases n,
{
    if n == 0 {
        assert(ps.skip(0) =~= ps);
    } else {
        assert(ps[0].0 != key);
        assert(forall|t: int| 0 <= t < n - 1 ==> (#[trigger] ps.skip(1)[t]).0 != key);
        lemma_lookup_skip(ps.skip(1), key, n - 1);
        assert(ps.skip(1).skip(n - 1) =~= ps.skip(n));
    }
}

/// Byte-wise equality of two byte strings.
pub fn bytes_eq(a: &[u8], b: &[u8]) -> (r: bool)
    ensures
        r == (a@ == b@),
{
    if a.len() != b.len() {
        assert(a@ != b@);
        return false;
    }
    let mut i: usize = 0;
    while i < a.len()
        invariant
            i <= a.len(),
            a@.len() == b@.len(),
            forall|t: int| 0 <= t < i ==> a@[t] == b@[t],
        decreases a.len() - i,
    {
        if a[i] != b[i] {
            return false;
        }
        i += 1;
    }
    proof {
        assert(a@ =~= b@);
    }
    true
}

/// Split a byte string on a separator; mirrors `split_on`.
pub fn split_bytes(s: &[u8], sep: u8) -> (r: Vec<Vec<u8>>)
    ensures
        r@.len() == split_on(s@, sep).len(),
        forall|j: int| 0 <= j < r@.len() ==> (#[trigger] r@[j])@ == split_on(s@, sep)[j],
{
    proof {
        assert(s@.skip(0) =~= s@);
    }
    split_bytes_from(s, 0, sep)
}

fn split_bytes_from(s: &[u8], i: usize, sep: u8) -> (r: Vec<Vec<u8>>)
    requires
        i <= s.len(),
    ensures
        r@.len() == split_on(s@.skip(i as int), sep).len(),
        forall|j: int|
            0 <= j < r@.len() ==> (#[trigger] r@[j])@ == split_on(s@.skip(i as int), sep)[j],
    decreases s.len() - i,
{
    let ghost pre = s@.skip(i as int);
    if i == s.len() {
        assert(pre =~= Seq::<u8>::empty());
        let mut r: Vec<Vec<u8>> = Vec::new();
        r.push(Vec::new());
        r
    } else {
        assert(pre[0] == s@[i as int]);
        assert(pre.skip(1) =~= s@.skip(i + 1));
        let mut rest = split_bytes_from(s, i + 1, sep);
        if s[i] == sep {
            rest.insert(0, Vec::new());
            rest
        } else {
            proof {
                lemma_split_len(s@.skip(i + 1), sep);
            }
            let mut first = rest.remove(0);
            first.insert(0, s[i]);
            rest.insert(0, first);
            proof {
                assert(rest@[0]@ =~= seq![pre[0]] + split_on(pre.skip(1), sep)[0]);
                assert forall|j: int| 0 <= j < rest@.len() implies (#[trigger] rest@[j])@
                    == split_on(pre, sep)[j] by {
                    if j > 0 {
                        assert(rest@[j]@ == split_on(pre.skip(1), sep).skip(1)[j - 1]);
                    }
                }
            }
            rest
        }
    }
}

/// Split one `k=v` component at its first `=`; mirrors `pair_of`.
pub fn split_pair(part: &[u8]) -> (r: (Vec<u8>, Vec<u8>))
    ensures
        (r.0@, r.1@) == pair_of(part@),
{
    let mut j: usize = 0;
    while j < part.len() && part[j] != EQ
        invariant
            j <= part.len(),
            forall|t: int| 0 <= t < j ==> part@[t] != EQ,
        decreases part.len() - j,
    {
        j += 1;
    }
    proof {
        lemma_pair_of_at(part@, j as int);
    }
    if j < part.len() {
        let k = vstd::slice::slice_to_vec(vstd::slice::slice_subrange(part, 0, j));
        let v = vstd::slice::slice_to_vec(vstd::slice::slice_subrange(part, j + 1, part.len()));
        proof {
            assert(part@.subrange(0, j as int) =~= part@.take(j as int));
            assert(part@.subrange(j + 1, part@.len() as int) =~= part@.skip(j + 1));
        }
        (k, v)
    } else {
        let k = vstd::slice::slice_to_vec(part);
        (k, Vec::new())
    }
}

/// The raw value of the first query parameter with the given key.
pub fn find_param(q: &[u8], key: &[u8]) -> (r: Option<Vec<u8>>)
    ensures
        match r {
            Some(v) => query_param(q@, key@) == Some(v@),
            None => query_param(q@, key@) is None,
        },
{
    let parts = split_bytes(q, AMP);
    let ghost pairs = query_pairs(q@);
    assert(pairs.len() == parts@.len());
    let mut idx: usize = 0;
    while idx < parts.len()
        invariant
            idx <= parts@.len(),
            parts@.len() == pairs.len(),
            pairs == query_pairs(q@),
            forall|j: int| 0 <= j < parts@.len() ==> (#[trigger] parts@[j])@ == split_on(q@, AMP)[j],
            forall|t: int| 0 <= t < idx ==> (#[trigger] pairs[t]).0 != key@,
        decreases parts@.len() - idx,
    {
        let (k, v) = split_pair(parts[idx].as_slice());
        assert(pairs[idx as int] == pair_of(parts@[idx as int]@));
        if bytes_eq(k.as_slice(), key) {
            proof {
                lemma_lookup_skip(pairs, key@, idx as int);
                assert(pairs.skip(idx as int)[0] == pairs[idx as int]);
            }
            return Some(v);
        }
        idx += 1;
    }
    proof {
        lemma_lookup_skip(pairs, key@, pairs.len() as int);
        assert(pairs.skip(pairs.len() as int) =~= Seq::<(Seq<u8>, Seq<u8>)>::empty());
    }
    None
}

/// The percent-decoded value of the first query parameter with the given
/// key: `None` when the key is absent or its value is malformed.
pub fn find_param_decoded(q: &[u8], key: &[u8]) -> (r: Option<Vec<u8>>)
    ensures
        match r {
            Some(v) => exists|raw: Seq<u8>|
                query_param(q@, key@) == Some(raw) && pct_decoded(raw) == Some(v@),
            None => query_param(q@, key@) matches Some(raw) ==> pct_decoded(raw) is None,
        },
{
    match find_param(q, key) {
        Some(raw) => {
            match crate::urlenc::pct_decode(raw.as_slice()) {
                Some(v) => Some(v),
                None => None,
            }
        },
        None => None,
    }
}

/// Render key/value pairs as a query string, percent-encoding each value.
pub open spec fn built_query(pairs: Seq<(Seq<u8>, Seq<u8>)>) -> Seq<u8> {
    join_with(pairs.map_values(|p: (Seq<u8>, Seq<u8>)| p.0 + seq![EQ] + pct_encoded(p.1)), AMP)
}

/// A key fit for `built_query`: it holds no separator byte.
pub open spec fn key_wf(k: Seq<u8>) -> bool {
    free_of(k, AMP) && free_of(k, EQ)
}

/// Build a query string out of key/value pairs, percent-encoding values.
pub fn build_query(pairs: &Vec<(Vec<u8>, Vec<u8>)>) -> (r: Vec<u8>)
    ensures
        r@ == built_query(pairs.deep_view()),
{
    let ghost goal = pairs.deep_view().map_values(
        |p: (Seq<u8>, Seq<u8>)| p.0 + seq![EQ] + pct_encoded(p.1),
    );
    let mut out: Vec<u8> = Vec::new();
    let mut idx: usize = 0;
    proof {
        assert(pairs.deep_view().len() == pairs@.len());
    }
    while idx < pairs.len()
        invariant
            idx <= pairs@.len(),
            goal == pairs.deep_view().map_values(
                |p: (Seq<u8>, Seq<u8>)| p.0 + seq![EQ] + pct_encoded(p.1),
            ),
            goal.len() == pairs@.len(),
            forall|j: int|
                0 <= j < pairs@.len() ==> pairs.deep_view()[j] == ((#[trigger] pairs@[j]).0@,
                pairs@[j].1@),
            out@ == join_with(goal.take(idx as int), AMP) + if idx == 0 || idx
                == pairs@.len() {
                Seq::<u8>::empty()
            } else {
                seq![AMP]
            },
        decreases pairs@.len() - idx,
    {
        let p = &pairs[idx];
        let enc = crate::urlenc::pct_encode(p.1.as_slice());
        let mut piece: Vec<u8> = Vec::new();
        piece.extend_from_slice(p.0.as_slice());
        piece.push(EQ);
        piece.extend_from_slice(enc.as_slice());
        assert(piece@ =~= goal[idx as int]);
        out.extend_from_slice(piece.as_slice());
        if idx + 1 < pairs.len() {
            out.push(AMP);
        }
        proof {
            lemma_join_take_snoc(goal, AMP, idx as int);
            if idx + 1 < pairs@.len() {
                assert(out@ =~= join_with(goal.take(idx + 1), AMP) + seq![AMP]);
            } else {
                assert(out@ =~= join_with(goal.take(idx + 1), AMP));
            }
        }
        idx += 1;
    }
    proof {
        if pairs@.len() == 0 {
            assert(goal.take(0) =~= goal);
        } else {
            assert(goal.take(pairs@.len() as int) =~= goal);
        }
        assert(out@ =~= join_with(goal, AMP));
    }
    out
}

pub proof fn lemma_join_take_snoc(parts: Seq<Seq<u8>>, sep: u8, i: int)
    requires
        0 <= i < parts.len(),
    ensures
        i == 0 ==> join_with(parts.take(1), sep) == parts[0],
        i > 0 ==> join_with(parts.take(i + 1), sep) == join_with(parts.take(i), sep) + seq![sep]
            + parts[i],
    decreases i,
{
    if i == 0 {
        assert(parts.take(1).len() == 1);
        assert(join_with(parts.take(1), sep) == parts.take(1)[0]);
        assert(parts.take(1)[0] == parts[0]);
    } else {
        lemma_join_take_snoc(parts, sep, i - 1);
        lemma_join_snoc(parts.take(i), sep, parts[i]);
        assert(parts.take(i + 1) =~= parts.take(i) + seq![parts[i]]);
    }
}

pub proof fn lemma_join_snoc(parts: Seq<Seq<u8>>, sep: u8, last: Seq<u8>)
    requires
        parts.len() >= 1,
    ensures
        join_with(parts + seq![last], sep) == join_with(parts, sep) + seq![sep] + last,
    decreases parts.len(),
{
    let whole = parts + seq![last];
    if parts.len() == 1 {
        assert(whole.len() == 2);
        assert(whole[0] == parts[0]);
        assert(whole.skip(1) =~= seq![last]);
        assert(join_with(whole.skip(1), sep) == last);
        assert(join_with(whole, sep) =~= join_with(parts, sep) + seq![sep] + last);
    } else {
        assert(whole.skip(1) =~= parts.skip(1) + seq![last]);
        lemma_join_snoc(parts.skip(1), sep, last);
        assert(whole[0] == parts[0]);
        assert(join_with(whole, sep) =~= join_with(parts, sep) + seq![sep] + last);
    }
}

/// Law: parsing a built query yields exactly the pairs that built it, with
/// each value percent-encoded; looked-up values decode to the originals.
pub proof fn lemma_built_query_round_trip(pairs: Seq<(Seq<u8>, Seq<u8>)>)
    requires
        pairs.len() >= 1,
        forall|i: int| 0 <= i < pairs.len() ==> key_wf((#[trigger] pairs[i]).0),
    ensures
        query_pairs(built_query(pairs)) == pairs.map_values(
            |p: (Seq<u8>, Seq<u8>)| (p.0, pct_encoded(p.1)),
        ),
    decreases pairs.len(),
{
    let parts = pairs.map_values(|p: (Seq<u8>, Seq<u8>)| p.0 + seq![EQ] + pct_encoded(p.1));
    assert forall|i: int| 0 <= i < parts.len() implies free_of(#[trigger] parts[i], AMP) by {
        crate::urlenc::lemma_pct_encoded_bytes(pairs[i].1);
        let part = parts[i];
        assert forall|t: int| 0 <= t < part.len() implies part[t] != AMP by {
            let k = pairs[i].0;
            let e = pct_encoded(pairs[i].1);
            if t < k.len() {
                assert(part[t] == k[t]);
            } else if t == k.len() {
                assert(part[t] == EQ);
            } else {
                assert(part[t] == e[t - k.len() - 1]);
            }
        }
    }
    lemma_join_split(parts, AMP);
    assert forall|i: int| 0 <= i < parts.len() implies pair_of(#[trigger] parts[i]) == (
        pairs[i].0,
        pct_encoded(pairs[i].1),
    ) by {
        lemma_pair_of_built(pairs[i].0, pct_encoded(pairs[i].1));
    }
    assert(query_pairs(built_query(pairs)) =~= pairs.map_values(
        |p: (Seq<u8>, Seq<u8>)| (p.0, pct_encoded(p.1)),
    ));
}

} // verus!
