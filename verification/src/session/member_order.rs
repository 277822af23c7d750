//! Why canonical text does not depend on the order of an object's members.
//!
//! Members are written sorted by key. For an object whose keys are
//! distinct, the sorted sequence of keys is determined by the set of keys
//! alone, so two objects with the same keys and, under each key, values of
//! the same canonical text have the same canonical text. By induction on
//! the value, that holds at every depth, and so of the payload hash.

use vstd::prelude::*;

use crate::json::Json;

use super::hash::{
    canonical, canonical_items, canonical_member, canonical_members, insert_idx, json_quote, member_keys, member_order,
    payload_bytes, payload_hash_spec, sort_idx_upto, str_lt,
};

verus! {

// ---------------------------------------------------------------------------
// The key order
// ---------------------------------------------------------------------------

proof fn lemma_lt_irreflexive(a: Seq<char>)
    ensures
        !str_lt(a, a),
    decreases a.len(),
{
    if a.len() > 0 {
        lemma_lt_irreflexive(a.drop_first());
    }
}

proof fn lemma_lt_transitive(a: Seq<char>, b: Seq<char>, c: Seq<char>)
    requires
        str_lt(a, b),
        str_lt(b, c),
    ensures
        str_lt(a, c),
    decreases a.len(),
{
    if a.len() > 0 && b.len() > 0 && c.len() > 0 && a[0] == b[0] && b[0] == c[0] {
        lemma_lt_transitive(a.drop_first(), b.drop_first(), c.drop_first());
    }
}

proof fn lemma_lt_total(a: Seq<char>, b: Seq<char>)
    requires
        a != b,
    ensures
        str_lt(a, b) || str_lt(b, a),
    decreases a.len(),
{
    if a.len() > 0 && b.len() > 0 {
        if a[0] == b[0] {
            if a.drop_first() == b.drop_first() {
                assert(a == seq![a[0]] + a.drop_first());
                assert(b == seq![b[0]] + b.drop_first());
            }
            lemma_lt_total(a.drop_first(), b.drop_first());
        } else {
            let ca: char = a[0];
            let cb: char = b[0];
            if (ca as u32) == (cb as u32) {
                vstd::utf8::char_u32_cast(ca, ca as u32);
                vstd::utf8::char_u32_cast(cb, cb as u32);
            }
        }
    } else if a.len() == 0 && b.len() == 0 {
        assert(a == b);
    }
}

/// `a` sorts no later than `b`.
pub open spec fn key_le(a: Seq<char>, b: Seq<char>) -> bool {
    !str_lt(b, a)
}

proof fn lemma_le_transitive(a: Seq<char>, b: Seq<char>, c: Seq<char>)
    requires
        key_le(a, b),
        key_le(b, c),
    ensures
        key_le(a, c),
{
    if str_lt(c, a) {
        if a == b {
        } else {
            lemma_lt_total(a, b);
            lemma_lt_transitive(c, a, b);
        }
    }
}

// ---------------------------------------------------------------------------
// The index sort
// ---------------------------------------------------------------------------

/// `o` lists indices whose keys never decrease.
pub open spec fn sorted_by(keys: Seq<Seq<char>>, o: Seq<int>) -> bool {
    forall|i: int, j: int| 0 <= i < j < o.len() ==> key_le(keys[#[trigger] o[i]], keys[#[trigger] o[j]])
}

/// Where `insert_idx` puts `x`, and what it knows of its neighbours.
proof fn lemma_insert_idx_pos(keys: Seq<Seq<char>>, sorted: Seq<int>, x: int) -> (p: int)
    ensures
        0 <= p <= sorted.len(),
        insert_idx(keys, sorted, x) == sorted.insert(p, x),
        forall|k: int| p <= k < sorted.len() ==> str_lt(keys[x], keys[#[trigger] sorted[k]]),
        p == 0 || !str_lt(keys[x], keys[sorted[p - 1]]),
    decreases sorted.len(),
{
    if sorted.len() == 0 {
        assert(sorted.insert(0, x) == seq![x]);
        0
    } else if !str_lt(keys[x], keys[sorted.last()]) {
        assert(sorted.insert(sorted.len() as int, x) == sorted.push(x));
        sorted.len() as int
    } else {
        let d = sorted.drop_last();
        let p = lemma_insert_idx_pos(keys, d, x);
        assert(d.insert(p, x).push(sorted.last()) == sorted.insert(p, x));
        assert forall|k: int| p <= k < sorted.len() implies str_lt(keys[x], keys[#[trigger] sorted[k]]) by {
            if k < d.len() {
                assert(sorted[k] == d[k]);
            }
        }
        if p > 0 {
            assert(sorted[p - 1] == d[p - 1]);
        }
        p
    }
}

/// The index sort lists each of `0..n` once, with keys in order.
proof fn lemma_sort_idx(keys: Seq<Seq<char>>, n: nat)
    ensures
        sort_idx_upto(keys, n).len() == n,
        forall|k: int| 0 <= k < n ==> 0 <= #[trigger] sort_idx_upto(keys, n)[k] < n,
        forall|a: int, b: int| 0 <= a < b < n ==> #[trigger] sort_idx_upto(keys, n)[a] != #[trigger] sort_idx_upto(keys, n)[b],
        forall|j: int| 0 <= j < n ==> #[trigger] sort_idx_upto(keys, n).contains(j),
        sorted_by(keys, sort_idx_upto(keys, n)),
    decreases n,
{
    if n > 0 {
        let m = (n - 1) as nat;
        let s = sort_idx_upto(keys, m);
        lemma_sort_idx(keys, m);
        let x = n - 1;
        let p = lemma_insert_idx_pos(keys, s, x);
        let r = sort_idx_upto(keys, n);
        assert(r == s.insert(p, x));
        assert forall|k: int| 0 <= k < n implies 0 <= #[trigger] r[k] < n by {
            if k < p {
                assert(r[k] == s[k]);
            } else if k > p {
                assert(r[k] == s[k - 1]);
            }
        }
        assert forall|a: int, b: int| 0 <= a < b < n implies #[trigger] r[a] != #[trigger] r[b] by {
            if a < p && b < p {
                assert(r[a] == s[a] && r[b] == s[b]);
            } else if a < p && b == p {
                assert(r[a] == s[a]);
            } else if a < p {
                assert(r[a] == s[a] && r[b] == s[b - 1]);
            } else if a == p {
                assert(r[b] == s[b - 1]);
            } else {
                assert(r[a] == s[a - 1] && r[b] == s[b - 1]);
            }
        }
        assert forall|j: int| 0 <= j < n implies #[trigger] r.contains(j) by {
            if j == x {
                assert(r[p] == x);
            } else {
                assert(s.contains(j));
                let k = choose|k: int| 0 <= k < s.len() && s[k] == j;
                if k < p {
                    assert(r[k] == s[k]);
                } else {
                    assert(r[k + 1] == s[k]);
                }
            }
        }
        assert forall|a: int, b: int| 0 <= a < b < r.len() implies key_le(keys[#[trigger] r[a]], keys[#[trigger] r[b]]) by {
            if a < p && b < p {
                assert(r[a] == s[a] && r[b] == s[b]);
            } else if a < p && b == p {
                assert(r[a] == s[a]);
                if a < p - 1 {
                    lemma_le_transitive(keys[s[a]], keys[s[p - 1]], keys[x]);
                }
            } else if a < p {
                assert(r[a] == s[a] && r[b] == s[b - 1]);
            } else if a == p {
                assert(r[b] == s[b - 1]);
                lemma_lt_irreflexive(keys[x]);
                if str_lt(keys[s[b - 1]], keys[x]) {
                    lemma_lt_transitive(keys[x], keys[s[b - 1]], keys[x]);
                }
            } else {
                assert(r[a] == s[a - 1] && r[b] == s[b - 1]);
            }
        }
    }
}

// ---------------------------------------------------------------------------
// The members in written order
// ---------------------------------------------------------------------------

/// The members of `ms` in the order `o`.
pub open spec fn arranged(ms: Seq<(Seq<char>, Json)>, o: Seq<int>) -> Seq<(Seq<char>, Json)> {
    o.map_values(|j: int| ms[j])
}

/// `"key":value` for a member.
pub open spec fn member_text(m: (Seq<char>, Json)) -> Seq<char> {
    json_quote(m.0) + seq![':'] + canonical(m.1)
}

/// The first `n` members of `s`, written and comma-separated.
pub open spec fn members_text(s: Seq<(Seq<char>, Json)>, n: int) -> Seq<char>
    decreases n,
{
    if n <= 0 || n > s.len() {
        Seq::empty()
    } else if n == 1 {
        member_text(s[0])
    } else {
        members_text(s, n - 1) + seq![','] + member_text(s[n - 1])
    }
}

proof fn lemma_members_text(ms: Seq<(Seq<char>, Json)>, o: Seq<int>, n: int)
    requires
        0 <= n <= o.len(),
        forall|k: int| 0 <= k < o.len() ==> 0 <= #[trigger] o[k] < ms.len(),
    ensures
        canonical_members(ms, o, n) == members_text(arranged(ms, o), n),
    decreases n,
{
    let s = arranged(ms, o);
    if n >= 1 {
        assert(s[n - 1] == ms[o[n - 1]]);
        assert(canonical_member(ms, o[n - 1]) == member_text(s[n - 1]));
    }
    if n > 1 {
        lemma_members_text(ms, o, n - 1);
    }
}

/// Keys at different positions differ.
pub open spec fn distinct_keys(ms: Seq<(Seq<char>, Json)>) -> bool {
    forall|i: int, j: int| 0 <= i < j < ms.len() ==> #[trigger] ms[i].0 != #[trigger] ms[j].0
}

/// `s` is strictly increasing by key.
pub open spec fn strictly_sorted(s: Seq<(Seq<char>, Json)>) -> bool {
    forall|i: int, j: int| 0 <= i < j < s.len() ==> str_lt(#[trigger] s[i].0, #[trigger] s[j].0)
}

/// The members in written order: strictly sorted by key, and exactly the
/// members of `ms`.
proof fn lemma_written_order(ms: Seq<(Seq<char>, Json)>)
    requires
        distinct_keys(ms),
    ensures
        strictly_sorted(arranged(ms, member_order(ms))),
        arranged(ms, member_order(ms)).len() == ms.len(),
        forall|m: (Seq<char>, Json)| #[trigger] arranged(ms, member_order(ms)).contains(m) <==> ms.contains(m),
        forall|k: int| 0 <= k < member_order(ms).len() ==> 0 <= #[trigger] member_order(ms)[k] < ms.len(),
{
    let keys = member_keys(ms);
    let n = ms.len();
    let o = member_order(ms);
    lemma_sort_idx(keys, n);
    let s = arranged(ms, o);
    assert forall|i: int, j: int| 0 <= i < j < s.len() implies str_lt(#[trigger] s[i].0, #[trigger] s[j].0) by {
        assert(s[i] == ms[o[i]] && s[j] == ms[o[j]]);
        assert(keys[o[i]] == ms[o[i]].0 && keys[o[j]] == ms[o[j]].0);
        assert(o[i] != o[j]);
        if o[i] < o[j] {
            assert(ms[o[i]].0 != ms[o[j]].0);
        } else {
            assert(ms[o[j]].0 != ms[o[i]].0);
        }
        lemma_lt_total(s[i].0, s[j].0);
    }
    assert forall|m: (Seq<char>, Json)| #[trigger] s.contains(m) implies ms.contains(m) by {
        let k = choose|k: int| 0 <= k < s.len() && s[k] == m;
        assert(ms[o[k]] == m);
    }
    assert forall|m: (Seq<char>, Json)| ms.contains(m) implies #[trigger] s.contains(m) by {
        let j = choose|j: int| 0 <= j < ms.len() && ms[j] == m;
        assert(o.contains(j));
        let k = choose|k: int| 0 <= k < o.len() && o[k] == j;
        assert(s[k] == m);
    }
}

/// Two strictly sorted sequences holding the same members are equal.
proof fn lemma_sorted_unique(s1: Seq<(Seq<char>, Json)>, s2: Seq<(Seq<char>, Json)>)
    requires
        strictly_sorted(s1),
        strictly_sorted(s2),
        forall|m: (Seq<char>, Json)| #![trigger s1.contains(m)] #![trigger s2.contains(m)] s1.contains(m) <==> s2.contains(m),
    ensures
        s1 == s2,
    decreases s1.len(),
{
    if s1.len() == 0 {
        if s2.len() > 0 {
            assert(s2.contains(s2[0]));
        }
        assert(s1 =~= s2);
    } else if s2.len() == 0 {
        assert(s1.contains(s1[0]));
    } else {
        assert(s1.contains(s1[0]));
        assert(s2.contains(s1[0]));
        let j = choose|j: int| 0 <= j < s2.len() && s2[j] == s1[0];
        assert(s2.contains(s2[0]));
        assert(s1.contains(s2[0]));
        let i = choose|i: int| 0 <= i < s1.len() && s1[i] == s2[0];
        if j > 0 {
            // s2[0] < s2[j] = s1[0] <= s1[i] = s2[0]
            assert(str_lt(s2[0].0, s2[j].0));
            if i > 0 {
                assert(str_lt(s1[0].0, s1[i].0));
                lemma_lt_transitive(s2[0].0, s1[0].0, s2[0].0);
            }
            lemma_lt_irreflexive(s2[0].0);
        }
        assert(s1[0] == s2[0]);
        let t1 = s1.drop_first();
        let t2 = s2.drop_first();
        assert forall|m: (Seq<char>, Json)| #![trigger t1.contains(m)] #![trigger t2.contains(m)] t1.contains(m) <==> t2.contains(m) by {
            if t1.contains(m) {
                let k = choose|k: int| 0 <= k < t1.len() && t1[k] == m;
                assert(s1[k + 1] == m);
                assert(str_lt(s1[0].0, s1[k + 1].0));
                lemma_lt_irreflexive(s1[0].0);
                assert(m != s1[0]);
                assert(s1.contains(m));
                assert(s2.contains(m));
                let q = choose|q: int| 0 <= q < s2.len() && s2[q] == m;
                assert(q != 0);
                assert(t2[q - 1] == m);
            }
            if t2.contains(m) {
                let k = choose|k: int| 0 <= k < t2.len() && t2[k] == m;
                assert(s2[k + 1] == m);
                assert(str_lt(s2[0].0, s2[k + 1].0));
                lemma_lt_irreflexive(s2[0].0);
                assert(m != s2[0]);
                assert(s2.contains(m));
                assert(s1.contains(m));
                let q = choose|q: int| 0 <= q < s1.len() && s1[q] == m;
                assert(q != 0);
                assert(t1[q - 1] == m);
            }
        }
        assert(strictly_sorted(t1)) by {
            assert forall|a: int, b: int| 0 <= a < b < t1.len() implies str_lt(#[trigger] t1[a].0, #[trigger] t1[b].0) by {
                assert(t1[a] == s1[a + 1] && t1[b] == s1[b + 1]);
            }
        }
        assert(strictly_sorted(t2)) by {
            assert forall|a: int, b: int| 0 <= a < b < t2.len() implies str_lt(#[trigger] t2[a].0, #[trigger] t2[b].0) by {
                assert(t2[a] == s2[a + 1] && t2[b] == s2[b + 1]);
            }
        }
        lemma_sorted_unique(t1, t2);
        assert(s1 == seq![s1[0]] + t1);
        assert(s2 == seq![s2[0]] + t2);
    }
}

// ---------------------------------------------------------------------------
// The laws
// ---------------------------------------------------------------------------

/// Where the key `k` first occurs in `ms` (`ms.len()` when it does not).
pub open spec fn key_index(ms: Seq<(Seq<char>, Json)>, k: Seq<char>) -> int
    decreases ms.len(),
{
    if ms.len() == 0 {
        0
    } else if ms[0].0 == k {
        0
    } else {
        1 + key_index(ms.drop_first(), k)
    }
}

proof fn lemma_key_index(ms: Seq<(Seq<char>, Json)>, k: Seq<char>)
    ensures
        0 <= key_index(ms, k) <= ms.len(),
        key_index(ms, k) < ms.len() ==> ms[key_index(ms, k)].0 == k,
        forall|j: int| 0 <= j < ms.len() && #[trigger] ms[j].0 == k ==> key_index(ms, k) <= j,
    decreases ms.len(),
{
    if ms.len() > 0 && ms[0].0 != k {
        let t = ms.drop_first();
        lemma_key_index(t, k);
        assert forall|j: int| 0 <= j < ms.len() && #[trigger] ms[j].0 == k implies key_index(ms, k) <= j by {
            assert(j != 0);
            assert(t[j - 1] == ms[j]);
        }
    }
}

/// `a` and `b` are the same JSON value up to the order of object members,
/// at every depth: arrays hold equivalent items in the same order, and
/// objects (each with distinct keys) have the same keys, with equivalent
/// values under each key.
pub open spec fn same_but_member_order(a: Json, b: Json) -> bool
    decreases a,
{
    match a {
        Json::Array(x) => match b {
            Json::Array(y) => x.len() == y.len() && forall|i: int|
                0 <= i < x.len() ==> same_but_member_order(#[trigger] x[i], y[i]),
            _ => false,
        },
        Json::Object(m1) => match b {
            Json::Object(m2) => {
                &&& distinct_keys(m1)
                &&& distinct_keys(m2)
                &&& forall|i: int|
                    0 <= i < m1.len() ==> key_index(m2, #[trigger] m1[i].0) < m2.len()
                        && same_but_member_order(m1[i].1, m2[key_index(m2, m1[i].0)].1)
                &&& forall|j: int| 0 <= j < m2.len() ==> key_index(m1, #[trigger] m2[j].0) < m1.len()
            },
            _ => false,
        },
        _ => a == b,
    }
}

proof fn lemma_items_text(x: Seq<Json>, y: Seq<Json>, n: int)
    requires
        x.len() == y.len(),
        0 <= n <= x.len(),
        forall|i: int| 0 <= i < x.len() ==> canonical(#[trigger] x[i]) == canonical(y[i]),
    ensures
        canonical_items(x, n) == canonical_items(y, n),
    decreases n,
{
    if n > 1 {
        lemma_items_text(x, y, n - 1);
    }
}

proof fn lemma_members_text_eq(s1: Seq<(Seq<char>, Json)>, s2: Seq<(Seq<char>, Json)>, n: int)
    requires
        s1.len() == s2.len(),
        0 <= n <= s1.len(),
        forall|k: int| 0 <= k < s1.len() ==> member_text(#[trigger] s1[k]) == member_text(s2[k]),
    ensures
        members_text(s1, n) == members_text(s2, n),
    decreases n,
{
    if n > 1 {
        lemma_members_text_eq(s1, s2, n - 1);
    }
}

/// The keys of `s`, each paired with `null`.
spec fn keys_only(s: Seq<(Seq<char>, Json)>) -> Seq<(Seq<char>, Json)> {
    s.map_values(|m: (Seq<char>, Json)| (m.0, Json::Null))
}

/// Two objects whose members pair up by key with values of the same
/// canonical text have the same canonical text.
#[verifier::rlimit(30)]
proof fn lemma_object_text(m1: Seq<(Seq<char>, Json)>, m2: Seq<(Seq<char>, Json)>)
    requires
        distinct_keys(m1),
        distinct_keys(m2),
        forall|i: int| 0 <= i < m1.len() ==> key_index(m2, #[trigger] m1[i].0) < m2.len(),
        forall|i: int| 0 <= i < m1.len() ==> canonical(#[trigger] m1[i].1) == canonical(m2[key_index(m2, m1[i].0)].1),
        forall|j: int| 0 <= j < m2.len() ==> key_index(m1, #[trigger] m2[j].0) < m1.len(),
    ensures
        canonical(Json::Object(m1)) == canonical(Json::Object(m2)),
{
    lemma_written_order(m1);
    lemma_written_order(m2);
    let s1 = arranged(m1, member_order(m1));
    let s2 = arranged(m2, member_order(m2));
    let t1 = keys_only(s1);
    let t2 = keys_only(s2);
    assert(strictly_sorted(t1)) by {
        assert forall|a: int, b: int| 0 <= a < b < t1.len() implies str_lt(#[trigger] t1[a].0, #[trigger] t1[b].0) by {
            assert(t1[a].0 == s1[a].0 && t1[b].0 == s1[b].0);
        }
    }
    assert(strictly_sorted(t2)) by {
        assert forall|a: int, b: int| 0 <= a < b < t2.len() implies str_lt(#[trigger] t2[a].0, #[trigger] t2[b].0) by {
            assert(t2[a].0 == s2[a].0 && t2[b].0 == s2[b].0);
        }
    }
    assert forall|m: (Seq<char>, Json)| #![trigger t1.contains(m)] #![trigger t2.contains(m)] t1.contains(m) <==> t2.contains(m) by {
        if t1.contains(m) {
            let k = choose|k: int| 0 <= k < t1.len() && t1[k] == m;
            assert(s1.contains(s1[k]));
            let i = choose|i: int| 0 <= i < m1.len() && m1[i] == s1[k];
            let j = key_index(m2, m1[i].0);
            lemma_key_index(m2, m1[i].0);
            assert(m2.contains(m2[j]));
            assert(s2.contains(m2[j]));
            let q = choose|q: int| 0 <= q < s2.len() && s2[q] == m2[j];
            assert(t2[q] == m);
        }
        if t2.contains(m) {
            let k = choose|k: int| 0 <= k < t2.len() && t2[k] == m;
            assert(s2.contains(s2[k]));
            let j = choose|j: int| 0 <= j < m2.len() && m2[j] == s2[k];
            let i = key_index(m1, m2[j].0);
            lemma_key_index(m1, m2[j].0);
            assert(m1.contains(m1[i]));
            assert(s1.contains(m1[i]));
            let q = choose|q: int| 0 <= q < s1.len() && s1[q] == m1[i];
            assert(t1[q] == m);
        }
    }
    lemma_sorted_unique(t1, t2);
    assert(s1.len() == t1.len() && s2.len() == t2.len());
    assert forall|k: int| 0 <= k < s1.len() implies member_text(#[trigger] s1[k]) == member_text(s2[k]) by {
        assert(t1[k] == t2[k]);
        assert(s1[k].0 == s2[k].0);
        assert(s1.contains(s1[k]));
        let i = choose|i: int| 0 <= i < m1.len() && m1[i] == s1[k];
        let j = key_index(m2, m1[i].0);
        lemma_key_index(m2, m1[i].0);
        assert(s2.contains(s2[k]));
        let q = choose|q: int| 0 <= q < m2.len() && m2[q] == s2[k];
        if q != j {
            if q < j {
                assert(m2[q].0 != m2[j].0);
            } else {
                assert(m2[j].0 != m2[q].0);
            }
        }
    }
    lemma_members_text_eq(s1, s2, s1.len() as int);
    lemma_members_text(m1, member_order(m1), m1.len() as int);
    lemma_members_text(m2, member_order(m2), m2.len() as int);
}

/// Canonical text does not depend on the order of object members: two
/// values that are the same up to that order, at any depth, have the same
/// canonical text.
pub proof fn lemma_canonical_ignores_member_order(a: Json, b: Json)
    requires
        same_but_member_order(a, b),
    ensures
        canonical(a) == canonical(b),
    decreases a,
{
    match a {
        Json::Array(x) => {
            let y = b->Array_0;
            assert(b == Json::Array(y));
            assert(forall|i: int| 0 <= i < x.len() ==> same_but_member_order(#[trigger] x[i], y[i]));
            assert forall|i: int| 0 <= i < x.len() implies canonical(#[trigger] x[i]) == canonical(y[i]) by {
                assert(same_but_member_order(x[i], y[i]));
                lemma_canonical_ignores_member_order(x[i], y[i]);
            }
            lemma_items_text(x, y, x.len() as int);
        },
        Json::Object(m1) => {
            let m2 = b->Object_0;
            assert(b == Json::Object(m2));
            assert(forall|i: int|
                0 <= i < m1.len() ==> key_index(m2, #[trigger] m1[i].0) < m2.len()
                    && same_but_member_order(m1[i].1, m2[key_index(m2, m1[i].0)].1));
            assert forall|i: int| 0 <= i < m1.len() implies canonical(#[trigger] m1[i].1)
                == canonical(m2[key_index(m2, m1[i].0)].1) by {
                assert(key_index(m2, m1[i].0) < m2.len());
                lemma_canonical_ignores_member_order(m1[i].1, m2[key_index(m2, m1[i].0)].1);
            }
            lemma_object_text(m1, m2);
        },
        _ => {},
    }
}

/// The payload hash does not depend on the order of object members in the
/// arguments or the result, at any depth.
pub proof fn lemma_payload_hash_ignores_member_order(args1: Json, args2: Json, result1: Option<Json>, result2: Option<Json>)
    requires
        same_but_member_order(args1, args2),
        result1 is None <==> result2 is None,
        result1 is Some ==> same_but_member_order(result1->0, result2->0),
    ensures
        payload_hash_spec(Some(args1), result1) == payload_hash_spec(Some(args2), result2),
{
    lemma_canonical_ignores_member_order(args1, args2);
    if result1 is Some {
        lemma_canonical_ignores_member_order(result1->0, result2->0);
    }
    assert(payload_bytes(Some(args1), result1) == payload_bytes(Some(args2), result2));
}

} // verus!
