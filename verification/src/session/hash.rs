//! Canonical JSON and the SHA-256 `payload_hash` of an action.
//!
//! The canonical form has no whitespace, writes object members sorted by key
//! (lexicographic order of code points, which is the UTF-8 byte order),
//! escapes strings as serde_json does, and writes numbers as their rendered
//! text. The payload hash covers `canonical(args) || 0x1f || canonical(result)`
//! when a result is present (prefix `sha256:`), and `canonical(args)` alone
//! otherwise (prefix `sha256-partial:`); absent args hash as `{}`.

use vstd::prelude::*;

use crate::json::{
    lemma_members_of, lemma_models_of, members_of, models_of, opt_json, Json, JsonMember,
    JsonValue,
};
use crate::text::{flat_map_chars, lemma_flat_map_step, push_all};
use vstd::utf8::encode_utf8;

verus! {

// ---------------------------------------------------------------------------
// Specification
// ---------------------------------------------------------------------------

/// Strict lexicographic order on character sequences (by code point).
pub open spec fn str_lt(a: Seq<char>, b: Seq<char>) -> bool
    decreases a.len(),
{
    if a.len() == 0 {
        b.len() > 0
    } else if b.len() == 0 {
        false
    } else if (a[0] as u32) < (b[0] as u32) {
        true
    } else if a[0] == b[0] {
        str_lt(a.drop_first(), b.drop_first())
    } else {
        false
    }
}

pub open spec fn hex_digit(d: nat) -> char {
    if d < 10 {
        ((d + 48) as u32) as char
    } else {
        ((d + 87) as u32) as char
    }
}

/// How serde_json escapes one character inside a string literal.
pub open spec fn escape_json_char(c: char) -> Seq<char> {
    if c == '"' {
        seq!['\\', '"']
    } else if c == '\\' {
        seq!['\\', '\\']
    } else if c == '\x08' {
        seq!['\\', 'b']
    } else if c == '\t' {
        seq!['\\', 't']
    } else if c == '\n' {
        seq!['\\', 'n']
    } else if c == '\x0c' {
        seq!['\\', 'f']
    } else if c == '\r' {
        seq!['\\', 'r']
    } else if (c as u32) < 0x20 {
        seq!['\\', 'u', '0', '0', hex_digit(((c as u32) / 16) as nat), hex_digit(((c as u32) % 16) as nat)]
    } else {
        seq![c]
    }
}

/// A JSON string literal holding `s`.
pub open spec fn json_quote(s: Seq<char>) -> Seq<char> {
    seq!['"'] + flat_map_chars(s, |c: char| escape_json_char(c)) + seq!['"']
}

/// Inserts index `x` into `sorted`, after every index whose key is not
/// greater than the key of `x`.
pub open spec fn insert_idx(keys: Seq<Seq<char>>, sorted: Seq<int>, x: int) -> Seq<int>
    decreases sorted.len(),
{
    if sorted.len() == 0 {
        seq![x]
    } else if !str_lt(keys[x], keys[sorted.last()]) {
        sorted.push(x)
    } else {
        insert_idx(keys, sorted.drop_last(), x).push(sorted.last())
    }
}

/// The indices `0..n` ordered by key (stable insertion sort).
pub open spec fn sort_idx_upto(keys: Seq<Seq<char>>, n: nat) -> Seq<int>
    decreases n,
{
    if n == 0 {
        Seq::empty()
    } else {
        insert_idx(keys, sort_idx_upto(keys, (n - 1) as nat), n - 1)
    }
}

pub open spec fn member_keys(ms: Seq<(Seq<char>, Json)>) -> Seq<Seq<char>> {
    ms.map_values(|m: (Seq<char>, Json)| m.0)
}

/// The order in which the members of an object are written: by key.
pub open spec fn member_order(ms: Seq<(Seq<char>, Json)>) -> Seq<int> {
    sort_idx_upto(member_keys(ms), ms.len())
}

/// The canonical text of a JSON value.
pub open spec fn canonical(v: Json) -> Seq<char>
    decreases v, 0int,
{
    match v {
        Json::Null => seq!['n', 'u', 'l', 'l'],
        Json::Bool(b) => if b {
            seq!['t', 'r', 'u', 'e']
        } else {
            seq!['f', 'a', 'l', 's', 'e']
        },
        Json::Number(n) => n,
        Json::Str(s) => json_quote(s),
        Json::Array(items) => seq!['['] + canonical_items(items, items.len() as int) + seq![']'],
        Json::Object(ms) => seq!['{'] + canonical_members(ms, member_order(ms), ms.len() as int)
            + seq!['}'],
    }
}

/// The first `n` items, comma-separated.
pub open spec fn canonical_items(items: Seq<Json>, n: int) -> Seq<char>
    decreases items, n,
{
    if n <= 0 || n > items.len() {
        Seq::empty()
    } else if n == 1 {
        canonical(items[0])
    } else {
        canonical_items(items, n - 1) + seq![','] + canonical(items[n - 1])
    }
}

/// `"key":value` for a member.
pub open spec fn canonical_member(ms: Seq<(Seq<char>, Json)>, j: int) -> Seq<char>
    decreases ms, 0int,
{
    if 0 <= j < ms.len() {
        json_quote(ms[j].0) + seq![':'] + canonical(ms[j].1)
    } else {
        Seq::empty()
    }
}

/// The members at `order[0..n]`, comma-separated.
pub open spec fn canonical_members(ms: Seq<(Seq<char>, Json)>, order: Seq<int>, n: int) -> Seq<char>
    decreases ms, 1int, n,
{
    if n <= 0 || n > order.len() {
        Seq::empty()
    } else if n == 1 {
        canonical_member(ms, order[0])
    } else {
        canonical_members(ms, order, n - 1) + seq![','] + canonical_member(ms, order[n - 1])
    }
}

// ---------------------------------------------------------------------------
// Implementation
// ---------------------------------------------------------------------------

proof fn lemma_str_lt_skip(a: Seq<char>, b: Seq<char>, i: int)
    requires
        0 <= i <= a.len(),
        i <= b.len(),
        forall|j: int| 0 <= j < i ==> a[j] == b[j],
    ensures
        str_lt(a, b) == str_lt(a.skip(i), b.skip(i)),
    decreases i,
{
    if i > 0 {
        assert(a.drop_first().skip(i - 1) == a.skip(i));
        assert(b.drop_first().skip(i - 1) == b.skip(i));
        lemma_str_lt_skip(a.drop_first(), b.drop_first(), i - 1);
    } else {
        assert(a.skip(0) == a);
        assert(b.skip(0) == b);
    }
}

/// Whether `a` sorts strictly before `b`.
pub fn chars_lt(a: &Vec<char>, b: &Vec<char>) -> (r: bool)
    ensures
        r == str_lt(a@, b@),
{
    let mut i: usize = 0;
    while i < a.len() && i < b.len() && a[i] == b[i]
        invariant
            i <= a.len(),
            i <= b.len(),
            forall|j: int| 0 <= j < i ==> a@[j] == b@[j],
        decreases a.len() - i,
    {
        i = i + 1;
    }
    proof {
        lemma_str_lt_skip(a@, b@, i as int);
    }
    let ghost sa = a@.skip(i as int);
    let ghost sb = b@.skip(i as int);
    if i == a.len() {
        assert(sa.len() == 0);
        i < b.len()
    } else if i == b.len() {
        assert(sb.len() == 0);
        false
    } else {
        assert(sa[0] == a@[i as int] && sb[0] == b@[i as int]);
        (a[i] as u32) < (b[i] as u32)
    }
}

fn hex_char(d: u8) -> (c: char)
    requires
        d < 16,
    ensures
        c == hex_digit(d as nat),
{
    if d < 10 {
        (d + 48) as char
    } else {
        (d + 87) as char
    }
}

/// Appends the escaped form of `c` (see [`escape_json_char`]).
fn push_escaped(out: &mut String, c: char)
    ensures
        final(out)@ == old(out)@ + escape_json_char(c),
{
    let ghost start = out@;
    if c == '"' {
        out.push('\\');
        out.push('"');
    } else if c == '\\' {
        out.push('\\');
        out.push('\\');
    } else if c == '\x08' {
        out.push('\\');
        out.push('b');
    } else if c == '\t' {
        out.push('\\');
        out.push('t');
    } else if c == '\n' {
        out.push('\\');
        out.push('n');
    } else if c == '\x0c' {
        out.push('\\');
        out.push('f');
    } else if c == '\r' {
        out.push('\\');
        out.push('r');
    } else if (c as u32) < 0x20 {
        let b = (c as u32) as u8;
        out.push('\\');
        out.push('u');
        out.push('0');
        out.push('0');
        out.push(hex_char(b / 16));
        out.push(hex_char(b % 16));
    } else {
        out.push(c);
    }
    assert(out@ =~= start + escape_json_char(c));
}

/// Appends `s` as a JSON string literal.
pub fn push_json_quoted(out: &mut String, s: &str)
    ensures
        final(out)@ == old(out)@ + json_quote(s@),
{
    let cs = crate::text::chars_of(s);
    let ghost start = out@;
    let ghost f = |c: char| escape_json_char(c);
    out.push('"');
    let mut i: usize = 0;
    while i < cs.len()
        invariant
            i <= cs.len(),
            cs@ == s@,
            f == (|c: char| escape_json_char(c)),
            out@ == start + seq!['"'] + flat_map_chars(cs@.take(i as int), f),
        decreases cs.len() - i,
    {
        proof {
            lemma_flat_map_step(cs@, i as int, f);
            assert(f(cs@[i as int]) == escape_json_char(cs@[i as int]));
        }
        push_escaped(out, cs[i]);
        i = i + 1;
        assert(out@ =~= start + seq!['"'] + flat_map_chars(cs@.take(i as int), f));
    }
    assert(cs@.take(cs.len() as int) == cs@);
    out.push('"');
    assert(out@ =~= start + json_quote(s@));
}

pub proof fn lemma_insert_idx_at(keys: Seq<Seq<char>>, sorted: Seq<int>, x: int, p: int)
    requires
        0 <= p <= sorted.len(),
        forall|j: int| p <= j < sorted.len() ==> str_lt(keys[x], keys[#[trigger] sorted[j]]),
        p == 0 || !str_lt(keys[x], keys[sorted[p - 1]]),
    ensures
        insert_idx(keys, sorted, x) == sorted.take(p) + seq![x] + sorted.skip(p),
    decreases sorted.len(),
{
    if sorted.len() == 0 {
        assert(sorted.take(p) + seq![x] + sorted.skip(p) =~= seq![x]);
    } else if p == sorted.len() {
        assert(sorted.take(p) + seq![x] + sorted.skip(p) =~= sorted.push(x));
    } else {
        let d = sorted.drop_last();
        assert forall|j: int| p <= j < d.len() implies str_lt(keys[x], keys[#[trigger] d[j]]) by {
            assert(d[j] == sorted[j]);
        }
        assert(str_lt(keys[x], keys[sorted[sorted.len() - 1]]));
        lemma_insert_idx_at(keys, d, x, p);
        assert(d.take(p) + seq![x] + d.skip(p) + seq![sorted.last()] =~= sorted.take(p) + seq![x]
            + sorted.skip(p));
    }
}

pub open spec fn as_ints(v: Seq<usize>) -> Seq<int> {
    v.map_values(|u: usize| u as int)
}

pub open spec fn key_views(keys: Seq<Vec<char>>) -> Seq<Seq<char>> {
    keys.map_values(|k: Vec<char>| k@)
}

/// Inserts `x` into the key-sorted index list `order`.
fn insert_index(keys: &Vec<Vec<char>>, order: &mut Vec<usize>, x: usize)
    requires
        x < keys.len(),
        forall|j: int| 0 <= j < old(order)@.len() ==> #[trigger] old(order)@[j] < keys.len(),
    ensures
        as_ints(final(order)@) == insert_idx(key_views(keys@), as_ints(old(order)@), x as int),
        final(order)@.len() == old(order)@.len() + 1,
        forall|j: int| 0 <= j < final(order)@.len() ==> #[trigger] final(order)@[j] < keys.len(),
{
    let ghost ks = key_views(keys@);
    let ghost before = as_ints(order@);
    let mut p: usize = order.len();
    while p > 0 && chars_lt(&keys[x], &keys[order[p - 1]])
        invariant
            p <= order.len(),
            order@ == old(order)@,
            x < keys.len(),
            forall|j: int| 0 <= j < order@.len() ==> #[trigger] order@[j] < keys.len(),
            ks == key_views(keys@),
            before == as_ints(order@),
            forall|j: int| p <= j < order@.len() ==> str_lt(ks[x as int], ks[#[trigger] before[j]]),
        decreases p,
    {
        p = p - 1;
    }
    proof {
        lemma_insert_idx_at(ks, before, x as int, p as int);
    }
    order.insert(p, x);
    assert(as_ints(order@) =~= before.take(p as int) + seq![x as int] + before.skip(p as int));
}

/// The order in which the members of `members` are written.
fn member_order_exec(members: &Vec<JsonMember>) -> (order: Vec<usize>)
    ensures
        as_ints(order@) == member_order(members_of(members@)),
        order@.len() == members@.len(),
        forall|j: int| 0 <= j < order@.len() ==> #[trigger] order@[j] < members@.len(),
{
    let ghost ms = members_of(members@);
    proof {
        lemma_members_of(members@);
    }
    let mut keys: Vec<Vec<char>> = Vec::new();
    let mut i: usize = 0;
    while i < members.len()
        invariant
            i <= members.len(),
            keys@.len() == i,
            ms == members_of(members@),
            ms.len() == members@.len(),
            forall|k: int| 0 <= k < members.len() ==> #[trigger] ms[k] == (members@[k].key@, members@[k].value.model()),
            forall|k: int| 0 <= k < i ==> (#[trigger] keys@[k])@ == ms[k].0,
        decreases members.len() - i,
    {
        keys.push(crate::text::chars_of(members[i].key.as_str()));
        i = i + 1;
    }
    assert(key_views(keys@) =~= member_keys(ms));
    let mut order: Vec<usize> = Vec::new();
    let mut n: usize = 0;
    while n < members.len()
        invariant
            n <= members.len(),
            keys@.len() == members.len(),
            key_views(keys@) == member_keys(ms),
            as_ints(order@) == sort_idx_upto(member_keys(ms), n as nat),
            order@.len() == n,
            forall|j: int| 0 <= j < order@.len() ==> #[trigger] order@[j] < keys.len(),
        decreases members.len() - n,
    {
        insert_index(&keys, &mut order, n);
        n = n + 1;
    }
    order
}

/// Appends the canonical text of `v`.
pub fn write_canonical(out: &mut String, v: &JsonValue)
    ensures
        final(out)@ == old(out)@ + canonical(v@),
    decreases v,
{
    let ghost start = out@;
    match v {
        JsonValue::Null => {
            crate::text::push_all(out, "null");
            proof { reveal_strlit("null"); }
            assert(out@ =~= start + canonical(v@));
        },
        JsonValue::Bool(b) => {
            if *b {
                crate::text::push_all(out, "true");
                proof { reveal_strlit("true"); }
            } else {
                crate::text::push_all(out, "false");
                proof { reveal_strlit("false"); }
            }
            assert(out@ =~= start + canonical(v@));
        },
        JsonValue::Number(n) => {
            crate::text::push_all(out, n.as_str());
        },
        JsonValue::Str(s) => {
            push_json_quoted(out, s.as_str());
        },
        JsonValue::Array(items) => {
            let ghost mods = models_of(items@);
            proof {
                lemma_models_of(items@);
            }
            out.push('[');
            let mut i: usize = 0;
            while i < items.len()
                invariant
                    i <= items.len(),
                    mods == models_of(items@),
                    mods.len() == items.len(),
                    forall|k: int| 0 <= k < items.len() ==> #[trigger] mods[k] == items@[k].model(),
                    out@ == start + seq!['['] + canonical_items(mods, i as int),
                    forall|k: int| 0 <= k < items.len() ==> decreases_to!(v => #[trigger] items@[k]),
                decreases items.len() - i,
            {
                if i > 0 {
                    out.push(',');
                }
                proof {
                    assert(decreases_to!(v => items@[i as int]));
                }
                write_canonical(out, &items[i]);
                i = i + 1;
                assert(out@ =~= start + seq!['['] + canonical_items(mods, i as int));
            }
            out.push(']');
            assert(v@ == Json::Array(mods));
            assert(out@ =~= start + canonical(v@));
        },
        JsonValue::Object(members) => {
            let ghost ms = members_of(members@);
            proof {
                lemma_members_of(members@);
            }
            let order = member_order_exec(members);
            let ghost ord = as_ints(order@);
            out.push('{');
            let mut i: usize = 0;
            while i < order.len()
                invariant
                    i <= order.len(),
                    order@.len() == members@.len(),
                    ord == as_ints(order@),
                    forall|j: int| 0 <= j < order@.len() ==> #[trigger] order@[j] < members@.len(),
                    ms == members_of(members@),
                    ms.len() == members@.len(),
                    forall|k: int| 0 <= k < members.len() ==> #[trigger] ms[k] == (members@[k].key@, members@[k].value.model()),
                    out@ == start + seq!['{'] + canonical_members(ms, ord, i as int),
                    forall|k: int| 0 <= k < members.len() ==> decreases_to!(v => #[trigger] members@[k].value),
                decreases order.len() - i,
            {
                if i > 0 {
                    out.push(',');
                }
                let j = order[i];
                assert(ord[i as int] == j as int);
                push_json_quoted(out, members[j].key.as_str());
                out.push(':');
                proof {
                    assert(decreases_to!(v => members@[j as int].value));
                }
                write_canonical(out, &members[j].value);
                assert(ms[j as int] == (members@[j as int].key@, members@[j as int].value.model()));
                assert(canonical_member(ms, ord[i as int]) == json_quote(members@[j as int].key@)
                    + seq![':'] + canonical(members@[j as int].value.model()));
                i = i + 1;
                assert(out@ =~= start + seq!['{'] + canonical_members(ms, ord, i as int));
            }
            out.push('}');
            assert(v@ == Json::Object(ms));
            assert(out@ =~= start + canonical(v@));
        },
    }
}

/// The canonical-JSON encoding of `v`: object keys sorted, no whitespace.
pub fn canonical_json(v: &JsonValue) -> (out: String)
    ensures
        out@ == canonical(v@),
{
    let mut out = String::new();
    write_canonical(&mut out, v);
    out
}

// ---------------------------------------------------------------------------
// Payload hash
// ---------------------------------------------------------------------------

/// What `sha2::Sha256::digest` returns for `data`.
pub uninterp spec fn sha256_digest(data: Seq<u8>) -> Seq<u8>;

/// `sha2::Sha256::digest`: the SHA-256 digest of `data`, which is 32 bytes
/// long (`Sha256`'s output size).
#[verifier::external_body]
fn sha256(data: &[u8]) -> (d: Vec<u8>)
    ensures
        d@ == sha256_digest(data@),
        d@.len() == 32,
{
    <sha2::Sha256 as sha2::Digest>::digest(data).to_vec()
}

/// The `{}` object that stands for absent args.
pub open spec fn empty_object() -> Json {
    Json::Object(Seq::empty())
}

/// The bytes that the payload hash covers.
pub open spec fn payload_bytes(args: Option<Json>, result: Option<Json>) -> Seq<u8> {
    let a = encode_utf8(canonical(args.unwrap_or(empty_object())));
    match result {
        Some(r) => a + seq![0x1fu8] + encode_utf8(canonical(r)),
        None => a,
    }
}

/// Lower-case hexadecimal, two digits per byte.
pub open spec fn hex_lower(bytes: Seq<u8>) -> Seq<char>
    decreases bytes.len(),
{
    if bytes.len() == 0 {
        Seq::empty()
    } else {
        hex_lower(bytes.drop_last()) + seq![
            hex_digit((bytes.last() / 16) as nat),
            hex_digit((bytes.last() % 16) as nat),
        ]
    }
}

pub open spec fn hash_prefix(has_result: bool) -> Seq<char> {
    if has_result {
        seq!['s', 'h', 'a', '2', '5', '6']
    } else {
        seq!['s', 'h', 'a', '2', '5', '6', '-', 'p', 'a', 'r', 't', 'i', 'a', 'l']
    }
}

/// The `payload_hash` of an action with these args and result.
pub open spec fn payload_hash_spec(args: Option<Json>, result: Option<Json>) -> Seq<char> {
    hash_prefix(result is Some) + seq![':'] + hex_lower(sha256_digest(payload_bytes(args, result)))
}

/// Appends the bytes of `s` to `out`.
fn push_bytes(out: &mut Vec<u8>, s: &[u8])
    ensures
        final(out)@ == old(out)@ + s@,
{
    let ghost start = out@;
    let mut i: usize = 0;
    while i < s.len()
        invariant
            i <= s.len(),
            out@ == start + s@.take(i as int),
        decreases s.len() - i,
    {
        out.push(s[i]);
        i = i + 1;
        assert(out@ =~= start + s@.take(i as int));
    }
    assert(s@.take(s@.len() as int) == s@);
}

proof fn lemma_hex_len(bytes: Seq<u8>)
    ensures
        hex_lower(bytes).len() == 2 * bytes.len(),
    decreases bytes.len(),
{
    if bytes.len() > 0 {
        lemma_hex_len(bytes.drop_last());
    }
}

/// Computes the `payload_hash` of an action: `sha256:<hex>` over
/// `canonical(args) || 0x1f || canonical(result)` when a result is present,
/// `sha256-partial:<hex>` over `canonical(args)` otherwise (absent args
/// hash as `{}`).
pub fn payload_hash(args: Option<&JsonValue>, result: Option<&JsonValue>) -> (h: String)
    ensures
        h@ == payload_hash_spec(
            match args { Some(a) => Some(a@), None => None },
            match result { Some(r) => Some(r@), None => None },
        ),
        h@.len() == hash_prefix(result is Some).len() + 65,
{
    let ghost ga: Option<Json> = match args { Some(a) => Some(a@), None => None };
    let ghost gr: Option<Json> = match result { Some(r) => Some(r@), None => None };
    let args_text = match args {
        Some(a) => canonical_json(a),
        None => {
            let e = JsonValue::Object(Vec::new());
            assert(members_of(Seq::<JsonMember>::empty()) =~= Seq::empty());
            assert(e@ == empty_object());
            canonical_json(&e)
        },
    };
    let mut data: Vec<u8> = Vec::new();
    push_bytes(&mut data, args_text.as_str().as_bytes());
    match result {
        Some(r) => {
            data.push(0x1fu8);
            let result_text = canonical_json(r);
            push_bytes(&mut data, result_text.as_str().as_bytes());
        },
        None => {},
    }
    assert(data@ =~= payload_bytes(ga, gr));
    let digest = sha256(data.as_slice());
    format_payload_hash(result.is_some(), &digest)
}

/// Formats a payload hash from its digest: `sha256:` (with a result) or
/// `sha256-partial:` (without), then the digest in lower-case hex.
pub fn format_payload_hash(has_result: bool, digest: &Vec<u8>) -> (h: String)
    ensures
        h@ == hash_prefix(has_result) + seq![':'] + hex_lower(digest@),
        h@.len() == hash_prefix(has_result).len() + 1 + 2 * digest@.len(),
{
    let mut h = String::new();
    if has_result {
        push_all(&mut h, "sha256");
        proof { reveal_strlit("sha256"); }
    } else {
        push_all(&mut h, "sha256-partial");
        proof { reveal_strlit("sha256-partial"); }
    }
    h.push(':');
    let ghost head = h@;
    assert(head =~= hash_prefix(has_result) + seq![':']);
    let mut i: usize = 0;
    while i < digest.len()
        invariant
            i <= digest.len(),
            h@ == head + hex_lower(digest@.take(i as int)),
        decreases digest.len() - i,
    {
        let b = digest[i];
        h.push(hex_char(b / 16));
        h.push(hex_char(b % 16));
        assert(digest@.take(i + 1).drop_last() == digest@.take(i as int));
        i = i + 1;
        assert(h@ =~= head + hex_lower(digest@.take(i as int)));
    }
    assert(digest@.take(digest@.len() as int) == digest@);
    proof {
        lemma_hex_len(digest@);
    }
    h
}

} // verus!
