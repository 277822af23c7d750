//! The library's own JSON value: what the logic reads of a JSON-RPC frame or
//! of an action's arguments, held as plain values. Object members keep the
//! order in which they were decoded; numbers keep the text that serde_json
//! renders for them.

use vstd::prelude::*;

use crate::text::{chars_eq, chars_of};

verus! {

/// A JSON value.
pub enum JsonValue {
    Null,
    Bool(bool),
    /// A number, held as its rendered decimal text (e.g. `-2`, `3.5`).
    Number(String),
    Str(String),
    Array(Vec<JsonValue>),
    Object(Vec<JsonMember>),
}

/// One `"key": value` member of a JSON object.
pub struct JsonMember {
    pub key: String,
    pub value: JsonValue,
}

/// The mathematical model of a JSON value.
pub enum Json {
    Null,
    Bool(bool),
    Number(Seq<char>),
    Str(Seq<char>),
    Array(Seq<Json>),
    Object(Seq<(Seq<char>, Json)>),
}

impl JsonValue {
    pub open spec fn model(&self) -> Json
        decreases self,
    {
        match self {
            JsonValue::Null => Json::Null,
            JsonValue::Bool(b) => Json::Bool(*b),
            JsonValue::Number(n) => Json::Number(n@),
            JsonValue::Str(s) => Json::Str(s@),
            JsonValue::Array(items) => Json::Array(models_of(items@)),
            JsonValue::Object(members) => Json::Object(members_of(members@)),
        }
    }
}

/// The models of a sequence of values.
pub open spec fn models_of(s: Seq<JsonValue>) -> Seq<Json>
    decreases s,
{
    if s.len() == 0 {
        Seq::empty()
    } else {
        models_of(s.drop_last()).push(s.last().model())
    }
}

/// The models of a sequence of object members.
pub open spec fn members_of(s: Seq<JsonMember>) -> Seq<(Seq<char>, Json)>
    decreases s,
{
    if s.len() == 0 {
        Seq::empty()
    } else {
        members_of(s.drop_last()).push((s.last().key@, s.last().value.model()))
    }
}

pub proof fn lemma_models_of(s: Seq<JsonValue>)
    ensures
        models_of(s).len() == s.len(),
        forall|i: int| 0 <= i < s.len() ==> #[trigger] models_of(s)[i] == s[i].model(),
    decreases s.len(),
{
    if s.len() > 0 {
        lemma_models_of(s.drop_last());
    }
}

pub proof fn lemma_members_of(s: Seq<JsonMember>)
    ensures
        members_of(s).len() == s.len(),
        forall|i: int|
            0 <= i < s.len() ==> #[trigger] members_of(s)[i] == (s[i].key@, s[i].value.model()),
    decreases s.len(),
{
    if s.len() > 0 {
        lemma_members_of(s.drop_last());
    }
}

impl View for JsonValue {
    type V = Json;

    open spec fn view(&self) -> Json {
        self.model()
    }
}

/// The model of an optional JSON value.
pub open spec fn opt_json(v: Option<JsonValue>) -> Option<Json> {
    match v {
        Some(j) => Some(j@),
        None => None,
    }
}

impl Clone for JsonValue {
    #[verifier::loop_isolation(false)]
    fn clone(&self) -> (out: Self)
        ensures
            out@ == self@,
        decreases self,
    {
        match self {
            JsonValue::Null => JsonValue::Null,
            JsonValue::Bool(b) => JsonValue::Bool(*b),
            JsonValue::Number(n) => JsonValue::Number(n.clone()),
            JsonValue::Str(s) => JsonValue::Str(s.clone()),
            JsonValue::Array(items) => {
                let mut out: Vec<JsonValue> = Vec::new();
                let mut i: usize = 0;
                while i < items.len()
                    invariant
                        i <= items.len(),
                        out@.len() == i,
                        forall|j: int| 0 <= j < i ==> (#[trigger] out@[j]).model() == items@[j].model(),
                    decreases items.len() - i,
                {
                    proof {
                        assert(decreases_to!(items => items[i as int]));
                    }
                    let c = items[i].clone();
                    out.push(c);
                    i = i + 1;
                }
                let r = JsonValue::Array(out);
                proof {
                    lemma_models_of(out@);
                    lemma_models_of(items@);
                    assert(models_of(out@) =~= models_of(items@));
                }
                r
            },
            JsonValue::Object(members) => {
                let mut out: Vec<JsonMember> = Vec::new();
                let mut i: usize = 0;
                while i < members.len()
                    invariant
                        i <= members.len(),
                        out@.len() == i,
                        forall|j: int|
                            0 <= j < i ==> (#[trigger] out@[j]).key@ == members@[j].key@
                                && out@[j].value.model() == members@[j].value.model(),
                    decreases members.len() - i,
                {
                    proof {
                        assert(decreases_to!(members => members[i as int]));
                    }
                    let v = members[i].value.clone();
                    out.push(JsonMember { key: members[i].key.clone(), value: v });
                    i = i + 1;
                }
                let r = JsonValue::Object(out);
                proof {
                    lemma_members_of(out@);
                    lemma_members_of(members@);
                    assert(members_of(out@) =~= members_of(members@));
                }
                r
            },
        }
    }
}

/// A copy of an optional JSON value.
pub fn clone_opt_json(v: &Option<JsonValue>) -> (out: Option<JsonValue>)
    ensures
        opt_json(out) == opt_json(*v),
{
    match v {
        Some(j) => Some(j.clone()),
        None => None,
    }
}

/// The value of the first member named `key`, if the model is an object
/// holding one (what `serde_json::Value::get` with a string key returns).
pub open spec fn json_get(v: Json, key: Seq<char>) -> Option<Json> {
    match v {
        Json::Object(ms) => if exists|i: int| 0 <= i < ms.len() && #[trigger] ms[i].0 == key {
            Some(ms[first_member_index(ms, key)].1)
        } else {
            None
        },
        _ => None,
    }
}

/// The string held by a model, if it is a string.
pub open spec fn json_as_str(v: Option<Json>) -> Option<Seq<char>> {
    match v {
        Some(Json::Str(s)) => Some(s),
        _ => None,
    }
}

/// Index of the first member of `ms` named `key`.
pub open spec fn first_member_index(ms: Seq<(Seq<char>, Json)>, key: Seq<char>) -> int {
    choose|i: int|
        0 <= i < ms.len() && #[trigger] ms[i].0 == key && (forall|j: int|
            0 <= j < i ==> #[trigger] ms[j].0 != key)
}

pub proof fn lemma_first_member_index(ms: Seq<(Seq<char>, Json)>, key: Seq<char>, w: int)
    requires
        0 <= w < ms.len(),
        ms[w].0 == key,
        forall|j: int| 0 <= j < w ==> #[trigger] ms[j].0 != key,
    ensures
        first_member_index(ms, key) == w,
{
    let c = first_member_index(ms, key);
    assert(0 <= c < ms.len() && ms[c].0 == key && (forall|j: int| 0 <= j < c ==> #[trigger] ms[j].0 != key));
    if c < w {
        assert(ms[c].0 != key);
    } else if c > w {
        assert(ms[w].0 != key);
    }
}

/// The value of the first member named `key` is what `json_get` finds.
proof fn lemma_json_get_at(ms: Seq<(Seq<char>, Json)>, key: Seq<char>, i: int)
    requires
        0 <= i < ms.len(),
        ms[i].0 == key,
        forall|j: int| 0 <= j < i ==> #[trigger] ms[j].0 != key,
    ensures
        json_get(Json::Object(ms), key) == Some(ms[i].1),
{
    lemma_first_member_index(ms, key, i);
    assert(exists|w: int| 0 <= w < ms.len() && #[trigger] ms[w].0 == key);
}

/// The first index of `ms` whose key is `key`, if any.
pub proof fn lemma_first_member_exists(ms: Seq<(Seq<char>, Json)>, key: Seq<char>, w: int)
    requires
        0 <= w < ms.len(),
        ms[w].0 == key,
    ensures
        0 <= first_member_index(ms, key) < ms.len(),
        ms[first_member_index(ms, key)].0 == key,
        forall|j: int| 0 <= j < first_member_index(ms, key) ==> #[trigger] ms[j].0 != key,
    decreases w,
{
    if exists|j: int| 0 <= j < w && #[trigger] ms[j].0 == key {
        let j = choose|j: int| 0 <= j < w && #[trigger] ms[j].0 == key;
        lemma_first_member_exists(ms, key, j);
    } else {
        lemma_first_member_index(ms, key, w);
    }
}

impl JsonValue {
    /// Looks up the first member named `key` of an object value
    /// (`None` for non-objects and missing keys).
    pub fn get(&self, key: &str) -> (out: Option<&JsonValue>)
        ensures
            match out {
                Some(r) => json_get(self@, key@) == Some(r@),
                None => json_get(self@, key@) is None,
            },
    {
        match self {
            JsonValue::Object(members) => {
                let kc = chars_of(key);
                let ghost ms = self@->Object_0;
                proof {
                    lemma_members_of(members@);
                }
                let mut i: usize = 0;
                while i < members.len()
                    invariant
                        i <= members.len(),
                        kc@ == key@,
                        ms == members_of(members@),
                        self@ == Json::Object(ms),
                        ms.len() == members.len(),
                        forall|k: int| 0 <= k < members.len() ==> #[trigger] ms[k] == (members@[k].key@, members@[k].value.model()),
                        forall|j: int| 0 <= j < i ==> #[trigger] ms[j].0 != key@,
                    decreases members.len() - i,
                {
                    let mc = chars_of(members[i].key.as_str());
                    if chars_eq(&mc, &kc) {
                        assert(ms[i as int].0 == key@);
                        proof {
                            lemma_json_get_at(ms, key@, i as int);
                            assert(self@ == Json::Object(ms));
                            assert(ms[i as int].1 == members@[i as int].value.model());
                            assert(json_get(self@, key@) == Some(ms[i as int].1));
                        }
                        return Some(&members[i].value);
                    }
                    i = i + 1;
                }
                None
            },
            _ => None,
        }
    }

    /// The string held by this value, if it is a string.
    pub fn as_str(&self) -> (out: Option<&str>)
        ensures
            match out {
                Some(s) => self@ == Json::Str(s@),
                None => !(self@ is Str),
            },
    {
        match self {
            JsonValue::Str(s) => Some(s.as_str()),
            _ => None,
        }
    }
}

} // verus!
