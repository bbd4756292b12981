//! A JSON document model that the chat logic reads and builds, and the
//! bridge to `serde_json`, which parses and prints it.
use vstd::prelude::*;

verus! {

/// Mathematical value of a JSON document. Objects are maps: when a key occurs
/// twice in a member list, the later member wins.
pub enum JsonV {
    Null,
    Bool(bool),
    Number(serde_json::Number),
    Str(Seq<char>),
    Array(Seq<JsonV>),
    Object(Map<Seq<char>, JsonV>),
}

#[verifier::external_type_specification]
#[verifier::external_body]
pub struct ExNumber(serde_json::Number);

#[verifier::external_type_specification]
#[verifier::external_body]
pub struct ExValue(serde_json::Value);

/// A JSON document. Object members are kept in a list; numbers are kept as
/// `serde_json` holds them.
#[derive(Debug)]
pub enum Json {
    Null,
    Bool(bool),
    Number(serde_json::Number),
    Str(String),
    Array(Vec<Json>),
    Object(Vec<(String, Json)>),
}

/// Models of a list of documents.
pub open spec fn models(items: Seq<Json>) -> Seq<JsonV>
    decreases items,
{
    if items.len() == 0 {
        Seq::empty()
    } else {
        models(items.drop_last()).push(items.last().model())
    }
}

/// Model of a member list: the members are inserted in order.
pub open spec fn object_model(members: Seq<(String, Json)>) -> Map<Seq<char>, JsonV>
    decreases members,
{
    if members.len() == 0 {
        Map::empty()
    } else {
        object_model(members.drop_last()).insert(members.last().0@, members.last().1.model())
    }
}

impl Json {
    pub open spec fn model(self) -> JsonV
        decreases self,
    {
        match self {
            Json::Null => JsonV::Null,
            Json::Bool(b) => JsonV::Bool(b),
            Json::Number(n) => JsonV::Number(n),
            Json::Str(s) => JsonV::Str(s@),
            Json::Array(items) => JsonV::Array(models(items@)),
            Json::Object(members) => JsonV::Object(object_model(members@)),
        }
    }
}

/// The JSON document that a `serde_json::Value` holds.
pub uninterp spec fn value_model(v: serde_json::Value) -> JsonV;

/// What `serde_json::from_str::<serde_json::Value>` makes of `text`: `None`
/// where it reports an error.
pub uninterp spec fn json_parse(text: Seq<char>) -> Option<JsonV>;

/// What `serde_json::to_string` prints for a value holding `v`.
pub uninterp spec fn json_serialize(v: JsonV) -> Seq<char>;

/// What `serde_json::Number::as_u64` returns for `n`.
pub uninterp spec fn number_u64(n: serde_json::Number) -> Option<u64>;

/// The member `key` of `v`, where `v` is an object that has it
/// (`serde_json::Value::get` with a string key).
pub open spec fn member(v: JsonV, key: Seq<char>) -> Option<JsonV> {
    match v {
        JsonV::Object(m) => if m.contains_key(key) { Some(m[key]) } else { None },
        _ => None,
    }
}

/// The member `key` of an optional document.
pub open spec fn member_of(v: Option<JsonV>, key: Seq<char>) -> Option<JsonV> {
    match v {
        Some(x) => member(x, key),
        None => None,
    }
}

/// The text of a string document (`as_str`).
pub open spec fn str_of(v: Option<JsonV>) -> Option<Seq<char>> {
    match v {
        Some(JsonV::Str(s)) => Some(s),
        _ => None,
    }
}

/// The flag of a boolean document (`as_bool`).
pub open spec fn bool_of(v: Option<JsonV>) -> Option<bool> {
    match v {
        Some(JsonV::Bool(b)) => Some(b),
        _ => None,
    }
}

/// The items of an array document (`as_array`).
pub open spec fn array_of(v: Option<JsonV>) -> Option<Seq<JsonV>> {
    match v {
        Some(JsonV::Array(items)) => Some(items),
        _ => None,
    }
}

/// The value of a number document that is a non-negative integer (`as_u64`).
pub open spec fn u64_of(v: Option<JsonV>) -> Option<u64> {
    match v {
        Some(JsonV::Number(n)) => number_u64(n),
        _ => None,
    }
}

/// `{}`.
pub open spec fn empty_object_v() -> JsonV {
    JsonV::Object(Map::empty())
}

pub proof fn lemma_models_index(items: Seq<Json>)
    ensures
        models(items).len() == items.len(),
        forall|i: int| 0 <= i < items.len() ==> #[trigger] models(items)[i] == items[i].model(),
    decreases items.len(),
{
    if items.len() > 0 {
        lemma_models_index(items.drop_last());
    }
}

pub proof fn lemma_object_model_found(members: Seq<(String, Json)>, key: Seq<char>, j: int)
    requires
        0 <= j < members.len(),
        members[j].0@ == key,
        forall|i: int| j < i < members.len() ==> (#[trigger] members[i]).0@ != key,
    ensures
        object_model(members).contains_key(key),
        object_model(members)[key] == members[j].1.model(),
    decreases members.len(),
{
    if j < members.len() - 1 {
        let init = members.drop_last();
        assert forall|i: int| j < i < init.len() implies (#[trigger] init[i]).0@ != key by {
            assert(init[i] == members[i]);
        }
        lemma_object_model_found(init, key, j);
    }
}

pub proof fn lemma_object_model_absent(members: Seq<(String, Json)>, key: Seq<char>)
    requires
        forall|i: int| 0 <= i < members.len() ==> (#[trigger] members[i]).0@ != key,
    ensures
        !object_model(members).contains_key(key),
    decreases members.len(),
{
    if members.len() > 0 {
        let init = members.drop_last();
        assert forall|i: int| 0 <= i < init.len() implies (#[trigger] init[i]).0@ != key by {
            assert(init[i] == members[i]);
        }
        lemma_object_model_absent(init, key);
    }
}

pub proof fn lemma_object_model_pointwise(a: Seq<(String, Json)>, b: Seq<(String, Json)>)
    requires
        a.len() == b.len(),
        forall|i: int| 0 <= i < a.len() ==> (#[trigger] a[i]).0@ == b[i].0@ && a[i].1.model() == b[i].1.model(),
    ensures
        object_model(a) == object_model(b),
    decreases a.len(),
{
    if a.len() > 0 {
        let (ia, ib) = (a.drop_last(), b.drop_last());
        assert forall|i: int| 0 <= i < ia.len() implies (#[trigger] ia[i]).0@ == ib[i].0@ && ia[i].1.model() == ib[i].1.model() by {
            assert(ia[i] == a[i] && ib[i] == b[i]);
        }
        lemma_object_model_pointwise(ia, ib);
        assert(a.last() == a[a.len() - 1]);
    }
}

/// `serde_json::from_str::<serde_json::Value>`, with the error dropped.
/// Claimed: it succeeds exactly where [`json_parse`] gives a document, and the
/// value then holds that document; the JSON grammar itself is not stated.
#[verifier::external_body]
fn parse_value(text: &str) -> (r: Option<serde_json::Value>)
    ensures
        r is Some <==> json_parse(text@) is Some,
        r matches Some(v) ==> value_model(v) == json_parse(text@)->0,
{
    serde_json::from_str::<serde_json::Value>(text).ok()
}

/// Moves a `serde_json::Value` into a document, variant by variant (object
/// members in the order the map yields them). Claimed: the document holds what
/// the value holds.
#[verifier::external_body]
fn value_to_json(v: serde_json::Value) -> (r: Json)
    ensures
        r.model() == value_model(v),
{
    match v {
        serde_json::Value::Null => Json::Null,
        serde_json::Value::Bool(b) => Json::Bool(b),
        serde_json::Value::Number(n) => Json::Number(n),
        serde_json::Value::String(s) => Json::Str(s),
        serde_json::Value::Array(a) => Json::Array(a.into_iter().map(value_to_json).collect()),
        serde_json::Value::Object(o) => Json::Object(o.into_iter().map(|(k, x)| (k, value_to_json(x))).collect()),
    }
}

/// Moves a document into a `serde_json::Value`, variant by variant; object
/// members are collected into a `serde_json::Map`, where a later member with a
/// repeated key replaces the earlier one. Claimed: the value holds what the
/// document holds (whose model is a map for that reason).
#[verifier::external_body]
fn json_to_value(j: Json) -> (r: serde_json::Value)
    ensures
        value_model(r) == j.model(),
{
    match j {
        Json::Null => serde_json::Value::Null,
        Json::Bool(b) => serde_json::Value::Bool(b),
        Json::Number(n) => serde_json::Value::Number(n),
        Json::Str(s) => serde_json::Value::String(s),
        Json::Array(a) => serde_json::Value::Array(a.into_iter().map(json_to_value).collect()),
        Json::Object(o) => serde_json::Value::Object(o.into_iter().map(|(k, x)| (k, json_to_value(x))).collect()),
    }
}

/// `serde_json::to_string` of a value. It cannot fail on a `Value`, whose
/// keys are strings. Claimed: the text is [`json_serialize`] of what the value
/// holds; the printing rules are not stated.
#[verifier::external_body]
fn value_text(v: &serde_json::Value) -> (r: String)
    ensures
        r@ == json_serialize(value_model(*v)),
{
    serde_json::to_string(v).unwrap_or_default()
}

/// `serde_json::Number::as_u64`. Claimed: the result is [`number_u64`] of the
/// number (`Some` for a non-negative integer; not stated further).
#[verifier::external_body]
fn number_as_u64(n: &serde_json::Number) -> (r: Option<u64>)
    ensures
        r == number_u64(*n),
{
    n.as_u64()
}

/// `Clone` of a `serde_json::Number`. Claimed: the copy is the same number.
#[verifier::external_body]
fn copy_number(n: &serde_json::Number) -> (r: serde_json::Number)
    ensures
        r == *n,
{
    n.clone()
}

/// Parses JSON text; `None` where it is not JSON.
pub fn parse_json(text: &str) -> (r: Option<Json>)
    ensures
        r is Some <==> json_parse(text@) is Some,
        r matches Some(j) ==> j.model() == json_parse(text@)->0,
{
    match parse_value(text) {
        Some(v) => Some(value_to_json(v)),
        None => None,
    }
}

/// Prints a document as compact JSON text.
pub fn json_text(j: &Json) -> (r: String)
    ensures
        r@ == json_serialize(j.model()),
{
    let v = json_to_value(j.duplicate());
    value_text(&v)
}

/// `{}`.
pub fn empty_object() -> (r: Json)
    ensures
        r.model() == empty_object_v(),
{
    let r = Json::Object(Vec::new());
    assert(object_model(Seq::<(String, Json)>::empty()) == Map::<Seq<char>, JsonV>::empty());
    r
}

impl Json {
    /// The member `key`, where `self` is an object that has it; the last
    /// member of that name where there are several.
    #[verifier::loop_isolation(false)]
    pub fn get(&self, key: &str) -> (r: Option<&Json>)
        ensures
            r is Some <==> member(self.model(), key@) is Some,
            r matches Some(x) ==> x.model() == member(self.model(), key@)->0,
    {
        match self {
            Json::Object(members) => {
                let mut i = members.len();
                while i > 0
                    invariant
                        i <= members@.len(),
                        forall|j: int| i <= j < members@.len() ==> (#[trigger] members@[j]).0@ != key@,
                    decreases i,
                {
                    i -= 1;
                    if crate::text::same_text(members[i].0.as_str(), key) {
                        proof {
                            lemma_object_model_found(members@, key@, i as int);
                            assert(self.model() == JsonV::Object(object_model(members@)));
                        }
                        return Some(&members[i].1);
                    }
                }
                proof {
                    lemma_object_model_absent(members@, key@);
                    assert(self.model() == JsonV::Object(object_model(members@)));
                }
                None
            },
            _ => None,
        }
    }

    /// The text of a string document.
    pub fn as_str(&self) -> (r: Option<&String>)
        ensures
            r is Some <==> self.model() is Str,
            r matches Some(s) ==> self.model() == JsonV::Str(s@),
    {
        match self {
            Json::Str(s) => Some(s),
            _ => None,
        }
    }

    /// The flag of a boolean document.
    pub fn as_bool(&self) -> (r: Option<bool>)
        ensures
            r == bool_of(Some(self.model())),
    {
        match self {
            Json::Bool(b) => Some(*b),
            _ => None,
        }
    }

    /// The value of a number document that is a non-negative integer.
    pub fn as_u64(&self) -> (r: Option<u64>)
        ensures
            r == u64_of(Some(self.model())),
    {
        match self {
            Json::Number(n) => number_as_u64(n),
            _ => None,
        }
    }

    /// The items of an array document.
    pub fn as_array(&self) -> (r: Option<&Vec<Json>>)
        ensures
            r is Some <==> self.model() is Array,
            r matches Some(items) ==> self.model() == JsonV::Array(models(items@)),
    {
        match self {
            Json::Array(items) => Some(items),
            _ => None,
        }
    }

    /// A copy of the document.
    #[verifier::loop_isolation(false)]
    pub fn duplicate(&self) -> (r: Json)
        ensures
            r.model() == self.model(),
        decreases self,
    {
        match self {
            Json::Null => Json::Null,
            Json::Bool(b) => Json::Bool(*b),
            Json::Number(n) => Json::Number(copy_number(n)),
            Json::Str(s) => Json::Str(s.clone()),
            Json::Array(items) => {
                let mut out: Vec<Json> = Vec::new();
                let mut i: usize = 0;
                while i < items.len()
                    invariant
                        i <= items@.len(),
                        out@.len() == i,
                        forall|k: int| 0 <= k < i ==> (#[trigger] out@[k]).model() == items@[k].model(),
                    decreases items.len() - i,
                {
                    proof {
                        assert(decreases_to!(*self => self->Array_0));
                        assert(self->Array_0 == *items);
                        assert(decreases_to!(*items => items@));
                        assert(decreases_to!(items@ => items@[i as int]));
                    }
                    let x = items[i].duplicate();
                    out.push(x);
                    i += 1;
                }
                proof {
                    lemma_models_index(out@);
                    lemma_models_index(items@);
                    assert(models(out@) =~= models(items@));
                }
                Json::Array(out)
            },
            Json::Object(members) => {
                let mut out: Vec<(String, Json)> = Vec::new();
                let mut i: usize = 0;
                while i < members.len()
                    invariant
                        i <= members@.len(),
                        out@.len() == i,
                        forall|k: int| 0 <= k < i ==> (#[trigger] out@[k]).0@ == members@[k].0@
                            && out@[k].1.model() == members@[k].1.model(),
                    decreases members.len() - i,
                {
                    proof {
                        assert(decreases_to!(*self => self->Object_0));
                        assert(self->Object_0 == *members);
                        assert(decreases_to!(*members => members@));
                        assert(decreases_to!(members@ => members@[i as int]));
                        assert(decreases_to!(members@[i as int] => members@[i as int].1));
                    }
                    let x = members[i].1.duplicate();
                    out.push((members[i].0.clone(), x));
                    i += 1;
                }
                proof {
                    lemma_object_model_pointwise(out@, members@);
                }
                Json::Object(out)
            },
        }
    }
}

/// Appends the member `key: value` to a member list.
pub fn push_member(members: &mut Vec<(String, Json)>, key: String, value: Json)
    ensures
        object_model(final(members)@) == object_model(old(members)@).insert(key@, value.model()),
        final(members)@ == old(members)@.push((key, value)),
{
    members.push((key, value));
    assert(members@.drop_last() =~= old(members)@);
}

pub proof fn lemma_object_model_has(members: Seq<(String, Json)>, key: Seq<char>, j: int)
    requires
        0 <= j < members.len(),
        members[j].0@ == key,
    ensures
        object_model(members).contains_key(key),
    decreases members.len(),
{
    if j < members.len() - 1 {
        lemma_object_model_has(members.drop_last(), key, j);
    }
}

/// Removes every member named `key`.
pub fn remove_member(members: &mut Vec<(String, Json)>, key: &str)
    ensures
        object_model(final(members)@) == object_model(old(members)@).remove(key@),
{
    let mut kept: Vec<(String, Json)> = Vec::new();
    let mut n: usize = 0;
    while n < members.len()
        invariant
            n <= members@.len(),
            object_model(kept@) == object_model(members@.take(n as int)).remove(key@),
        decreases members.len() - n,
    {
        let ghost all = members@;
        assert(all.take(n + 1).drop_last() =~= all.take(n as int));
        assert(all.take(n + 1).last() == all[n as int]);
        if crate::text::same_text(members[n].0.as_str(), key) {
            assert(object_model(all.take(n + 1)).remove(key@) =~= object_model(all.take(n as int)).remove(key@));
        } else {
            let ghost before = kept@;
            let v = members[n].1.duplicate();
            kept.push((members[n].0.clone(), v));
            assert(kept@.drop_last() =~= before);
            assert(object_model(kept@) =~= object_model(all.take(n + 1)).remove(key@));
        }
        n += 1;
    }
    assert(members@.take(members@.len() as int) =~= members@);
    *members = kept;
}

/// Whether the member list has a member named `key`.
pub fn has_member(members: &Vec<(String, Json)>, key: &str) -> (r: bool)
    ensures
        r == object_model(members@).contains_key(key@),
{
    let mut i: usize = 0;
    while i < members.len()
        invariant
            i <= members@.len(),
            forall|j: int| 0 <= j < i ==> (#[trigger] members@[j]).0@ != key@,
        decreases members.len() - i,
    {
        if crate::text::same_text(members[i].0.as_str(), key) {
            proof { lemma_object_model_has(members@, key@, i as int); }
            return true;
        }
        i += 1;
    }
    proof { lemma_object_model_absent(members@, key@); }
    false
}

} // verus!
