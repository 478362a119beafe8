//! JSON values as plain data: what provider stream events, tool arguments,
//! tool outputs and artifact references are made of. An object keeps its
//! members in order; a lookup finds the first member with the key.

use vstd::prelude::*;

use crate::text::{owned, str_eq};

verus! {

#[derive(Debug, PartialEq, Eq)]
pub enum JsonNumber {
    /// A non-negative integer.
    PosInt(u64),
    /// A negative integer.
    NegInt(i64),
    /// Any other number, in its decimal text form.
    Decimal(String),
}

#[derive(Debug, PartialEq, Eq)]
pub enum Json {
    Null,
    Bool(bool),
    Number(JsonNumber),
    Str(String),
    Array(Vec<Json>),
    Object(Vec<JsonMember>),
}

#[derive(Debug, PartialEq, Eq)]
pub struct JsonMember {
    pub key: String,
    pub value: Json,
}

/// A number as a mathematical value.
pub ghost enum NumberView {
    PosInt(u64),
    NegInt(i64),
    Decimal(Seq<char>),
}

/// A JSON value as a mathematical value.
pub ghost enum JsonView {
    Null,
    Bool(bool),
    Number(NumberView),
    Str(Seq<char>),
    Array(Seq<JsonView>),
    Object(Seq<(Seq<char>, JsonView)>),
}

pub open spec fn number_view(n: JsonNumber) -> NumberView {
    match n {
        JsonNumber::PosInt(u) => NumberView::PosInt(u),
        JsonNumber::NegInt(i) => NumberView::NegInt(i),
        JsonNumber::Decimal(s) => NumberView::Decimal(s@),
    }
}

pub open spec fn json_view(j: Json) -> JsonView
    decreases j, 1int,
{
    match j {
        Json::Null => JsonView::Null,
        Json::Bool(b) => JsonView::Bool(b),
        Json::Number(n) => JsonView::Number(number_view(n)),
        Json::Str(s) => JsonView::Str(s@),
        Json::Array(v) => JsonView::Array(items_view(v@)),
        Json::Object(ms) => JsonView::Object(members_view(ms@)),
    }
}

pub open spec fn items_view(s: Seq<Json>) -> Seq<JsonView>
    decreases s, 0int,
{
    if s.len() == 0 {
        Seq::empty()
    } else {
        items_view(s.drop_last()).push(json_view(s.last()))
    }
}

pub open spec fn members_view(s: Seq<JsonMember>) -> Seq<(Seq<char>, JsonView)>
    decreases s, 0int,
{
    if s.len() == 0 {
        Seq::empty()
    } else {
        members_view(s.drop_last()).push((s.last().key@, json_view(s.last().value)))
    }
}

impl View for Json {
    type V = JsonView;

    open spec fn view(&self) -> JsonView {
        json_view(*self)
    }
}

pub proof fn lemma_items_view(s: Seq<Json>)
    ensures
        items_view(s).len() == s.len(),
        forall|i: int| 0 <= i < s.len() ==> #[trigger] items_view(s)[i] == json_view(s[i]),
    decreases s.len(),
{
    if s.len() > 0 {
        lemma_items_view(s.drop_last());
    }
}

pub proof fn lemma_members_view(s: Seq<JsonMember>)
    ensures
        members_view(s).len() == s.len(),
        forall|i: int|
            0 <= i < s.len() ==> #[trigger] members_view(s)[i] == (s[i].key@, json_view(s[i].value)),
    decreases s.len(),
{
    if s.len() > 0 {
        lemma_members_view(s.drop_last());
    }
}

/// The value of the first member named `key`.
pub open spec fn member_value(ms: Seq<(Seq<char>, JsonView)>, key: Seq<char>) -> Option<JsonView>
    decreases ms.len(),
{
    if ms.len() == 0 {
        None
    } else if ms[0].0 == key {
        Some(ms[0].1)
    } else {
        member_value(ms.drop_first(), key)
    }
}

/// `value.get(key)`: the member named `key` when `value` is an object.
pub open spec fn json_get(j: JsonView, key: Seq<char>) -> Option<JsonView> {
    match j {
        JsonView::Object(ms) => member_value(ms, key),
        _ => None,
    }
}

/// `value.as_str()`.
pub open spec fn json_str(j: JsonView) -> Option<Seq<char>> {
    match j {
        JsonView::Str(s) => Some(s),
        _ => None,
    }
}

/// `value.as_u64()`.
pub open spec fn json_u64(j: JsonView) -> Option<u64> {
    match j {
        JsonView::Number(NumberView::PosInt(n)) => Some(n),
        _ => None,
    }
}

/// `value.get(key).and_then(as_str)`.
pub open spec fn get_str(j: JsonView, key: Seq<char>) -> Option<Seq<char>> {
    match json_get(j, key) {
        Some(v) => json_str(v),
        None => None,
    }
}

/// `value.get(key).and_then(as_u64)`.
pub open spec fn get_u64(j: JsonView, key: Seq<char>) -> Option<u64> {
    match json_get(j, key) {
        Some(v) => json_u64(v),
        None => None,
    }
}

/// A single member is found by its own key and by no other.
pub proof fn lemma_member_value_single(ms: Seq<(Seq<char>, JsonView)>, k: Seq<char>)
    requires
        ms.len() == 1,
    ensures
        member_value(ms, k) == (if ms[0].0 == k {
            Some(ms[0].1)
        } else {
            None
        }),
{
    if ms[0].0 != k {
        assert(ms.drop_first() =~= Seq::<(Seq<char>, JsonView)>::empty());
        assert(member_value(ms.drop_first(), k) is None);
    }
}

/// Looking a key up in members `a` followed by `b` finds it in `a` first.
pub proof fn lemma_member_value_append(a: Seq<(Seq<char>, JsonView)>, b: Seq<(Seq<char>, JsonView)>, key: Seq<char>)
    ensures
        member_value(a + b, key) == match member_value(a, key) {
            Some(v) => Some(v),
            None => member_value(b, key),
        },
    decreases a.len(),
{
    if a.len() > 0 {
        assert((a + b).drop_first() =~= a.drop_first() + b);
        lemma_member_value_append(a.drop_first(), b, key);
    } else {
        assert(a + b =~= b);
    }
}

impl JsonNumber {
    pub fn copied(&self) -> (r: JsonNumber)
        ensures
            number_view(r) == number_view(*self),
    {
        match self {
            JsonNumber::PosInt(n) => JsonNumber::PosInt(*n),
            JsonNumber::NegInt(n) => JsonNumber::NegInt(*n),
            JsonNumber::Decimal(s) => JsonNumber::Decimal(s.clone()),
        }
    }
}

impl Json {
    /// A deep copy.
    pub fn copied(&self) -> (r: Json)
        ensures
            r@ == self@,
        decreases self,
    {
        match self {
            Json::Null => Json::Null,
            Json::Bool(b) => Json::Bool(*b),
            Json::Number(n) => Json::Number(n.copied()),
            Json::Str(s) => Json::Str(s.clone()),
            Json::Array(items) => {
                let mut out: Vec<Json> = Vec::new();
                let mut i: usize = 0;
                assert(items@.subrange(0, 0) =~= Seq::<Json>::empty());
                while i < items.len()
                    invariant
                        *self == Json::Array(*items),
                        i <= items@.len(),
                        items_view(out@) == items_view(items@.subrange(0, i as int)),
                    decreases items@.len() - i,
                {
                    proof {
                        assert(decreases_to!(*self => (*self)->Array_0));
                        assert(decreases_to!(*items => items@));
                        assert(decreases_to!(items@ => items@[i as int]));
                    }
                    let c = items[i].copied();
                    let ghost before = out@;
                    out.push(c);
                    proof {
                        let t = items@.subrange(0, i + 1);
                        assert(t.drop_last() =~= items@.subrange(0, i as int));
                        assert(out@.drop_last() =~= before);
                    }
                    i = i + 1;
                }
                assert(items@.subrange(0, items@.len() as int) =~= items@);
                Json::Array(out)
            },
            Json::Object(ms) => {
                let mut out: Vec<JsonMember> = Vec::new();
                let mut i: usize = 0;
                assert(ms@.subrange(0, 0) =~= Seq::<JsonMember>::empty());
                while i < ms.len()
                    invariant
                        *self == Json::Object(*ms),
                        i <= ms@.len(),
                        members_view(out@) == members_view(ms@.subrange(0, i as int)),
                    decreases ms@.len() - i,
                {
                    proof {
                        assert(decreases_to!(*self => (*self)->Object_0));
                        assert(decreases_to!(*ms => ms@));
                        assert(decreases_to!(ms@ => ms@[i as int]));
                        assert(decreases_to!(ms@[i as int] => ms@[i as int].value));
                    }
                    let v = ms[i].value.copied();
                    let ghost before = out@;
                    out.push(JsonMember { key: ms[i].key.clone(), value: v });
                    proof {
                        let t = ms@.subrange(0, i + 1);
                        assert(t.drop_last() =~= ms@.subrange(0, i as int));
                        assert(out@.drop_last() =~= before);
                    }
                    i = i + 1;
                }
                assert(ms@.subrange(0, ms@.len() as int) =~= ms@);
                Json::Object(out)
            },
        }
    }

    /// `value.get(key)`.
    pub fn get(&self, key: &str) -> (r: Option<&Json>)
        ensures
            match r {
                Some(v) => json_get(self@, key@) == Some(v@),
                None => json_get(self@, key@) is None,
            },
    {
        match self {
            Json::Object(ms) => {
                proof {
                    lemma_members_view(ms@);
                }
                let ghost mv = members_view(ms@);
                let mut i: usize = 0;
                assert(mv.subrange(0, mv.len() as int) =~= mv);
                while i < ms.len()
                    invariant
                        *self == Json::Object(*ms),
                        self@ == JsonView::Object(mv),
                        mv == members_view(ms@),
                        mv.len() == ms@.len(),
                        forall|k: int| 0 <= k < ms@.len() ==> #[trigger] mv[k] == (ms@[k].key@, json_view(ms@[k].value)),
                        i <= ms@.len(),
                        member_value(mv, key@) == member_value(mv.subrange(i as int, mv.len() as int), key@),
                    decreases ms@.len() - i,
                {
                    let ghost rest = mv.subrange(i as int, mv.len() as int);
                    assert(rest[0] == mv[i as int]);
                    if str_eq(ms[i].key.as_str(), key) {
                        return Some(&ms[i].value);
                    }
                    assert(rest.drop_first() =~= mv.subrange(i + 1, mv.len() as int));
                    i = i + 1;
                }
                None
            },
            _ => None,
        }
    }

    /// `value.as_str()`.
    pub fn as_str(&self) -> (r: Option<&str>)
        ensures
            match r {
                Some(s) => json_str(self@) == Some(s@),
                None => json_str(self@) is None,
            },
    {
        match self {
            Json::Str(s) => Some(s.as_str()),
            _ => None,
        }
    }

    /// `value.as_u64()`.
    pub fn as_u64(&self) -> (r: Option<u64>)
        ensures
            r == json_u64(self@),
    {
        match self {
            Json::Number(JsonNumber::PosInt(n)) => Some(*n),
            _ => None,
        }
    }

    /// `value.get(key).and_then(as_str)`.
    pub fn get_str(&self, key: &str) -> (r: Option<&str>)
        ensures
            match r {
                Some(s) => get_str(self@, key@) == Some(s@),
                None => get_str(self@, key@) is None,
            },
    {
        match self.get(key) {
            Some(v) => v.as_str(),
            None => None,
        }
    }

    /// `value.get(key).and_then(as_u64)`.
    pub fn get_u64(&self, key: &str) -> (r: Option<u64>)
        ensures
            r == get_u64(self@, key@),
    {
        match self.get(key) {
            Some(v) => v.as_u64(),
            None => None,
        }
    }

    /// A string value.
    pub fn string(s: &str) -> (r: Json)
        ensures
            r@ == JsonView::Str(s@),
    {
        Json::Str(owned(s))
    }
}

/// Members of an object under construction, with their view kept alongside.
pub struct ObjectBuilder {
    pub members: Vec<JsonMember>,
}

impl ObjectBuilder {
    pub open spec fn spec_members(&self) -> Seq<(Seq<char>, JsonView)> {
        members_view(self.members@)
    }

    pub fn new() -> (r: ObjectBuilder)
        ensures
            r.spec_members() == Seq::<(Seq<char>, JsonView)>::empty(),
    {
        ObjectBuilder { members: Vec::new() }
    }

    /// Appends a member.
    pub fn insert(&mut self, key: &str, value: Json)
        ensures
            final(self).spec_members() == old(self).spec_members().push((key@, value@)),
    {
        let ghost before = self.members@;
        self.members.push(JsonMember { key: owned(key), value });
        assert(self.members@.drop_last() =~= before);
    }

    /// The object.
    pub fn build(self) -> (r: Json)
        ensures
            r@ == JsonView::Object(self.spec_members()),
    {
        Json::Object(self.members)
    }
}

/// What `serde_json::to_string` writes for a value: the JSON text, or the
/// error's display text.
pub uninterp spec fn serde_json_to_string(j: JsonView) -> Result<Seq<char>, Seq<char>>;

/// Converts a `Json` into a `serde_json::Value`, one node for one node.
#[verifier::external_body]
fn serde_from_json(j: &Json) -> serde_json::Value {
    match j {
        Json::Null => serde_json::Value::Null,
        Json::Bool(b) => serde_json::Value::Bool(*b),
        Json::Number(n) => serde_from_number(n),
        Json::Str(s) => serde_json::Value::String(s.clone()),
        Json::Array(items) => serde_json::Value::Array(items.iter().map(serde_from_json).collect()),
        Json::Object(ms) => serde_json::Value::Object(ms.iter().map(serde_from_member).collect()),
    }
}

/// Converts one object member.
#[verifier::external_body]
fn serde_from_member(m: &JsonMember) -> (String, serde_json::Value) {
    (m.key.clone(), serde_from_json(&m.value))
}

/// Converts a number: an integer as itself, a decimal from its text.
#[verifier::external_body]
fn serde_from_number(n: &JsonNumber) -> serde_json::Value {
    match n {
        JsonNumber::PosInt(u) => serde_json::Value::Number((*u).into()),
        JsonNumber::NegInt(i) => serde_json::Value::Number((*i).into()),
        JsonNumber::Decimal(t) => t.parse().map(serde_json::Value::Number).unwrap_or(serde_json::Value::Null),
    }
}

/// `serde_json::to_string` of the value.
///
/// Trusted: the result is named; nothing more is claimed of it.
#[verifier::external_body]
pub(crate) fn json_to_string(j: &Json) -> (r: Result<String, String>)
    ensures
        match r {
            Ok(t) => serde_json_to_string(j@) == Ok::<Seq<char>, Seq<char>>(t@),
            Err(e) => serde_json_to_string(j@) == Err::<Seq<char>, Seq<char>>(e@),
        },
{
    serde_json::to_string(&serde_from_json(j)).map_err(|err| err.to_string())
}

} // verus!
