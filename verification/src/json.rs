//! JSON values and the outside JSON reader.

use crate::text;
use vstd::prelude::*;

verus! {

/// The mathematical JSON value. A number stands as its JSON text.
#[verifier::ext_equal]
pub enum JsonView {
    Null,
    Bool(bool),
    Number(Seq<char>),
    Text(Seq<char>),
    Array(Seq<JsonView>),
    Object(Map<Seq<char>, JsonView>),
}

/// A JSON value. A number is held as its JSON text.
#[derive(Debug)]
pub enum Json {
    Null,
    Bool(bool),
    Number(String),
    Text(String),
    Array(Vec<Json>),
    Object(JsonObject),
}

/// The members of a JSON object.
#[derive(Debug)]
pub struct JsonObject {
    pub entries: Vec<(String, Json)>,
}

pub open spec fn array_view(v: Seq<Json>) -> Seq<JsonView>
    decreases v,
{
    if v.len() == 0 {
        Seq::empty()
    } else {
        array_view(v.drop_last()).push(json_view(v.last()))
    }
}

/// The members that the entries give, a later entry of a key winning.
pub open spec fn object_view(v: Seq<(String, Json)>) -> Map<Seq<char>, JsonView>
    decreases v,
{
    if v.len() == 0 {
        Map::empty()
    } else {
        object_view(v.drop_last()).insert(v.last().0@, json_view(v.last().1))
    }
}

pub open spec fn json_view(j: Json) -> JsonView
    decreases j,
{
    match j {
        Json::Null => JsonView::Null,
        Json::Bool(b) => JsonView::Bool(b),
        Json::Number(s) => JsonView::Number(s@),
        Json::Text(s) => JsonView::Text(s@),
        Json::Array(v) => JsonView::Array(array_view(v@)),
        Json::Object(o) => JsonView::Object(object_view(o.entries@)),
    }
}

impl View for Json {
    type V = JsonView;

    open spec fn view(&self) -> JsonView {
        json_view(*self)
    }
}

impl View for JsonObject {
    type V = Map<Seq<char>, JsonView>;

    open spec fn view(&self) -> Map<Seq<char>, JsonView> {
        object_view(self.entries@)
    }
}

pub proof fn lemma_array_view(v: Seq<Json>)
    ensures
        array_view(v).len() == v.len(),
        forall|i: int| 0 <= i < v.len() ==> array_view(v)[i] == #[trigger] json_view(v[i]),
    decreases v.len(),
{
    if v.len() > 0 {
        lemma_array_view(v.drop_last());
        assert forall|i: int| 0 <= i < v.len() implies array_view(v)[i] == #[trigger] json_view(
            v[i],
        ) by {
            if i < v.len() - 1 {
                assert(v.drop_last()[i] == v[i]);
            }
        }
    }
}

proof fn lemma_object_set(v: Seq<(String, Json)>, i: int, key: Seq<char>, e: (String, Json))
    requires
        0 <= i < v.len(),
        v[i].0@ == key,
        e.0@ == key,
        forall|j: int| i < j < v.len() ==> (#[trigger] v[j]).0@ != key,
    ensures
        object_view(v.update(i, e)) == object_view(v).insert(key, json_view(e.1)),
    decreases v.len(),
{
    let u = v.update(i, e);
    if i == v.len() - 1 {
        assert(u.drop_last() =~= v.drop_last());
        assert(object_view(u) =~= object_view(v).insert(key, json_view(e.1)));
    } else {
        assert(u.drop_last() =~= v.drop_last().update(i, e));
        assert(v.drop_last()[i] == v[i]);
        assert forall|j: int| i < j < v.drop_last().len() implies (
        #[trigger] v.drop_last()[j]).0@ != key by {
            assert(v.drop_last()[j] == v[j]);
        }
        lemma_object_set(v.drop_last(), i, key, e);
        assert(v[v.len() - 1].0@ != key);
        assert(object_view(u) =~= object_view(v).insert(key, json_view(e.1)));
    }
}

proof fn lemma_object_lookup(v: Seq<(String, Json)>, i: int, key: Seq<char>)
    requires
        0 <= i < v.len(),
        v[i].0@ == key,
        forall|j: int| i < j < v.len() ==> (#[trigger] v[j]).0@ != key,
    ensures
        object_view(v).contains_key(key),
        object_view(v)[key] == json_view(v[i].1),
    decreases v.len(),
{
    if i < v.len() - 1 {
        assert(v.drop_last()[i] == v[i]);
        assert forall|j: int| i < j < v.drop_last().len() implies (
        #[trigger] v.drop_last()[j]).0@ != key by {
            assert(v.drop_last()[j] == v[j]);
        }
        lemma_object_lookup(v.drop_last(), i, key);
        assert(v[v.len() - 1].0@ != key);
    }
}

proof fn lemma_object_missing(v: Seq<(String, Json)>, key: Seq<char>)
    requires
        forall|j: int| 0 <= j < v.len() ==> (#[trigger] v[j]).0@ != key,
    ensures
        !object_view(v).contains_key(key),
    decreases v.len(),
{
    if v.len() > 0 {
        assert forall|j: int| 0 <= j < v.drop_last().len() implies (
        #[trigger] v.drop_last()[j]).0@ != key by {
            assert(v.drop_last()[j] == v[j]);
        }
        lemma_object_missing(v.drop_last(), key);
        assert(v[v.len() - 1].0@ != key);
    }
}

pub proof fn lemma_object_empty(v: Seq<(String, Json)>)
    ensures
        v.len() == 0 <==> object_view(v) == Map::<Seq<char>, JsonView>::empty(),
{
    if v.len() > 0 {
        assert(object_view(v).contains_key(v.last().0@));
    }
}

impl JsonObject {
    /// The object without members.
    pub fn new() -> (r: JsonObject)
        ensures
            r@ == Map::<Seq<char>, JsonView>::empty(),
    {
        JsonObject { entries: Vec::new() }
    }

    fn position(&self, key: &str) -> (r: Option<usize>)
        ensures
            match r {
                Some(i) => i < self.entries@.len() && self.entries@[i as int].0@ == key@
                    && forall|j: int|
                    i < j < self.entries@.len() ==> (#[trigger] self.entries@[j]).0@ != key@,
                None => forall|j: int|
                    0 <= j < self.entries@.len() ==> (#[trigger] self.entries@[j]).0@ != key@,
            },
    {
        let mut i: usize = self.entries.len();
        while i > 0
            invariant
                i <= self.entries@.len(),
                forall|j: int|
                    i <= j < self.entries@.len() ==> (#[trigger] self.entries@[j]).0@ != key@,
            decreases i,
        {
            i -= 1;
            if text::same(self.entries[i].0.as_str(), key) {
                return Some(i);
            }
        }
        None
    }

    /// The member at `key`.
    pub fn get(&self, key: &str) -> (r: Option<&Json>)
        ensures
            match r {
                Some(j) => self@.contains_key(key@) && j@ == self@[key@],
                None => !self@.contains_key(key@),
            },
            r is Some ==> decreases_to!(self => r->0),
    {
        match self.position(key) {
            Some(i) => {
                proof {
                    lemma_object_lookup(self.entries@, i as int, key@);
                }
                let e = &self.entries[i];
                assert(decreases_to!(self.entries@ => self.entries@[i as int]));
                Some(&e.1)
            },
            None => {
                proof {
                    lemma_object_missing(self.entries@, key@);
                }
                None
            },
        }
    }

    /// Whether there is a member at `key`.
    pub fn contains_key(&self, key: &str) -> (r: bool)
        ensures
            r == self@.contains_key(key@),
    {
        self.get(key).is_some()
    }

    /// Sets the member at `key`, in place of an earlier one.
    pub fn insert(&mut self, key: &str, value: Json)
        ensures
            final(self)@ == old(self)@.insert(key@, value@),
    {
        match self.position(key) {
            Some(i) => {
                proof {
                    lemma_object_set(self.entries@, i as int, key@, (self.entries@[i as int].0, value));
                }
                let name = self.entries[i].0.clone();
                self.entries.set(i, (name, value));
            },
            None => {
                let ghost before = self.entries@;
                self.entries.push((text::owned(key), value));
                assert(self.entries@.drop_last() =~= before);
            },
        }
    }

    /// Sets the member at `key` and hands the object back.
    pub fn with(self, key: &str, value: Json) -> (r: JsonObject)
        ensures
            r@ == self@.insert(key@, value@),
    {
        let mut r = self;
        r.insert(key, value);
        r
    }

    /// Sets every member of `other`.
    pub fn merge(&mut self, other: &JsonObject)
        ensures
            final(self)@ == old(self)@.union_prefer_right(other@),
    {
        let ghost before = self@;
        let mut i: usize = 0;
        assert(other.entries@.take(0).len() == 0);
        assert(self@ =~= before.union_prefer_right(object_view(other.entries@.take(0))));
        while i < other.entries.len()
            invariant
                i <= other.entries@.len(),
                self@ == before.union_prefer_right(object_view(other.entries@.take(i as int))),
            decreases other.entries@.len() - i,
        {
            let e = &other.entries[i];
            self.insert(e.0.as_str(), e.1.copy());
            proof {
                assert(other.entries@.take(i + 1).drop_last() =~= other.entries@.take(i as int));
                assert(self@ =~= before.union_prefer_right(object_view(other.entries@.take(i + 1))));
            }
            i += 1;
        }
        assert(other.entries@.take(other.entries@.len() as int) =~= other.entries@);
    }

    /// Whether there is no member.
    pub fn is_empty(&self) -> (r: bool)
        ensures
            r == (self@ == Map::<Seq<char>, JsonView>::empty()),
    {
        proof {
            lemma_object_empty(self.entries@);
        }
        self.entries.len() == 0
    }

    /// A copy.
    pub fn copy(&self) -> (r: JsonObject)
        ensures
            r@ == self@,
        decreases self,
    {
        let mut entries: Vec<(String, Json)> = Vec::new();
        let mut i: usize = 0;
        assert(self.entries@.take(0).len() == 0);
        while i < self.entries.len()
            invariant
                i <= self.entries@.len(),
                object_view(entries@) == object_view(self.entries@.take(i as int)),
            decreases self.entries@.len() - i,
        {
            let e = &self.entries[i];
            assert(decreases_to!(self.entries@ => self.entries@[i as int]));
            let value = e.1.copy();
            proof {
                assert(self.entries@.take(i + 1).drop_last() =~= self.entries@.take(i as int));
                assert(entries@.push((e.0, value)).drop_last() =~= entries@);
            }
            entries.push((e.0.clone(), value));
            i += 1;
        }
        assert(self.entries@.take(self.entries@.len() as int) =~= self.entries@);
        JsonObject { entries }
    }
}

impl Json {
    /// A copy.
    pub fn copy(&self) -> (r: Json)
        ensures
            r@ == self@,
        decreases self,
    {
        match self {
            Json::Null => Json::Null,
            Json::Bool(b) => Json::Bool(*b),
            Json::Number(s) => Json::Number(s.clone()),
            Json::Text(s) => Json::Text(s.clone()),
            Json::Array(v) => {
                let mut items: Vec<Json> = Vec::new();
                let mut i: usize = 0;
                assert(v@.take(0).len() == 0);
                while i < v.len()
                    invariant
                        i <= v@.len(),
                        self matches Json::Array(w) && w == v,
                        array_view(items@) == array_view(v@.take(i as int)),
                    decreases v@.len() - i,
                {
                    assert(decreases_to!(v@ => v@[i as int]));
                    let item = v[i].copy();
                    proof {
                        assert(v@.take(i + 1).drop_last() =~= v@.take(i as int));
                        assert(items@.push(item).drop_last() =~= items@);
                    }
                    items.push(item);
                    i += 1;
                }
                assert(v@.take(v@.len() as int) =~= v@);
                Json::Array(items)
            },
            Json::Object(o) => Json::Object(o.copy()),
        }
    }

    /// The member at `key` of an object.
    pub fn member(&self, key: &str) -> (r: Option<&Json>)
        ensures
            match r {
                Some(j) => member_view(self@, key@) == Some(j@),
                None => member_view(self@, key@) is None,
            },
    {
        match self {
            Json::Object(o) => o.get(key),
            _ => None,
        }
    }

    /// The item at `index` of an array.
    pub fn item(&self, index: usize) -> (r: Option<&Json>)
        ensures
            match r {
                Some(j) => self@ matches JsonView::Array(v) && index < v.len() && v[index as int] == j@,
                None => !(self@ matches JsonView::Array(v) && index < v.len()),
            },
    {
        match self {
            Json::Array(v) => {
                proof {
                    lemma_array_view(v@);
                }
                if index < v.len() {
                    Some(&v[index])
                } else {
                    None
                }
            },
            _ => None,
        }
    }

    /// The text of a string value.
    pub fn as_text(&self) -> (r: Option<&String>)
        ensures
            match r {
                Some(s) => self@ == JsonView::Text(s@),
                None => !(self@ is Text),
            },
    {
        match self {
            Json::Text(s) => Some(s),
            _ => None,
        }
    }
}

/// The member at `key`, where `j` is an object that has it.
pub open spec fn member_view(j: JsonView, key: Seq<char>) -> Option<JsonView> {
    match j {
        JsonView::Object(m) => if m.contains_key(key) {
            Some(m[key])
        } else {
            None
        },
        _ => None,
    }
}

/// The JSON string of `s`.
pub fn text(s: &str) -> (r: Json)
    ensures
        r@ == JsonView::Text(s@),
{
    Json::Text(text::owned(s))
}

/// The JSON number `n`.
pub open spec fn number_view(n: nat) -> JsonView {
    JsonView::Number(text::decimal(n))
}

pub fn number(n: u64) -> (r: Json)
    ensures
        r@ == number_view(n as nat),
{
    Json::Number(text::decimal_of(n))
}

pub open spec fn opt_view(o: Option<Seq<char>>) -> JsonView {
    match o {
        Some(s) => JsonView::Text(s),
        None => JsonView::Null,
    }
}

/// The JSON string of an optional text, or null.
pub fn optional(o: &Option<String>) -> (r: Json)
    ensures
        r@ == opt_view(text::opt_text(*o)),
{
    match o {
        Some(s) => text(s.as_str()),
        None => Json::Null,
    }
}

pub open spec fn texts_view(v: Seq<Seq<char>>) -> JsonView {
    JsonView::Array(v.map_values(|s: Seq<char>| JsonView::Text(s)))
}

/// The JSON array of strings.
pub fn text_array(v: &Vec<String>) -> (r: Json)
    ensures
        r@ == texts_view(text::texts(v@)),
{
    let mut items: Vec<Json> = Vec::new();
    let mut i: usize = 0;
    let ghost want = text::texts(v@).map_values(|s: Seq<char>| JsonView::Text(s));
    assert(want.take(0) =~= array_view(items@));
    while i < v.len()
        invariant
            i <= v@.len(),
            want == text::texts(v@).map_values(|s: Seq<char>| JsonView::Text(s)),
            array_view(items@) == want.take(i as int),
        decreases v@.len() - i,
    {
        let item = text(v[i].as_str());
        proof {
            assert(items@.push(item).drop_last() =~= items@);
            assert(want.take(i + 1) =~= want.take(i as int).push(item@));
        }
        items.push(item);
        i += 1;
    }
    assert(want.take(want.len() as int) =~= want);
    Json::Array(items)
}

/// Appends an item to the items of an array.
pub fn push_item(items: &mut Vec<Json>, item: Json)
    ensures
        array_view(final(items)@) == array_view(old(items)@).push(item@),
{
    assert(items@.push(item).drop_last() =~= items@);
    items.push(item);
}

/// The type `serde_json::Value`.
#[verifier::external_type_specification]
#[verifier::external_body]
pub struct ExValue(serde_json::Value);

/// What a `serde_json::Value` holds, a number by its JSON text.
pub uninterp spec fn value_content(v: serde_json::Value) -> JsonView;

/// What `serde_json::from_slice` reads from bytes: the value, or its error's text.
pub uninterp spec fn read_json(bytes: Seq<u8>) -> Result<JsonView, Seq<char>>;

/// The compact text that `serde_json::Value` displays as.
pub uninterp spec fn compact_json(v: JsonView) -> Seq<char>;

/// One level of a `serde_json::Value`.
pub enum Shape {
    Null,
    Bool(bool),
    Number(String),
    Text(String),
    Array(Vec<serde_json::Value>),
    Object(Vec<(String, serde_json::Value)>),
}

pub open spec fn contents(v: Seq<serde_json::Value>) -> Seq<JsonView> {
    v.map_values(|x: serde_json::Value| value_content(x))
}

/// The members that the pairs give, a later pair of a key winning.
pub open spec fn member_contents(v: Seq<(String, serde_json::Value)>) -> Map<Seq<char>, JsonView>
    decreases v.len(),
{
    if v.len() == 0 {
        Map::empty()
    } else {
        member_contents(v.drop_last()).insert(v.last().0@, value_content(v.last().1))
    }
}

pub open spec fn distinct_keys(v: Seq<(String, serde_json::Value)>) -> bool {
    forall|a: int, b: int| 0 <= a < b < v.len() ==> (#[trigger] v[a]).0@ != (#[trigger] v[b]).0@
}

pub open spec fn shape_content(s: Shape) -> JsonView {
    match s {
        Shape::Null => JsonView::Null,
        Shape::Bool(b) => JsonView::Bool(b),
        Shape::Number(t) => JsonView::Number(t@),
        Shape::Text(t) => JsonView::Text(t@),
        Shape::Array(v) => JsonView::Array(contents(v@)),
        Shape::Object(v) => JsonView::Object(member_contents(v@)),
    }
}

/// `serde_json::from_slice` to a `serde_json::Value`. The result is the named
/// reading of the bytes; an error is handed out as the text it displays as.
#[verifier::external_body]
pub(crate) fn value_from_slice(bytes: &[u8]) -> (r: Result<serde_json::Value, String>)
    ensures
        match r {
            Ok(v) => read_json(bytes@) == Ok::<JsonView, Seq<char>>(value_content(v)),
            Err(e) => read_json(bytes@) == Err::<JsonView, Seq<char>>(e@),
        },
{
    serde_json::from_slice::<serde_json::Value>(bytes).map_err(|error| error.to_string())
}

/// Opens one level of a `serde_json::Value`, each variant moved into the like
/// variant of [`Shape`]. Its content is the content of the value. A
/// `serde_json::Map` holds each key once, so no two pairs have the same key.
#[verifier::external_body]
pub(crate) fn open_value(v: serde_json::Value) -> (r: Shape)
    ensures
        shape_content(r) == value_content(v),
        r matches Shape::Object(pairs) ==> distinct_keys(pairs@),
{
    match v {
        serde_json::Value::Null => Shape::Null,
        serde_json::Value::Bool(b) => Shape::Bool(b),
        serde_json::Value::Number(n) => Shape::Number(n.to_string()),
        serde_json::Value::String(s) => Shape::Text(s),
        serde_json::Value::Array(items) => Shape::Array(items),
        serde_json::Value::Object(members) => Shape::Object(members.into_iter().collect()),
    }
}

/// `serde_json::Value` displayed as compact JSON text: the named text of its content.
#[verifier::external_body]
pub(crate) fn value_to_text(v: &serde_json::Value) -> (r: String)
    ensures
        r@ == compact_json(value_content(*v)),
{
    v.to_string()
}

pub proof fn lemma_member(v: Seq<(String, serde_json::Value)>, i: int)
    requires
        0 <= i < v.len(),
        distinct_keys(v),
    ensures
        member_contents(v).contains_key(v[i].0@),
        member_contents(v)[v[i].0@] == value_content(v[i].1),
    decreases v.len(),
{
    if i < v.len() - 1 {
        let w = v.drop_last();
        assert forall|a: int, b: int| 0 <= a < b < w.len() implies (#[trigger] w[a]).0@ != (
        #[trigger] w[b]).0@ by {
            assert(w[a] == v[a] && w[b] == v[b]);
        }
        lemma_member(w, i);
        assert(w[i] == v[i]);
        assert(v[i].0@ != v[v.len() - 1].0@);
    }
}

pub proof fn lemma_no_member(v: Seq<(String, serde_json::Value)>, key: Seq<char>)
    requires
        forall|j: int| 0 <= j < v.len() ==> (#[trigger] v[j]).0@ != key,
    ensures
        !member_contents(v).contains_key(key),
    decreases v.len(),
{
    if v.len() > 0 {
        let w = v.drop_last();
        assert forall|j: int| 0 <= j < w.len() implies (#[trigger] w[j]).0@ != key by {
            assert(w[j] == v[j]);
        }
        lemma_no_member(w, key);
        assert(v[v.len() - 1].0@ != key);
    }
}

proof fn lemma_members_finite(v: Seq<(String, serde_json::Value)>)
    ensures
        member_contents(v).dom().finite(),
    decreases v.len(),
{
    if v.len() > 0 {
        lemma_members_finite(v.drop_last());
    }
}

/// The library's value of a `serde_json::Value`.
pub fn json_of_value(v: serde_json::Value) -> (r: Json)
    ensures
        r@ == value_content(v),
    decreases value_content(v), 1nat,
{
    json_of_shape(open_value(v))
}

/// The library's value of a `serde_json::Value` that has been opened.
pub fn json_of_shape(shape: Shape) -> (r: Json)
    requires
        shape matches Shape::Object(pairs) ==> distinct_keys(pairs@),
    ensures
        r@ == shape_content(shape),
    decreases shape_content(shape), 0nat,
{
    let ghost whole = shape_content(shape);
    match shape {
        Shape::Null => Json::Null,
        Shape::Bool(b) => Json::Bool(b),
        Shape::Number(t) => Json::Number(t),
        Shape::Text(t) => Json::Text(t),
        Shape::Array(items) => {
            let ghost all = contents(items@);
            let mut rest = items;
            let mut backwards: Vec<Json> = Vec::new();
            while rest.len() > 0
                invariant
                    whole == JsonView::Array(all),
                    whole == shape_content(shape),
                    rest@.len() + backwards@.len() == all.len(),
                    forall|i: int|
                        0 <= i < rest@.len() ==> value_content(#[trigger] rest@[i]) == all[i],
                    forall|i: int|
                        0 <= i < backwards@.len() ==> json_view(#[trigger] backwards@[i])
                            == all[all.len() - 1 - i],
                decreases rest@.len(),
            {
                let last = rest.pop();
                match last {
                    Some(x) => {
                        assert(value_content(x) == all[rest@.len() as int]);
                        assert(decreases_to!(whole => whole->Array_0));
                        assert(decreases_to!(all => all[rest@.len() as int]));
                        backwards.push(json_of_value(x));
                    },
                    None => {},
                }
            }
            let mut out: Vec<Json> = Vec::new();
            while backwards.len() > 0
                invariant
                    out@.len() + backwards@.len() == all.len(),
                    forall|i: int|
                        0 <= i < backwards@.len() ==> json_view(#[trigger] backwards@[i])
                            == all[all.len() - 1 - i],
                    forall|i: int| 0 <= i < out@.len() ==> json_view(#[trigger] out@[i]) == all[i],
                decreases backwards@.len(),
            {
                let last = backwards.pop();
                match last {
                    Some(x) => {
                        out.push(x);
                    },
                    None => {},
                }
            }
            proof {
                lemma_array_view(out@);
                assert forall|i: int| 0 <= i < all.len() implies array_view(out@)[i] == all[i] by {
                    assert(json_view(out@[i]) == all[i]);
                }
                assert(array_view(out@) =~= all);
            }
            Json::Array(out)
        },
        Shape::Object(members) => {
            let ghost pairs = members@;
            let ghost all = member_contents(pairs);
            let mut rest = members;
            let mut backwards: Vec<(String, Json)> = Vec::new();
            while rest.len() > 0
                invariant
                    whole == JsonView::Object(all),
                    whole == shape_content(shape),
                    all == member_contents(pairs),
                    distinct_keys(pairs),
                    rest@.len() + backwards@.len() == pairs.len(),
                    forall|i: int| 0 <= i < rest@.len() ==> #[trigger] rest@[i] == pairs[i],
                    forall|i: int|
                        0 <= i < backwards@.len() ==> (#[trigger] backwards@[i]).0@ == pairs[pairs.len()
                            - 1 - i].0@ && json_view(backwards@[i].1) == value_content(
                            pairs[pairs.len() - 1 - i].1,
                        ),
                decreases rest@.len(),
            {
                let last = rest.pop();
                match last {
                    Some(x) => {
                        proof {
                            lemma_member(pairs, rest@.len() as int);
                            assert(x == pairs[rest@.len() as int]);
                            lemma_members_finite(pairs);
                            assert(decreases_to!(whole => whole->Object_0));
                            assert(decreases_to!(all => all[x.0@]));
                        }
                        let (name, value) = x;
                        backwards.push((name, json_of_value(value)));
                    },
                    None => {},
                }
            }
            let mut out: Vec<(String, Json)> = Vec::new();
            assert(pairs.take(0).len() == 0);
            while backwards.len() > 0
                invariant
                    out@.len() + backwards@.len() == pairs.len(),
                    forall|i: int|
                        0 <= i < backwards@.len() ==> (#[trigger] backwards@[i]).0@ == pairs[pairs.len()
                            - 1 - i].0@ && json_view(backwards@[i].1) == value_content(
                            pairs[pairs.len() - 1 - i].1,
                        ),
                    object_view(out@) == member_contents(pairs.take(out@.len() as int)),
                decreases backwards@.len(),
            {
                let last = backwards.pop();
                match last {
                    Some(x) => {
                        proof {
                            let n = out@.len() as int;
                            assert(pairs.take(n + 1).drop_last() =~= pairs.take(n));
                            assert(out@.push(x).drop_last() =~= out@);
                        }
                        out.push(x);
                    },
                    None => {},
                }
            }
            assert(pairs.take(pairs.len() as int) =~= pairs);
            Json::Object(JsonObject { entries: out })
        },
    }
}

} // verus!
