//! JSON values: the type that the rest of the library reads and builds, and
//! its passage to and from text, which `serde_json` performs.

use vstd::prelude::*;

use crate::text::option_text;

verus! {

/// `serde_json::Value`, the tree that `serde_json` parses and prints.
#[verifier::external_type_specification]
#[verifier::external_body]
pub struct ExValue(serde_json::Value);

/// `serde_json::Number`, which is carried along as it is.
#[verifier::external_type_specification]
#[verifier::external_body]
pub struct ExNumber(serde_json::Number);

/// `serde_json::Map`, the fields of a `serde_json` object.
#[verifier::external_type_specification]
#[verifier::external_body]
#[verifier::reject_recursive_types(K)]
#[verifier::reject_recursive_types(V)]
pub struct ExObject<K, V>(serde_json::Map<K, V>);

/// A JSON value.
#[derive(Debug)]
pub enum Json {
    Null,
    Bool(bool),
    Number(serde_json::Number),
    Text(String),
    Array(Vec<Json>),
    /// Where a key occurs more than once, its last entry counts.
    Object(Vec<(String, Json)>),
}

/// A JSON value as mathematics has it: an object is a map, and a number that is
/// a `u64` is that integer.
pub enum JsonView {
    Null,
    Bool(bool),
    Unsigned(u64),
    /// A number that is no `u64`.
    Number(serde_json::Number),
    Text(Seq<char>),
    Array(Seq<JsonView>),
    Object(Map<Seq<char>, JsonView>),
}

/// The value that `j` stands for.
pub open spec fn json_view(j: Json) -> JsonView
    decreases j,
{
    match j {
        Json::Null => JsonView::Null,
        Json::Bool(b) => JsonView::Bool(b),
        Json::Number(n) => number_json(n),
        Json::Text(s) => JsonView::Text(s@),
        Json::Array(items) => JsonView::Array(array_view(items@)),
        Json::Object(fields) => JsonView::Object(fields_view(fields@)),
    }
}

/// The values that `items` stand for, in order.
pub open spec fn array_view(items: Seq<Json>) -> Seq<JsonView>
    decreases items,
{
    Seq::new(
        items.len(),
        |i: int|
            if 0 <= i < items.len() {
                json_view(items[i])
            } else {
                JsonView::Null
            },
    )
}

/// The map that `fields` stand for: a later field overrides an earlier one of
/// the same key.
pub open spec fn fields_view(fields: Seq<(String, Json)>) -> Map<Seq<char>, JsonView>
    decreases fields,
{
    if fields.len() == 0 {
        no_fields()
    } else {
        fields_view(fields.drop_last()).insert(fields.last().0@, json_view(fields.last().1))
    }
}

/// The fields of the empty object.
pub open spec fn no_fields() -> Map<Seq<char>, JsonView> {
    Map::empty()
}

impl View for Json {
    type V = JsonView;

    open spec fn view(&self) -> JsonView {
        json_view(*self)
    }
}

/// What an optional reference stands for.
pub open spec fn option_view(j: Option<&Json>) -> Option<JsonView> {
    match j {
        Some(j) => Some(j@),
        None => None,
    }
}

/// `serde_json::Number::as_u64`: the number as a `u64`, where it is one.
pub uninterp spec fn number_u64(n: serde_json::Number) -> Option<u64>;

/// The value that a number stands for.
pub open spec fn number_json(n: serde_json::Number) -> JsonView {
    match number_u64(n) {
        Some(u) => JsonView::Unsigned(u),
        None => JsonView::Number(n),
    }
}

impl JsonView {
    /// The field `key` of an object.
    pub open spec fn get(self, key: Seq<char>) -> Option<JsonView> {
        match self {
            JsonView::Object(fields) => if fields.contains_key(key) {
                Some(fields[key])
            } else {
                None
            },
            _ => None,
        }
    }

    /// The item at `i` of an array.
    pub open spec fn at(self, i: int) -> Option<JsonView> {
        match self {
            JsonView::Array(items) => if 0 <= i < items.len() {
                Some(items[i])
            } else {
                None
            },
            _ => None,
        }
    }

    /// The characters of a string.
    pub open spec fn text(self) -> Option<Seq<char>> {
        match self {
            JsonView::Text(s) => Some(s),
            _ => None,
        }
    }

    /// The items of an array.
    pub open spec fn items(self) -> Option<Seq<JsonView>> {
        match self {
            JsonView::Array(items) => Some(items),
            _ => None,
        }
    }

    /// A number as a `u64`, where it is one.
    pub open spec fn unsigned(self) -> Option<u64> {
        match self {
            JsonView::Unsigned(u) => Some(u),
            _ => None,
        }
    }

    /// The field `key` of an object, where that is a string.
    pub open spec fn get_text(self, key: Seq<char>) -> Option<Seq<char>> {
        match self.get(key) {
            Some(v) => v.text(),
            None => None,
        }
    }
}

/// Calls `serde_json::Number::as_u64`. The result is a function of the number.
#[verifier::external_body]
fn number_as_u64(n: &serde_json::Number) -> (r: Option<u64>)
    ensures
        r == number_u64(*n),
{
    n.as_u64()
}

/// Calls `serde_json::Number::from` on a `u64`. Of the number that comes back
/// `as_u64` gives the integer.
#[verifier::external_body]
fn number_from_u64(u: u64) -> (n: serde_json::Number)
    ensures
        number_u64(n) == Some(u),
{
    serde_json::Number::from(u)
}

/// Calls `serde_json::Number::clone`. The clone is the same number.
#[verifier::external_body]
fn number_clone(n: &serde_json::Number) -> (r: serde_json::Number)
    ensures
        r == *n,
{
    n.clone()
}

/// The map of `fields` holds `key` exactly where some field has that key, and
/// the last such field gives the value.
proof fn lemma_fields_last(fields: Seq<(String, Json)>, key: Seq<char>, i: int)
    requires
        0 <= i < fields.len(),
        fields[i].0@ == key,
        forall|k: int| i < k < fields.len() ==> (#[trigger] fields[k]).0@ != key,
    ensures
        fields_view(fields).contains_key(key),
        fields_view(fields)[key] == json_view(fields[i].1),
    decreases fields.len(),
{
    if i < fields.len() - 1 {
        assert(fields[fields.len() - 1].0@ != key);
        lemma_fields_last(fields.drop_last(), key, i);
    }
}

/// The map of `fields` lacks a key that no field has.
proof fn lemma_fields_absent(fields: Seq<(String, Json)>, key: Seq<char>)
    requires
        forall|k: int| 0 <= k < fields.len() ==> (#[trigger] fields[k]).0@ != key,
    ensures
        !fields_view(fields).contains_key(key),
    decreases fields.len(),
{
    if fields.len() > 0 {
        assert(fields[fields.len() - 1].0@ != key);
        lemma_fields_absent(fields.drop_last(), key);
    }
}

impl Json {
    /// A string value.
    pub fn text(s: &str) -> (r: Json)
        ensures
            r@ == JsonView::Text(s@),
    {
        Json::Text(s.to_owned())
    }

    /// An unsigned integer value.
    pub fn unsigned(u: u64) -> (r: Json)
        ensures
            r@ == JsonView::Unsigned(u),
    {
        Json::Number(number_from_u64(u))
    }

    /// The field `key` of an object.
    pub fn get(&self, key: &str) -> (r: Option<&Json>)
        ensures
            option_view(r) == self@.get(key@),
    {
        match self {
            Json::Object(fields) => {
                let mut i: usize = fields.len();
                while i > 0
                    invariant
                        i <= fields@.len(),
                        self@ == JsonView::Object(fields_view(fields@)),
                        forall|k: int| i <= k < fields@.len() ==> (#[trigger] fields@[k]).0@ != key@,
                    decreases i,
                {
                    i = i - 1;
                    if crate::text::same(fields[i].0.as_str(), key) {
                        proof {
                            lemma_fields_last(fields@, key@, i as int);
                        }
                        return Some(&fields[i].1);
                    }
                }
                proof {
                    lemma_fields_absent(fields@, key@);
                }
                None
            },
            _ => None,
        }
    }

    /// The item at `i` of an array.
    pub fn at(&self, i: usize) -> (r: Option<&Json>)
        ensures
            option_view(r) == self@.at(i as int),
    {
        match self {
            Json::Array(items) => if i < items.len() {
                Some(&items[i])
            } else {
                None
            },
            _ => None,
        }
    }

    /// The characters of a string.
    pub fn as_str(&self) -> (r: Option<&str>)
        ensures
            option_text(r) == self@.text(),
    {
        match self {
            Json::Text(s) => Some(s.as_str()),
            _ => None,
        }
    }

    /// A number as a `u64`, where it is one.
    pub fn as_u64(&self) -> (r: Option<u64>)
        ensures
            r == self@.unsigned(),
    {
        match self {
            Json::Number(n) => number_as_u64(n),
            _ => None,
        }
    }

    /// The field `key` of an object, where that is a string.
    pub fn get_str(&self, key: &str) -> (r: Option<&str>)
        ensures
            option_text(r) == self@.get_text(key@),
    {
        match self.get(key) {
            Some(v) => v.as_str(),
            None => None,
        }
    }
}

/// Adds a field to those of an object that is being built.
pub fn put(fields: &mut Vec<(String, Json)>, key: &str, value: Json)
    ensures
        fields_view(final(fields)@) == fields_view(old(fields)@).insert(key@, value@),
{
    fields.push((key.to_owned(), value));
    proof {
        assert(fields@.drop_last() == old(fields)@);
    }
}

/// What a `serde_json::Value` holds.
pub uninterp spec fn value_json(v: serde_json::Value) -> JsonView;

/// What a `serde_json::Map` from `String` to `serde_json::Value` holds.
pub uninterp spec fn object_json(m: serde_json::Map<String, serde_json::Value>) -> Map<
    Seq<char>,
    JsonView,
>;

/// `serde_json::from_str` into a `serde_json::Value`: what the parsed value
/// holds, or the text of the error.
pub uninterp spec fn json_from_str(text: Seq<char>) -> Result<JsonView, Seq<char>>;

/// `serde_json::Value::to_string`: the compact text of a value.
pub uninterp spec fn json_text(v: JsonView) -> Seq<char>;

/// One layer of a `serde_json::Value`.
enum Layer {
    Null,
    Bool(bool),
    Number(serde_json::Number),
    Text(String),
    Array(Vec<serde_json::Value>),
    Object(serde_json::Map<String, serde_json::Value>),
}

/// What a layer holds.
spec fn layer_json(layer: Layer) -> JsonView {
    match layer {
        Layer::Null => JsonView::Null,
        Layer::Bool(b) => JsonView::Bool(b),
        Layer::Number(n) => number_json(n),
        Layer::Text(s) => JsonView::Text(s@),
        Layer::Array(items) => JsonView::Array(
            items@.map_values(|v: serde_json::Value| value_json(v)),
        ),
        Layer::Object(m) => JsonView::Object(object_json(m)),
    }
}

/// What the pairs of a `serde_json` object hold.
spec fn pairs_json(pairs: Seq<(String, serde_json::Value)>) -> Map<Seq<char>, JsonView>
    decreases pairs.len(),
{
    if pairs.len() == 0 {
        no_fields()
    } else {
        pairs_json(pairs.drop_last()).insert(pairs.last().0@, value_json(pairs.last().1))
    }
}

/// What a parse by `serde_json` gave.
spec fn outcome_json(r: Result<serde_json::Value, String>) -> Result<JsonView, Seq<char>> {
    match r {
        Ok(v) => Ok(value_json(v)),
        Err(e) => Err(e@),
    }
}

/// Takes the outermost layer off a `serde_json::Value`, one arm for each of
/// its variants.
#[verifier::external_body]
fn take_layer(v: serde_json::Value) -> (layer: Layer)
    ensures
        layer_json(layer) == value_json(v),
{
    match v {
        serde_json::Value::Null => Layer::Null,
        serde_json::Value::Bool(b) => Layer::Bool(b),
        serde_json::Value::Number(n) => Layer::Number(n),
        serde_json::Value::String(s) => Layer::Text(s),
        serde_json::Value::Array(items) => Layer::Array(items),
        serde_json::Value::Object(m) => Layer::Object(m),
    }
}

/// Makes a layer into a `serde_json::Value`, one arm for each of its variants.
#[verifier::external_body]
fn put_layer(layer: Layer) -> (v: serde_json::Value)
    ensures
        value_json(v) == layer_json(layer),
{
    match layer {
        Layer::Null => serde_json::Value::Null,
        Layer::Bool(b) => serde_json::Value::Bool(b),
        Layer::Number(n) => serde_json::Value::Number(n),
        Layer::Text(s) => serde_json::Value::String(s),
        Layer::Array(items) => serde_json::Value::Array(items),
        Layer::Object(m) => serde_json::Value::Object(m),
    }
}

/// Calls `serde_json::Map::new`, which makes an empty map.
#[verifier::external_body]
fn object_new() -> (m: serde_json::Map<String, serde_json::Value>)
    ensures
        object_json(m) == no_fields(),
{
    serde_json::Map::new()
}

/// Calls `serde_json::Map::insert`, which adds a key or gives a key that is
/// there a new value.
#[verifier::external_body]
fn object_insert(
    m: &mut serde_json::Map<String, serde_json::Value>,
    key: String,
    value: serde_json::Value,
)
    ensures
        object_json(*final(m)) == object_json(*old(m)).insert(key@, value_json(value)),
{
    m.insert(key, value);
}

/// Hands out the entries of a `serde_json::Map` by its `into_iter`, each key
/// once.
#[verifier::external_body]
fn object_pairs(m: serde_json::Map<String, serde_json::Value>) -> (r: Vec<(String, serde_json::Value)>)
    ensures
        pairs_json(r@) == object_json(m),
        forall|i: int|
            0 <= i < r@.len() ==> object_json(m).contains_key((#[trigger] r@[i]).0@)
                && object_json(m)[r@[i].0@] == value_json(r@[i].1),
{
    m.into_iter().collect()
}

/// Calls `serde_json::from_str`. What comes back is a function of the text; an
/// error is handed on as its text.
#[verifier::external_body]
fn value_from_str(text: &str) -> (r: Result<serde_json::Value, String>)
    ensures
        outcome_json(r) == json_from_str(text@),
{
    serde_json::from_str::<serde_json::Value>(text).map_err(|e| e.to_string())
}

/// Calls `serde_json::Value::to_string`. The text is a function of what the
/// value holds: the fields of an object are kept, and written, in the order of
/// their keys, for `serde_json` is built without its feature `preserve_order`.
#[verifier::external_body]
fn value_to_string(v: &serde_json::Value) -> (r: String)
    ensures
        r@ == json_text(value_json(*v)),
{
    v.to_string()
}

/// Finitely many pairs hold finitely many keys.
proof fn lemma_pairs_finite(pairs: Seq<(String, serde_json::Value)>)
    ensures
        pairs_json(pairs).dom().finite(),
    decreases pairs.len(),
{
    if pairs.len() > 0 {
        lemma_pairs_finite(pairs.drop_last());
    }
}

/// The value that a `serde_json::Value` holds.
pub fn from_value(v: serde_json::Value) -> (r: Json)
    ensures
        r@ == value_json(v),
    decreases value_json(v),
{
    let ghost whole = value_json(v);
    match take_layer(v) {
        Layer::Null => Json::Null,
        Layer::Bool(b) => Json::Bool(b),
        Layer::Number(n) => Json::Number(n),
        Layer::Text(s) => Json::Text(s),
        Layer::Array(values) => {
            let ghost kids = whole->Array_0;
            let ghost given = values@;
            let mut items: Vec<Json> = Vec::new();
            for value in it: values.into_iter()
                invariant
                    it.seq() == given,
                    whole == value_json(v),
                    whole == JsonView::Array(kids),
                    kids.len() == given.len(),
                    forall|k: int| 0 <= k < given.len() ==> kids[k] == value_json(given[k]),
                    items@.len() == it.index(),
                    forall|k: int|
                        0 <= k < it.index() ==> json_view(#[trigger] items@[k]) == kids[k],
            {
                assert(decreases_to!(whole => whole->Array_0));
                assert(decreases_to!(kids => kids[it.index()]));
                items.push(from_value(value));
            }
            assert(array_view(items@) =~= kids);
            Json::Array(items)
        },
        Layer::Object(m) => {
            let ghost map = object_json(m);
            let pairs = object_pairs(m);
            let ghost given = pairs@;
            proof {
                lemma_pairs_finite(given);
            }
            let mut fields: Vec<(String, Json)> = Vec::new();
            for pair in it: pairs.into_iter()
                invariant
                    it.seq() == given,
                    whole == value_json(v),
                    whole == JsonView::Object(map),
                    map.dom().finite(),
                    forall|k: int|
                        0 <= k < given.len() ==> map.contains_key((#[trigger] given[k]).0@)
                            && map[given[k].0@] == value_json(given[k].1),
                    fields_view(fields@) == pairs_json(given.take(it.index())),
            {
                let ghost before = fields@;
                let ghost done = it.index();
                assert(pair == given[done]);
                assert(decreases_to!(whole => whole->Object_0));
                assert(decreases_to!(map => map[pair.0@]));
                fields.push((pair.0, from_value(pair.1)));
                assert(fields@.drop_last() == before);
                assert(given.take(done + 1).drop_last() == given.take(done));
            }
            assert(given.take(given.len() as int) == given);
            Json::Object(fields)
        },
    }
}

/// The `serde_json::Value` that holds the value `j` stands for.
pub fn to_value(j: &Json) -> (r: serde_json::Value)
    ensures
        value_json(r) == j@,
    decreases j,
{
    match j {
        Json::Null => put_layer(Layer::Null),
        Json::Bool(b) => put_layer(Layer::Bool(*b)),
        Json::Number(n) => put_layer(Layer::Number(number_clone(n))),
        Json::Text(s) => put_layer(Layer::Text(s.clone())),
        Json::Array(items) => {
            let mut values: Vec<serde_json::Value> = Vec::new();
            let mut i: usize = 0;
            while i < items.len()
                invariant
                    i <= items@.len(),
                    values@.len() == i,
                    forall|k: int| 0 <= k < i ==> value_json(#[trigger] values@[k]) == items@[k]@,
                    *j == Json::Array(*items),
                decreases items@.len() - i,
            {
                assert(decreases_to!(*j => j->Array_0));
                assert(decreases_to!(*items => items@));
                assert(decreases_to!(items@ => items@[i as int]));
                values.push(to_value(&items[i]));
                i = i + 1;
            }
            assert(array_view(items@) =~= values@.map_values(
                |v: serde_json::Value| value_json(v),
            ));
            put_layer(Layer::Array(values))
        },
        Json::Object(fields) => {
            let mut m = object_new();
            let mut i: usize = 0;
            assert(fields@.take(0) =~= Seq::empty());
            while i < fields.len()
                invariant
                    i <= fields@.len(),
                    object_json(m) == fields_view(fields@.take(i as int)),
                    *j == Json::Object(*fields),
                decreases fields@.len() - i,
            {
                assert(decreases_to!(*j => j->Object_0));
                assert(decreases_to!(*fields => fields@));
                assert(decreases_to!(fields@ => fields@[i as int]));
                assert(decreases_to!(fields@[i as int] => fields@[i as int].1));
                let value = to_value(&fields[i].1);
                object_insert(&mut m, fields[i].0.clone(), value);
                assert(fields@.take(i + 1).drop_last() == fields@.take(i as int));
                i = i + 1;
            }
            assert(fields@.take(fields@.len() as int) == fields@);
            put_layer(Layer::Object(m))
        },
    }
}

/// What a parse gave.
pub open spec fn parse_view(r: Result<Json, String>) -> Result<JsonView, Seq<char>> {
    match r {
        Ok(j) => Ok(j@),
        Err(e) => Err(e@),
    }
}

/// Parses a JSON text. An error is the parser's own message.
pub fn parse(text: &str) -> (r: Result<Json, String>)
    ensures
        parse_view(r) == json_from_str(text@),
{
    match value_from_str(text) {
        Ok(v) => Ok(from_value(v)),
        Err(e) => Err(e),
    }
}

/// The compact text of a value.
pub fn print(j: &Json) -> (r: String)
    ensures
        r@ == json_text(j@),
{
    let v = to_value(j);
    value_to_string(&v)
}

/// A copy of a value.
pub fn copy(j: &Json) -> (r: Json)
    ensures
        r@ == j@,
    decreases j,
{
    match j {
        Json::Null => Json::Null,
        Json::Bool(b) => Json::Bool(*b),
        Json::Number(n) => Json::Number(number_clone(n)),
        Json::Text(s) => Json::Text(s.clone()),
        Json::Array(items) => {
            let mut out: Vec<Json> = Vec::new();
            let mut i: usize = 0;
            while i < items.len()
                invariant
                    i <= items@.len(),
                    out@.len() == i,
                    forall|k: int| 0 <= k < i ==> json_view(#[trigger] out@[k]) == items@[k]@,
                    *j == Json::Array(*items),
                decreases items@.len() - i,
            {
                assert(decreases_to!(*j => j->Array_0));
                assert(decreases_to!(*items => items@));
                assert(decreases_to!(items@ => items@[i as int]));
                out.push(copy(&items[i]));
                i = i + 1;
            }
            assert(array_view(items@) =~= array_view(out@));
            Json::Array(out)
        },
        Json::Object(fields) => {
            let mut out: Vec<(String, Json)> = Vec::new();
            let mut i: usize = 0;
            assert(fields@.take(0) =~= Seq::empty());
            while i < fields.len()
                invariant
                    i <= fields@.len(),
                    fields_view(out@) == fields_view(fields@.take(i as int)),
                    *j == Json::Object(*fields),
                decreases fields@.len() - i,
            {
                assert(decreases_to!(*j => j->Object_0));
                assert(decreases_to!(*fields => fields@));
                assert(decreases_to!(fields@ => fields@[i as int]));
                assert(decreases_to!(fields@[i as int] => fields@[i as int].1));
                let value = copy(&fields[i].1);
                put(&mut out, fields[i].0.as_str(), value);
                assert(fields@.take(i + 1).drop_last() == fields@.take(i as int));
                i = i + 1;
            }
            assert(fields@.take(fields@.len() as int) == fields@);
            Json::Object(out)
        },
    }
}

/// An array holds its items: each in its place, and no others.
pub proof fn law_an_array_holds_its_items(items: Vec<Json>, i: int)
    ensures
        Json::Array(items)@.items() matches Some(views) && views.len() == items@.len(),
        0 <= i < items@.len() ==> Json::Array(items)@.at(i) == Some(items@[i]@),
        !(0 <= i < items@.len()) ==> Json::Array(items)@.at(i) is None,
        0 <= i < items@.len() ==> array_view(items@)[i] == items@[i]@,
        array_view(items@).len() == items@.len(),
{
}

/// An object has a field where some entry has its key, and the last such entry
/// gives the value.
pub proof fn law_the_last_entry_of_a_key_counts(
    fields: Vec<(String, Json)>,
    key: Seq<char>,
    i: int,
)
    requires
        0 <= i < fields@.len(),
        forall|k: int| i < k < fields@.len() ==> (#[trigger] fields@[k]).0@ != key,
    ensures
        fields@[i].0@ == key ==> Json::Object(fields)@.get(key) == Some(fields@[i].1@),
        (forall|k: int| 0 <= k <= i ==> (#[trigger] fields@[k]).0@ != key) ==> Json::Object(
            fields,
        )@.get(key) is None,
{
    if fields@[i].0@ == key {
        lemma_fields_last(fields@, key, i);
    }
    if forall|k: int| 0 <= k <= i ==> (#[trigger] fields@[k]).0@ != key {
        lemma_fields_absent(fields@, key);
    }
}

/// A string, a boolean and null stand for themselves.
pub proof fn law_scalars_stand_for_themselves(s: String, b: bool)
    ensures
        Json::Text(s)@ == JsonView::Text(s@),
        Json::Bool(b)@ == JsonView::Bool(b),
        Json::Null@ == JsonView::Null,
{
}

/// What is put into an object is found under its key, and nothing else changes
/// by it. Nothing is found in the empty object, nor in what is no object.
pub proof fn law_a_field_is_found_under_its_key(
    fields: Map<Seq<char>, JsonView>,
    key: Seq<char>,
    value: JsonView,
    other: Seq<char>,
)
    ensures
        JsonView::Object(fields.insert(key, value)).get(key) == Some(value),
        other != key ==> JsonView::Object(fields.insert(key, value)).get(other)
            == JsonView::Object(fields).get(other),
        JsonView::Object(Map::empty()).get(key) is None,
        !(value is Object) ==> value.get(key) is None,
{
}

/// What is added to an array is found at its end, and nothing else changes by
/// it. Nothing is found in the empty array, nor in what is no array.
pub proof fn law_an_item_is_found_in_its_place(items: Seq<JsonView>, value: JsonView, i: int)
    ensures
        JsonView::Array(items.push(value)).at(items.len() as int) == Some(value),
        i != items.len() ==> JsonView::Array(items.push(value)).at(i) == JsonView::Array(items).at(
            i,
        ),
        JsonView::Array(Seq::empty()).at(i) is None,
        !(value is Array) ==> value.at(i) is None,
{
}

/// A value is read as a string, an integer or an array exactly where it is that
/// one.
pub proof fn law_values_are_read_as_what_they_are(
    v: JsonView,
    s: Seq<char>,
    u: u64,
    items: Seq<JsonView>,
    key: Seq<char>,
)
    ensures
        v.text() == Some(s) <==> v == JsonView::Text(s),
        v.text() is None <==> !(v is Text),
        v.unsigned() == Some(u) <==> v == JsonView::Unsigned(u),
        v.unsigned() is None <==> !(v is Unsigned),
        v.items() == Some(items) <==> v == JsonView::Array(items),
        v.items() is None <==> !(v is Array),
        v.get_text(key) == Some(s) <==> v.get(key) == Some(JsonView::Text(s)),
        v.get_text(key) is None <==> !(v.get(key) matches Some(JsonView::Text(_))),
{
}

/// A number stands for the integer that it is where it is a `u64`, and else for
/// itself.
pub proof fn law_a_number_stands_for_itself(n: serde_json::Number, u: u64)
    ensures
        number_u64(n) == Some(u) ==> Json::Number(n)@ == JsonView::Unsigned(u),
        number_u64(n) is None ==> Json::Number(n)@ == JsonView::Number(n),
{
}

/// What a parse gave, and what was looked up, is read as it is.
pub proof fn law_outcomes_of_json_are_read_as_they_are(j: Json, e: String)
    ensures
        parse_view(Ok(j)) == Ok::<JsonView, Seq<char>>(j@),
        parse_view(Err(e)) == Err::<JsonView, Seq<char>>(e@),
        option_view(Some(&j)) == Some(j@),
        option_view(None) is None,
{
}

} // verus!
