//! A JSON value model shared by the serializer, the filters and the API layer.
//!
//! Objects keep their entries in key order, as `serde_json`'s map does: a
//! lookup returns the first entry with the requested key, and an insertion
//! replaces that entry or puts a new one before the first entry whose key
//! sorts after it, so an object built by insertions has unique keys in
//! ascending order.
use vstd::prelude::*;

use crate::search::{first_match, is_first, lemma_first_match_is, lemma_first_match_none, lemma_first_match_some};
use crate::text::{lemma_str_le_total, str_eq, str_le, text_le};

verus! {

/// A JSON number as held by `serde_json`: a non-negative integer, a negative
/// integer, or a finite float kept in its JSON text form.
pub enum JsonNumber {
    PosInt(u64),
    NegInt(i64),
    Float(String),
}

/// A JSON document. An object holds its entries in a sequence; the
/// library's own objects keep them in key order.
pub enum JsonValue {
    Null,
    Bool(bool),
    Number(JsonNumber),
    String(String),
    Array(Vec<JsonValue>),
    Object(Vec<(String, JsonValue)>),
}

pub enum NumberView {
    PosInt(u64),
    NegInt(i64),
    Float(Seq<char>),
}

/// The mathematical model of a JSON value.
pub enum JsonView {
    Null,
    Bool(bool),
    Number(NumberView),
    Str(Seq<char>),
    Array(Seq<JsonView>),
    Object(Seq<(Seq<char>, JsonView)>),
}

pub type Entries = Seq<(Seq<char>, JsonView)>;

impl JsonNumber {
    pub open spec fn view_number(self) -> NumberView {
        match self {
            JsonNumber::PosInt(u) => NumberView::PosInt(u),
            JsonNumber::NegInt(i) => NumberView::NegInt(i),
            JsonNumber::Float(s) => NumberView::Float(s@),
        }
    }
}

impl JsonValue {
    pub open spec fn deep(self) -> JsonView
        decreases self,
    {
        match self {
            JsonValue::Null => JsonView::Null,
            JsonValue::Bool(b) => JsonView::Bool(b),
            JsonValue::Number(n) => JsonView::Number(n.view_number()),
            JsonValue::String(s) => JsonView::Str(s@),
            JsonValue::Array(items) => JsonView::Array(deep_items(items@)),
            JsonValue::Object(entries) => JsonView::Object(deep_entries(entries@)),
        }
    }
}

pub open spec fn deep_items(s: Seq<JsonValue>) -> Seq<JsonView>
    decreases s,
{
    if s.len() == 0 {
        Seq::empty()
    } else {
        deep_items(s.subrange(0, s.len() - 1)).push(s[s.len() - 1].deep())
    }
}

pub open spec fn deep_entries(s: Seq<(String, JsonValue)>) -> Entries
    decreases s,
{
    if s.len() == 0 {
        Seq::empty()
    } else {
        deep_entries(s.subrange(0, s.len() - 1)).push((s[s.len() - 1].0@, s[s.len() - 1].1.deep()))
    }
}

impl View for JsonValue {
    type V = JsonView;

    open spec fn view(&self) -> JsonView {
        self.deep()
    }
}

pub proof fn lemma_deep_items(s: Seq<JsonValue>)
    ensures
        deep_items(s).len() == s.len(),
        forall|i: int| 0 <= i < s.len() ==> #[trigger] deep_items(s)[i] == s[i].deep(),
    decreases s.len(),
{
    if s.len() > 0 {
        lemma_deep_items(s.subrange(0, s.len() - 1));
    }
}

pub proof fn lemma_deep_entries(s: Seq<(String, JsonValue)>)
    ensures
        deep_entries(s).len() == s.len(),
        forall|i: int|
            0 <= i < s.len() ==> #[trigger] deep_entries(s)[i] == (s[i].0@, s[i].1.deep()),
    decreases s.len(),
{
    if s.len() > 0 {
        lemma_deep_entries(s.subrange(0, s.len() - 1));
    }
}

pub proof fn lemma_deep_entries_push(s: Seq<(String, JsonValue)>, e: (String, JsonValue))
    ensures
        deep_entries(s.push(e)) == deep_entries(s).push((e.0@, e.1.deep())),
{
    assert(s.push(e).subrange(0, s.len() as int) =~= s);
}

pub proof fn lemma_deep_items_push(s: Seq<JsonValue>, e: JsonValue)
    ensures
        deep_items(s.push(e)) == deep_items(s).push(e.deep()),
{
    assert(s.push(e).subrange(0, s.len() as int) =~= s);
}

impl NumberView {
    pub open spec fn as_i64(self) -> Option<i64> {
        match self {
            NumberView::PosInt(u) => if u <= i64::MAX {
                Some(u as i64)
            } else {
                None
            },
            NumberView::NegInt(i) => Some(i),
            NumberView::Float(_) => None,
        }
    }

    pub open spec fn as_u64(self) -> Option<u64> {
        match self {
            NumberView::PosInt(u) => Some(u),
            _ => None,
        }
    }
}

impl JsonView {
    pub open spec fn as_i64(self) -> Option<i64> {
        match self {
            JsonView::Number(n) => n.as_i64(),
            _ => None,
        }
    }

    pub open spec fn as_u64(self) -> Option<u64> {
        match self {
            JsonView::Number(n) => n.as_u64(),
            _ => None,
        }
    }

    pub open spec fn as_bool(self) -> Option<bool> {
        match self {
            JsonView::Bool(b) => Some(b),
            _ => None,
        }
    }

    pub open spec fn as_str(self) -> Option<Seq<char>> {
        match self {
            JsonView::Str(s) => Some(s),
            _ => None,
        }
    }

    pub open spec fn as_object(self) -> Option<Entries> {
        match self {
            JsonView::Object(e) => Some(e),
            _ => None,
        }
    }
}

/// `i` is the first position of `key` among the entries.
pub open spec fn is_first_key(e: Entries, key: Seq<char>, i: int) -> bool {
    &&& 0 <= i < e.len()
    &&& e[i].0 == key
    &&& forall|j: int| 0 <= j < i ==> e[j].0 != key
}

pub open spec fn has_key(e: Entries, key: Seq<char>) -> bool {
    exists|i: int| 0 <= i < e.len() && e[i].0 == key
}

pub open spec fn first_key_index(e: Entries, key: Seq<char>) -> int {
    choose|i: int| is_first_key(e, key, i)
}

/// The value of the first entry with the given key.
pub open spec fn entries_get(e: Entries, key: Seq<char>) -> Option<JsonView> {
    if has_key(e, key) {
        Some(e[first_key_index(e, key)].1)
    } else {
        None
    }
}

/// `a` sorts strictly before `b`.
pub open spec fn key_before(a: Seq<char>, b: Seq<char>) -> bool {
    !str_le(b, a)
}

pub open spec fn sorts_after(key: Seq<char>) -> spec_fn((Seq<char>, JsonView)) -> bool {
    |x: (Seq<char>, JsonView)| key_before(key, x.0)
}

/// Where a new key goes: before the first entry whose key sorts after it,
/// or at the end.
pub open spec fn insert_position(e: Entries, key: Seq<char>) -> int {
    match first_match(e, sorts_after(key)) {
        Some(i) => i,
        None => e.len() as int,
    }
}

/// Sets `key` to `v`: replaces the first entry with that key, or puts a new
/// entry at its place in key order.
pub open spec fn entries_insert(e: Entries, key: Seq<char>, v: JsonView) -> Entries {
    if has_key(e, key) {
        e.update(first_key_index(e, key), (key, v))
    } else {
        e.insert(insert_position(e, key), (key, v))
    }
}

/// The keys ascend strictly.
pub open spec fn keys_sorted(e: Entries) -> bool {
    forall|i: int, j: int| 0 <= i < j < e.len() ==> key_before(#[trigger] e[i].0, #[trigger] e[j].0)
}

pub proof fn lemma_insert_position(e: Entries, key: Seq<char>)
    ensures
        0 <= insert_position(e, key) <= e.len(),
        forall|j: int| 0 <= j < insert_position(e, key) ==> !key_before(key, #[trigger] e[j].0),
        insert_position(e, key) < e.len() ==> key_before(key, e[insert_position(e, key)].0),
{
    if crate::search::any_match(e, sorts_after(key)) {
        lemma_first_match_some(e, sorts_after(key));
        let i = insert_position(e, key);
        assert(is_first(e, sorts_after(key), i));
        assert forall|j: int| 0 <= j < i implies !key_before(key, #[trigger] e[j].0) by {
            assert(!sorts_after(key)(e[j]));
        }
    } else {
        assert forall|j: int| 0 <= j < e.len() implies !key_before(key, #[trigger] e[j].0) by {
            assert(!sorts_after(key)(e[j]));
        }
    }
}

pub open spec fn keys_unique(e: Entries) -> bool {
    forall|i: int, j: int| 0 <= i < j < e.len() ==> e[i].0 != e[j].0
}

pub proof fn lemma_first_key(e: Entries, key: Seq<char>, i: int)
    requires
        is_first_key(e, key, i),
    ensures
        has_key(e, key),
        first_key_index(e, key) == i,
        entries_get(e, key) == Some(e[i].1),
{
    let k = first_key_index(e, key);
    assert(is_first_key(e, key, k));
    if k < i {
        assert(e[k].0 != key);
    }
    if i < k {
        assert(e[i].0 != key);
    }
}

pub proof fn lemma_has_key_first(e: Entries, key: Seq<char>)
    requires
        has_key(e, key),
    ensures
        is_first_key(e, key, first_key_index(e, key)),
    decreases e.len(),
{
    let d = e.drop_last();
    if has_key(d, key) {
        lemma_has_key_first(d, key);
        let k = first_key_index(d, key);
        assert forall|j: int| 0 <= j < k implies e[j].0 != key by {
            assert(d[j] == e[j]);
        }
        assert(is_first_key(e, key, k));
    } else {
        let i = choose|i: int| 0 <= i < e.len() && e[i].0 == key;
        if i < e.len() - 1 {
            assert(d[i] == e[i]);
            assert(d[i].0 == key);
        }
        assert forall|j: int| 0 <= j < e.len() - 1 implies e[j].0 != key by {
            assert(d[j] == e[j]);
        }
        assert(is_first_key(e, key, e.len() - 1));
    }
}

impl JsonValue {
    /// A copy of the value.
    pub fn copy_value(&self) -> (r: JsonValue)
        ensures
            r@ == self@,
        decreases self,
    {
        match self {
            JsonValue::Null => JsonValue::Null,
            JsonValue::Bool(b) => JsonValue::Bool(*b),
            JsonValue::Number(n) => JsonValue::Number(
                match n {
                    JsonNumber::PosInt(u) => JsonNumber::PosInt(*u),
                    JsonNumber::NegInt(i) => JsonNumber::NegInt(*i),
                    JsonNumber::Float(s) => JsonNumber::Float(s.clone()),
                },
            ),
            JsonValue::String(s) => JsonValue::String(s.clone()),
            JsonValue::Array(items) => JsonValue::Array(copy_items(items)),
            JsonValue::Object(entries) => {
                let r = copy_entries(entries);
                JsonValue::Object(r)
            },
        }
    }
}

/// A copy of a list of values.
pub fn copy_items(items: &Vec<JsonValue>) -> (r: Vec<JsonValue>)
    ensures
        deep_items(r@) == deep_items(items@),
    decreases items,
{
    let mut out: Vec<JsonValue> = Vec::new();
    let mut i: usize = 0;
    while i < items.len()
        invariant
            i <= items.len(),
            deep_items(out@) == deep_items(items@.subrange(0, i as int)),
        decreases items.len() - i,
    {
        proof {
            assert(decreases_to!(items => items@));
            assert(decreases_to!(items@ => items@[i as int]));
        }
        let c = items[i].copy_value();
        proof {
            lemma_deep_items_push(out@, c);
            lemma_deep_items_push(items@.subrange(0, i as int), items@[i as int]);
            assert(items@.subrange(0, i as int).push(items@[i as int]) =~= items@.subrange(
                0,
                i + 1,
            ));
        }
        out.push(c);
        i = i + 1;
    }
    assert(items@.subrange(0, items.len() as int) =~= items@);
    out
}

/// A copy of a list of object entries.
pub fn copy_entries(entries: &Vec<(String, JsonValue)>) -> (r: Vec<(String, JsonValue)>)
    ensures
        deep_entries(r@) == deep_entries(entries@),
    decreases entries,
{
    let mut out: Vec<(String, JsonValue)> = Vec::new();
    let mut i: usize = 0;
    while i < entries.len()
        invariant
            i <= entries.len(),
            deep_entries(out@) == deep_entries(entries@.subrange(0, i as int)),
        decreases entries.len() - i,
    {
        proof {
            assert(decreases_to!(entries => entries@));
            assert(decreases_to!(entries@ => entries@[i as int]));
        }
        let k = entries[i].0.clone();
        let c = entries[i].1.copy_value();
        proof {
            lemma_deep_entries_push(out@, (k, c));
            lemma_deep_entries_push(entries@.subrange(0, i as int), entries@[i as int]);
            assert(entries@.subrange(0, i as int).push(entries@[i as int]) =~= entries@.subrange(
                0,
                i + 1,
            ));
        }
        out.push((k, c));
        i = i + 1;
    }
    assert(entries@.subrange(0, entries.len() as int) =~= entries@);
    out
}

impl JsonValue {
    /// `Value::as_i64`.
    pub fn as_i64(&self) -> (r: Option<i64>)
        ensures
            r == self@.as_i64(),
    {
        match self {
            JsonValue::Number(JsonNumber::PosInt(u)) => {
                if *u <= 0x7fff_ffff_ffff_ffffu64 {
                    Some(*u as i64)
                } else {
                    None
                }
            },
            JsonValue::Number(JsonNumber::NegInt(i)) => Some(*i),
            _ => None,
        }
    }

    /// `Value::as_u64`.
    pub fn as_u64(&self) -> (r: Option<u64>)
        ensures
            r == self@.as_u64(),
    {
        match self {
            JsonValue::Number(JsonNumber::PosInt(u)) => Some(*u),
            _ => None,
        }
    }

    /// `Value::as_bool`.
    pub fn as_bool(&self) -> (r: Option<bool>)
        ensures
            r == self@.as_bool(),
    {
        match self {
            JsonValue::Bool(b) => Some(*b),
            _ => None,
        }
    }

    /// `Value::is_null`.
    pub fn is_null(&self) -> (r: bool)
        ensures
            r == (self@ == JsonView::Null),
    {
        match self {
            JsonValue::Null => true,
            _ => false,
        }
    }

    /// `Value::is_number`, which is also when `Value::as_f64` gives a value.
    pub fn is_number(&self) -> (r: bool)
        ensures
            r == (self@ is Number),
    {
        match self {
            JsonValue::Number(_) => true,
            _ => false,
        }
    }

    /// `Value::as_str`.
    pub fn as_str(&self) -> (r: Option<&String>)
        ensures
            match r {
                Some(s) => self@.as_str() == Some(s@),
                None => self@.as_str() is None,
            },
    {
        match self {
            JsonValue::String(s) => Some(s),
            _ => None,
        }
    }

    /// `Value::as_object`.
    pub fn as_object(&self) -> (r: Option<&Vec<(String, JsonValue)>>)
        ensures
            match r {
                Some(e) => self@.as_object() == Some(deep_entries(e@)),
                None => self@.as_object() is None,
            },
    {
        match self {
            JsonValue::Object(e) => Some(e),
            _ => None,
        }
    }
}

/// The value of the first entry with the given key.
pub fn object_get<'a>(entries: &'a Vec<(String, JsonValue)>, key: &str) -> (r: Option<&'a JsonValue>)
    ensures
        match r {
            Some(v) => entries_get(deep_entries(entries@), key@) == Some(v@),
            None => entries_get(deep_entries(entries@), key@) is None,
        },
{
    let ghost e = deep_entries(entries@);
    proof {
        lemma_deep_entries(entries@);
    }
    let mut i: usize = 0;
    while i < entries.len()
        invariant
            i <= entries.len(),
            e == deep_entries(entries@),
            e.len() == entries@.len(),
            forall|j: int| 0 <= j < i ==> e[j].0 != key@,
        decreases entries.len() - i,
    {
        if str_eq(entries[i].0.as_str(), key) {
            proof {
                lemma_deep_entries(entries@);
                assert(e[i as int] == (entries@[i as int].0@, entries@[i as int].1.deep()));
                lemma_first_key(e, key@, i as int);
            }
            return Some(&entries[i].1);
        }
        proof {
            lemma_deep_entries(entries@);
            assert(e[i as int] == (entries@[i as int].0@, entries@[i as int].1.deep()));
        }
        i = i + 1;
    }
    None
}

/// Whether an entry has the given key.
pub fn object_has(entries: &Vec<(String, JsonValue)>, key: &str) -> (r: bool)
    ensures
        r == has_key(deep_entries(entries@), key@),
{
    match object_get(entries, key) {
        Some(_) => true,
        None => false,
    }
}

/// Sets `key` to `v`, as `Map::insert` does.
pub fn object_insert(entries: &mut Vec<(String, JsonValue)>, key: String, v: JsonValue)
    ensures
        deep_entries(final(entries)@) == entries_insert(deep_entries(old(entries)@), key@, v@),
{
    let ghost e = deep_entries(entries@);
    proof {
        lemma_deep_entries(entries@);
    }
    let mut i: usize = 0;
    while i < entries.len()
        invariant
            i <= entries.len(),
            entries@ == old(entries)@,
            e == deep_entries(entries@),
            e.len() == entries@.len(),
            forall|j: int| 0 <= j < i ==> e[j].0 != key@,
        decreases entries.len() - i,
    {
        if str_eq(entries[i].0.as_str(), key.as_str()) {
            proof {
                lemma_deep_entries(entries@);
                assert(e[i as int] == (entries@[i as int].0@, entries@[i as int].1.deep()));
                lemma_first_key(e, key@, i as int);
            }
            let ghost k = key;
            let ghost x = v;
            entries.set(i, (key, v));
            proof {
                lemma_deep_entries(entries@);
                assert(deep_entries(entries@) =~= e.update(i as int, (k@, x@)));
            }
            return;
        }
        proof {
            lemma_deep_entries(entries@);
            assert(e[i as int] == (entries@[i as int].0@, entries@[i as int].1.deep()));
        }
        i = i + 1;
    }
    let mut p: usize = 0;
    while p < entries.len() && text_le(entries[p].0.as_str(), key.as_str())
        invariant
            p <= entries.len(),
            entries@ == old(entries)@,
            e == deep_entries(entries@),
            e.len() == entries@.len(),
            forall|j: int| 0 <= j < p ==> !sorts_after(key@)(#[trigger] e[j]),
        decreases entries.len() - p,
    {
        proof {
            lemma_deep_entries(entries@);
            assert(e[p as int] == (entries@[p as int].0@, entries@[p as int].1.deep()));
        }
        p = p + 1;
    }
    proof {
        lemma_deep_entries(entries@);
        assert(!has_key(e, key@));
        if p < entries.len() {
            assert(e[p as int] == (entries@[p as int].0@, entries@[p as int].1.deep()));
            lemma_first_match_is(e, sorts_after(key@), p as int);
        } else {
            lemma_first_match_none(e, sorts_after(key@));
        }
        assert(insert_position(e, key@) == p);
    }
    let ghost item = (key, v);
    let ghost before = entries@;
    entries.insert(p, (key, v));
    proof {
        before.insert_ensures(p as int, item);
        e.insert_ensures(p as int, (item.0@, item.1@));
        lemma_deep_entries(entries@);
        lemma_deep_entries(before);
        assert forall|j: int| 0 <= j < entries@.len() implies #[trigger] deep_entries(entries@)[j] == e.insert(p as int, (item.0@, item.1@))[j] by {
            if j < p {
                assert(entries@[j] == before[j]);
            } else if j > p {
                assert(entries@[(j - 1) + 1] == before[j - 1]);
            }
        }
        assert(deep_entries(entries@) =~= e.insert(p as int, (item.0@, item.1@)));
    }
}

#[verifier::external_type_specification]
#[verifier::external_body]
pub struct ExSerdeValue(serde_json::Value);

#[verifier::external_type_specification]
#[verifier::external_body]
pub struct ExSerdeNumber(serde_json::Number);

/// The compact JSON text that `serde_json` writes for a value.
pub uninterp spec fn json_text(v: JsonView) -> Seq<char>;

/// The value that `serde_json` reads from a text, where the text is JSON.
pub uninterp spec fn json_parse(text: Seq<char>) -> Option<JsonView>;

/// The containers of `v` are nested at most `n` deep.
pub open spec fn nests_within(v: JsonView, n: int) -> bool
    decreases v,
{
    match v {
        JsonView::Array(items) => n >= 1 && forall|i: int|
            0 <= i < items.len() ==> nests_within(#[trigger] items[i], n - 1),
        JsonView::Object(es) => n >= 1 && forall|i: int|
            0 <= i < es.len() ==> nests_within(#[trigger] es[i].1, n - 1),
        _ => true,
    }
}

/// `v` holds no float, its negative integers are below zero, and each of its
/// objects has its keys strictly ascending: the forms in which `serde_json`
/// holds a value it has read.
pub open spec fn plain_json(v: JsonView) -> bool
    decreases v,
{
    match v {
        JsonView::Number(NumberView::Float(_)) => false,
        JsonView::Number(NumberView::NegInt(i)) => i < 0,
        JsonView::Array(items) => forall|i: int| 0 <= i < items.len() ==> plain_json(#[trigger] items[i]),
        JsonView::Object(es) => (forall|i: int, j: int|
            #![trigger es[i], es[j]]
            0 <= i < j < es.len() ==> key_before(es[i].0, es[j].0)) && forall|i: int|
            0 <= i < es.len() ==> plain_json(#[trigger] es[i].1),
        _ => true,
    }
}

/// A value that `serde_json` reads back from the text it writes for it: a
/// plain value whose containers are nested fewer than 128 deep, the reader's
/// depth limit.
pub open spec fn reads_back(v: JsonView) -> bool {
    plain_json(v) && nests_within(v, 127)
}

/// Builds the `serde_json` number for a library number; a float is read back
/// from the text it was read from, and a float text that is not a JSON number
/// becomes `null`.
#[verifier::external_body]
fn number_to_serde(n: &JsonNumber) -> serde_json::Value {
    match n {
        JsonNumber::PosInt(u) => serde_json::Value::from(*u),
        JsonNumber::NegInt(i) => serde_json::Value::from(*i),
        JsonNumber::Float(t) => serde_json::from_str(t).unwrap_or(serde_json::Value::Null),
    }
}

/// Builds the `serde_json` value for a library value, variant by variant.
#[verifier::external_body]
fn to_serde(v: &JsonValue) -> serde_json::Value {
    match v {
        JsonValue::Null => serde_json::Value::Null,
        JsonValue::Bool(b) => serde_json::Value::Bool(*b),
        JsonValue::Number(n) => number_to_serde(n),
        JsonValue::String(s) => serde_json::Value::String(s.clone()),
        JsonValue::Array(a) => serde_json::Value::Array(a.iter().map(to_serde).collect()),
        JsonValue::Object(o) => serde_json::Value::Object(o.iter().map(|(k, x)| (k.clone(), to_serde(x))).collect()),
    }
}

/// Builds the library number for a `serde_json` number, by the kind of
/// number it holds: a non-negative integer, a negative integer or a float.
#[verifier::external_body]
fn number_from_serde(n: &serde_json::Number) -> JsonNumber {
    match (n.as_u64(), n.as_i64()) {
        (Some(u), _) => JsonNumber::PosInt(u),
        (None, Some(i)) => JsonNumber::NegInt(i),
        (None, None) => JsonNumber::Float(n.to_string()),
    }
}

/// Builds the library value for a `serde_json` value, variant by variant.
#[verifier::external_body]
fn from_serde(v: serde_json::Value) -> JsonValue {
    match v {
        serde_json::Value::Null => JsonValue::Null,
        serde_json::Value::Bool(b) => JsonValue::Bool(b),
        serde_json::Value::Number(n) => JsonValue::Number(number_from_serde(&n)),
        serde_json::Value::String(s) => JsonValue::String(s),
        serde_json::Value::Array(a) => JsonValue::Array(a.into_iter().map(from_serde).collect()),
        serde_json::Value::Object(o) => JsonValue::Object(o.into_iter().map(|(k, x)| (k, from_serde(x))).collect()),
    }
}

/// The JSON text of a value.
///
/// Calls `serde_json`'s `Display` for `Value` (`to_string`). The contract
/// names the result, a function of the value, and states that
/// `serde_json::from_str` reads that text back as the value where the value
/// is plain and nested fewer than 128 deep: the writer escapes every string
/// and key and prints integers in decimal, the reader undoes both, a
/// non-negative integer is read as `PosInt` and a negative one as `NegInt`,
/// and both sides hold an object's entries in key order. Of a float, a
/// non-negative `NegInt`, unordered keys or deeper nesting it says nothing.
#[verifier::external_body]
pub(crate) fn json_to_text(v: &JsonValue) -> (r: String)
    ensures
        r@ == json_text(v@),
        reads_back(v@) ==> json_parse(r@) == Some(v@),
{
    to_serde(v).to_string()
}

/// Reads a JSON text.
///
/// Calls `serde_json::from_str::<Value>`; `None` where it returns an error.
/// The contract only names the result: it is a function of the text.
#[verifier::external_body]
pub(crate) fn parse_json(text: &str) -> (r: Option<JsonValue>)
    ensures
        match r {
            Some(v) => json_parse(text@) == Some(v@),
            None => json_parse(text@) is None,
        },
{
    serde_json::from_str::<serde_json::Value>(text).ok().map(from_serde)
}

/// Every key of an object after an insertion is the inserted key or a key it had.
pub proof fn lemma_insert_keys(e: Entries, key: Seq<char>, v: JsonView)
    ensures
        forall|i: int| 0 <= i < entries_insert(e, key, v).len() ==> (#[trigger] entries_insert(e, key, v)[i]).0 == key
            || has_key(e, entries_insert(e, key, v)[i].0),
        has_key(entries_insert(e, key, v), key),
        forall|k: Seq<char>| has_key(e, k) ==> #[trigger] has_key(entries_insert(e, key, v), k),
{
    let r = entries_insert(e, key, v);
    if has_key(e, key) {
        lemma_has_key_first(e, key);
        let idx = first_key_index(e, key);
        assert forall|i: int| 0 <= i < r.len() implies (#[trigger] r[i]).0 == key || has_key(e, r[i].0) by {
            if i != idx {
                assert(r[i] == e[i]);
            }
        }
        assert(r[idx].0 == key);
        assert forall|k: Seq<char>| has_key(e, k) implies #[trigger] has_key(r, k) by {
            let j = choose|j: int| 0 <= j < e.len() && e[j].0 == k;
            if j == idx {
                assert(r[idx].0 == key);
                assert(e[idx].0 == key);
            } else {
                assert(r[j] == e[j]);
            }
        }
    } else {
        lemma_insert_position(e, key);
        let p = insert_position(e, key);
        e.insert_ensures(p, (key, v));
        assert forall|i: int| 0 <= i < r.len() implies (#[trigger] r[i]).0 == key || has_key(e, r[i].0) by {
            if i < p {
                assert(r[i] == e[i]);
            } else if i > p {
                assert(r[(i - 1) + 1] == e[i - 1]);
            }
        }
        assert(r[p].0 == key);
        assert forall|k: Seq<char>| has_key(e, k) implies #[trigger] has_key(r, k) by {
            let j = choose|j: int| 0 <= j < e.len() && e[j].0 == k;
            if j < p {
                assert(r[j] == e[j]);
            } else {
                assert(r[j + 1] == e[j]);
            }
        }
    }
}

/// The value of a key after an insertion: the inserted value for the
/// inserted key, and what it was for every other key.
pub proof fn lemma_get_insert(e: Entries, key: Seq<char>, v: JsonView, k: Seq<char>)
    ensures
        entries_get(entries_insert(e, key, v), k) == if k == key {
            Some(v)
        } else {
            entries_get(e, k)
        },
{
    let r = entries_insert(e, key, v);
    if has_key(e, key) {
        lemma_has_key_first(e, key);
        let idx = first_key_index(e, key);
        if k == key {
            assert forall|j: int| 0 <= j < idx implies r[j].0 != k by {
                assert(r[j] == e[j]);
            }
            assert(is_first_key(r, k, idx));
            lemma_first_key(r, k, idx);
        } else if has_key(e, k) {
            lemma_has_key_first(e, k);
            let i = first_key_index(e, k);
            assert(r[i] == e[i]);
            assert forall|j: int| 0 <= j < i implies r[j].0 != k by {
                if j != idx {
                    assert(r[j] == e[j]);
                }
            }
            assert(is_first_key(r, k, i));
            lemma_first_key(r, k, i);
            lemma_first_key(e, k, i);
        } else {
            assert forall|j: int| 0 <= j < r.len() implies r[j].0 != k by {
                if j != idx {
                    assert(r[j] == e[j]);
                }
            }
        }
    } else {
        lemma_insert_position(e, key);
        let p = insert_position(e, key);
        e.insert_ensures(p, (key, v));
        if k == key {
            assert forall|j: int| 0 <= j < p implies r[j].0 != k by {
                assert(r[j] == e[j]);
            }
            assert(is_first_key(r, k, p));
            lemma_first_key(r, k, p);
        } else if has_key(e, k) {
            lemma_has_key_first(e, k);
            let i = first_key_index(e, k);
            let ri = if i < p { i } else { i + 1 };
            assert(r[ri] == e[i]);
            assert forall|j: int| 0 <= j < ri implies r[j].0 != k by {
                if j < p {
                    assert(r[j] == e[j]);
                } else if j > p {
                    assert(r[(j - 1) + 1] == e[j - 1]);
                }
            }
            assert(is_first_key(r, k, ri));
            lemma_first_key(r, k, ri);
            lemma_first_key(e, k, i);
        } else {
            assert forall|j: int| 0 <= j < r.len() implies r[j].0 != k by {
                if j < p {
                    assert(r[j] == e[j]);
                } else if j > p {
                    assert(r[(j - 1) + 1] == e[j - 1]);
                }
            }
        }
    }
}

proof fn lemma_key_before_trans(a: Seq<char>, b: Seq<char>, c: Seq<char>)
    requires
        key_before(a, b),
        key_before(b, c),
    ensures
        key_before(a, c),
{
    lemma_str_le_total(a, b);
    lemma_str_le_total(b, c);
    if str_le(c, a) {
        crate::text::lemma_str_le_trans(c, a, b);
    }
}

/// Inserting into an object whose keys ascend keeps them ascending: an
/// object built by insertions has its entries in key order, as a
/// `serde_json` map keeps them.
pub proof fn law_insertion_keeps_key_order(e: Entries, key: Seq<char>, v: JsonView)
    requires
        keys_sorted(e),
    ensures
        keys_sorted(entries_insert(e, key, v)),
{
    let r = entries_insert(e, key, v);
    if has_key(e, key) {
        lemma_has_key_first(e, key);
        let idx = first_key_index(e, key);
        assert forall|i: int, j: int| 0 <= i < j < r.len() implies key_before(#[trigger] r[i].0, #[trigger] r[j].0) by {
            assert(r[i].0 == e[i].0);
            assert(r[j].0 == e[j].0);
        }
    } else {
        lemma_insert_position(e, key);
        let p = insert_position(e, key);
        e.insert_ensures(p, (key, v));
        assert forall|j: int| 0 <= j < p implies key_before(#[trigger] e[j].0, key) by {
            assert(!key_before(key, e[j].0));
            lemma_str_le_total(key, e[j].0);
            if str_le(key, e[j].0) {
                crate::text::lemma_str_le_antisym(key, e[j].0);
                assert(e[j].0 == key);
            }
        }
        assert forall|j: int| p <= j < e.len() implies key_before(key, #[trigger] e[j].0) by {
            if j > p {
                assert(key_before(e[p].0, e[j].0));
                lemma_key_before_trans(key, e[p].0, e[j].0);
            }
        }
        assert forall|i: int, j: int| 0 <= i < j < r.len() implies key_before(#[trigger] r[i].0, #[trigger] r[j].0) by {
            if j < p {
                assert(r[i] == e[i] && r[j] == e[j]);
            } else if j == p {
                assert(r[i] == e[i]);
            } else if i < p {
                assert(r[i] == e[i]);
                assert(r[(j - 1) + 1] == e[j - 1]);
                assert(key_before(e[i].0, key));
                lemma_key_before_trans(e[i].0, key, e[j - 1].0);
            } else if i == p {
                assert(r[(j - 1) + 1] == e[j - 1]);
            } else {
                assert(r[(i - 1) + 1] == e[i - 1]);
                assert(r[(j - 1) + 1] == e[j - 1]);
            }
        }
    }
}

/// The value of a key after appending an entry.
pub proof fn lemma_get_push(e: Entries, x: (Seq<char>, JsonView), k: Seq<char>)
    ensures
        entries_get(e.push(x), k) == if has_key(e, k) {
            entries_get(e, k)
        } else if x.0 == k {
            Some(x.1)
        } else {
            None
        },
{
    let r = e.push(x);
    if has_key(e, k) {
        lemma_has_key_first(e, k);
        let i = first_key_index(e, k);
        assert(r[i] == e[i]);
        assert forall|j: int| 0 <= j < i implies r[j].0 != k by {
            assert(r[j] == e[j]);
        }
        assert(is_first_key(r, k, i));
        lemma_first_key(r, k, i);
    } else if x.0 == k {
        assert forall|j: int| 0 <= j < e.len() implies r[j].0 != k by {
            assert(r[j] == e[j]);
        }
        assert(is_first_key(r, k, e.len() as int));
        lemma_first_key(r, k, e.len() as int);
    } else {
        assert forall|j: int| 0 <= j < r.len() implies r[j].0 != k by {
            if j < e.len() {
                assert(r[j] == e[j]);
            }
        }
    }
}

} // verus!
