//! The module configuration as a tree of plain values.

use crate::text::{
    before, diverges_at, lemma_before_is_strict, lemma_before_is_transitive, order_of, same_text,
    Order,
};
use vstd::prelude::*;

verus! {

/// The keys come in strictly ascending order, so no key comes twice.
pub open spec fn ascending<M>(entries: Seq<(Seq<char>, M)>) -> bool {
    forall|i: int, j: int|
        0 <= i < j < entries.len() ==> before(#[trigger] entries[i].0, #[trigger] entries[j].0)
}

/// The value under `key`.
pub open spec fn lookup<M>(entries: Seq<(Seq<char>, M)>, key: Seq<char>) -> Option<M>
    decreases entries.len(),
{
    if entries.len() == 0 {
        None
    } else if entries[0].0 == key {
        Some(entries[0].1)
    } else {
        lookup(entries.drop_first(), key)
    }
}

/// The number of entries in front whose keys come before `key`.
pub open spec fn slot<M>(entries: Seq<(Seq<char>, M)>, key: Seq<char>) -> nat
    decreases entries.len(),
{
    if entries.len() > 0 && before(entries[0].0, key) {
        1 + slot(entries.drop_first(), key)
    } else {
        0
    }
}

/// The entries once `value` is stored under `key`: in place of the entry of
/// that key, or else behind the entries whose keys come before it.
pub open spec fn inserted<M>(entries: Seq<(Seq<char>, M)>, key: Seq<char>, value: M) -> Seq<
    (Seq<char>, M),
> {
    let at = slot(entries, key) as int;
    if at < entries.len() && entries[at].0 == key {
        entries.update(at, (key, value))
    } else {
        entries.insert(at, (key, value))
    }
}

/// The keys of the entries, in order.
pub open spec fn keys_of<M>(entries: Seq<(Seq<char>, M)>) -> Seq<Seq<char>> {
    entries.map_values(|entry: (Seq<char>, M)| entry.0)
}

/// `at` entries come before `key` and the entry there does not.
proof fn lemma_slot<M>(entries: Seq<(Seq<char>, M)>, key: Seq<char>, at: int)
    requires
        0 <= at <= entries.len(),
        forall|i: int| 0 <= i < at ==> before(#[trigger] entries[i].0, key),
        at < entries.len() ==> !before(entries[at].0, key),
    ensures
        slot(entries, key) == at,
    decreases entries.len(),
{
    if at > 0 {
        let rest = entries.drop_first();
        assert forall|i: int| 0 <= i < at - 1 implies before(#[trigger] rest[i].0, key) by {
            assert(rest[i] == entries[i + 1]);
        }
        lemma_slot(rest, key, at - 1);
    }
}

/// A slot is a position in the list or its end.
proof fn lemma_slot_is_within<M>(entries: Seq<(Seq<char>, M)>, key: Seq<char>)
    ensures
        slot(entries, key) <= entries.len(),
    decreases entries.len(),
{
    if entries.len() > 0 {
        lemma_slot_is_within(entries.drop_first(), key);
    }
}

/// An entry whose key comes behind all others is stored at the end.
pub proof fn lemma_inserted_at_the_end<M>(entries: Seq<(Seq<char>, M)>, key: Seq<char>, value: M)
    requires
        forall|i: int| 0 <= i < entries.len() ==> before(#[trigger] entries[i].0, key),
    ensures
        inserted(entries, key, value) == entries.push((key, value)),
{
    lemma_slot(entries, key, entries.len() as int);
    assert(entries.insert(entries.len() as int, (key, value)) =~= entries.push((key, value)));
}

/// What is found under a key is one of the entries, and nothing is found only
/// where no entry has the key.
pub proof fn law_found_value_is_an_entry<M>(entries: Seq<(Seq<char>, M)>, key: Seq<char>)
    ensures
        lookup(entries, key) is None ==> forall|i: int|
            0 <= i < entries.len() ==> #[trigger] entries[i].0 != key,
        lookup(entries, key) matches Some(value) ==> exists|i: int|
            0 <= i < entries.len() && #[trigger] entries[i] == (key, value),
    decreases entries.len(),
{
    if entries.len() > 0 && entries[0].0 != key {
        let rest = entries.drop_first();
        law_found_value_is_an_entry(rest, key);
        assert forall|i: int|
            0 <= i < entries.len() && lookup(entries, key) is None implies #[trigger] entries[i].0
            != key by {
            if i > 0 {
                assert(rest[i - 1] == entries[i]);
            }
        }
        if lookup(entries, key) is Some {
            let value = lookup(entries, key)->0;
            let i = choose|i: int| 0 <= i < rest.len() && #[trigger] rest[i] == (key, value);
            assert(entries[i + 1] == (key, value));
        }
    } else if entries.len() > 0 {
        assert(entries[0] == (key, entries[0].1));
    }
}

/// In a map each entry is found under its key.
pub proof fn law_each_entry_is_found<M>(entries: Seq<(Seq<char>, M)>, i: int)
    requires
        ascending(entries),
        0 <= i < entries.len(),
    ensures
        lookup(entries, entries[i].0) == Some(entries[i].1),
    decreases entries.len(),
{
    if i > 0 {
        let rest = entries.drop_first();
        assert(before(entries[0].0, entries[i].0));
        lemma_before_is_strict(entries[0].0, entries[i].0);
        lemma_before_is_strict(entries[i].0, entries[i].0);
        assert forall|a: int, b: int| 0 <= a < b < rest.len() implies before(
            #[trigger] rest[a].0,
            #[trigger] rest[b].0,
        ) by {
            assert(before(entries[a + 1].0, entries[b + 1].0));
        }
        law_each_entry_is_found(rest, i - 1);
    }
}

/// A value is found under the key it was stored under, and what is found under
/// any other key is what was found there before.
pub proof fn law_stored_value_is_found<M>(
    entries: Seq<(Seq<char>, M)>,
    key: Seq<char>,
    value: M,
    other: Seq<char>,
)
    ensures
        lookup(inserted(entries, key, value), key) == Some(value),
        other != key ==> lookup(inserted(entries, key, value), other) == lookup(entries, other),
    decreases entries.len(),
{
    let stored = inserted(entries, key, value);
    if entries.len() > 0 && before(entries[0].0, key) {
        let rest = entries.drop_first();
        law_stored_value_is_found(rest, key, value, other);
        lemma_before_is_strict(key, key);
        lemma_slot_is_within(rest, key);
        let at = slot(rest, key) as int;
        assert(slot(entries, key) == at + 1);
        assert(at < rest.len() ==> rest[at] == entries[at + 1]);
        assert(stored.drop_first() == inserted(rest, key, value));
    } else if entries.len() > 0 && entries[0].0 == key {
        assert(stored.drop_first() == entries.drop_first());
    } else {
        assert(stored.drop_first() == entries);
    }
}

/// A map from texts to values that keeps its entries in ascending order of
/// their keys, each key once.
#[derive(Debug)]
pub struct SortedMap<V> {
    entries: Vec<(String, V)>,
}

impl<V: View> View for SortedMap<V> {
    type V = Seq<(Seq<char>, V::V)>;

    closed spec fn view(&self) -> Seq<(Seq<char>, V::V)> {
        Seq::new(self.entries@.len(), |i: int| (self.entries@[i].0@, self.entries@[i].1@))
    }
}

impl<V> SortedMap<V> {
    #[verifier::type_invariant]
    spec fn keys_ascend(&self) -> bool {
        forall|i: int, j: int|
            0 <= i < j < self.entries@.len() ==> before(
                #[trigger] self.entries@[i].0@,
                #[trigger] self.entries@[j].0@,
            )
    }
}

impl<V: View> SortedMap<V> {
    /// The map without entries.
    pub fn new() -> (r: Self)
        ensures
            r@ == Seq::<(Seq<char>, V::V)>::empty(),
    {
        let r = SortedMap { entries: Vec::new() };
        assert(r@ =~= Seq::<(Seq<char>, V::V)>::empty());
        r
    }

    /// The number of entries.
    pub fn len(&self) -> (r: usize)
        ensures
            r == self@.len(),
            ascending(self@),
    {
        proof {
            use_type_invariant(self);
        }
        self.entries.len()
    }

    /// The key of the entry at position `i`.
    pub fn key_at(&self, i: usize) -> (r: &String)
        requires
            i < self@.len(),
        ensures
            r@ == self@[i as int].0,
    {
        &self.entries[i].0
    }

    /// The value of the entry at position `i`.
    pub fn value_at(&self, i: usize) -> (r: &V)
        requires
            i < self@.len(),
        ensures
            r@ == self@[i as int].1,
    {
        &self.entries[i].1
    }

    /// The value under `key`.
    pub fn get(&self, key: &str) -> (r: Option<&V>)
        ensures
            match r {
                Some(value) => lookup(self@, key@) == Some(value@),
                None => lookup(self@, key@) is None,
            },
    {
        let mut i: usize = 0;
        assert(self@.skip(0) == self@);
        while i < self.entries.len()
            invariant
                i <= self.entries@.len(),
                self@.len() == self.entries@.len(),
                lookup(self@, key@) == lookup(self@.skip(i as int), key@),
            decreases self.entries@.len() - i,
        {
            assert(self@.skip(i as int)[0] == self@[i as int]);
            if same_text(self.entries[i].0.as_str(), key) {
                return Some(&self.entries[i].1);
            }
            assert(self@.skip(i as int).drop_first() == self@.skip(i + 1));
            i = i + 1;
        }
        None
    }

    /// Stores `value` under `key`, in place of what was stored there.
    pub fn insert(&mut self, key: String, value: V)
        ensures
            final(self)@ == inserted(old(self)@, key@, value@),
    {
        proof {
            use_type_invariant(&*self);
        }
        let mut list: Vec<(String, V)> = Vec::new();
        std::mem::swap(&mut list, &mut self.entries);
        let ghost entries = old(self)@;
        let ghost kept = list@;
        let mut at: usize = 0;
        while at < list.len() && order_of(list[at].0.as_str(), key.as_str()) == Order::Before
            invariant
                at <= list@.len(),
                list@ == kept,
                forall|i: int| 0 <= i < at ==> before(#[trigger] kept[i].0@, key@),
            decreases list@.len() - at,
        {
            at = at + 1;
        }
        proof {
            lemma_slot(entries, key@, at as int);
        }
        let ghost new_key = key@;
        let ghost new_value = value@;
        if at < list.len() && same_text(list[at].0.as_str(), key.as_str()) {
            list.set(at, (key, value));
            assert forall|i: int, j: int| 0 <= i < j < list@.len() implies before(
                #[trigger] list@[i].0@,
                #[trigger] list@[j].0@,
            ) by {
                assert(before(kept[i].0@, kept[j].0@));
            }
        } else {
            proof {
                if at < kept.len() {
                    lemma_order_is_total(kept[at as int].0@, key@);
                }
            }
            list.insert(at, (key, value));
            assert forall|i: int, j: int| 0 <= i < j < list@.len() implies before(
                #[trigger] list@[i].0@,
                #[trigger] list@[j].0@,
            ) by {
                if i < at && j == at {
                    assert(before(kept[i].0@, key@));
                } else if i == at {
                    if j > at + 1 {
                        assert(before(kept[at as int].0@, kept[j - 1].0@));
                        lemma_before_is_transitive(key@, kept[at as int].0@, kept[j - 1].0@);
                    }
                } else {
                    let a = if i < at {
                        i
                    } else {
                        i - 1
                    };
                    let b = if j < at {
                        j
                    } else {
                        j - 1
                    };
                    assert(before(kept[a].0@, kept[b].0@));
                }
            }
        }
        self.entries = list;
        assert(self@ =~= inserted(entries, new_key, new_value));
    }
}

/// Of two different texts one comes before the other.
proof fn lemma_order_is_total(a: Seq<char>, b: Seq<char>)
    requires
        a != b,
        !before(a, b),
    ensures
        before(b, a),
{
    lemma_first_difference(a, b, 0);
}

/// Two different texts that agree up to `at` diverge there or further on.
proof fn lemma_first_difference(a: Seq<char>, b: Seq<char>, at: int)
    requires
        a != b,
        0 <= at <= a.len(),
        at <= b.len(),
        forall|i: int| 0 <= i < at ==> a[i] == b[i],
    ensures
        before(a, b) || before(b, a),
    decreases a.len() - at,
{
    if at == a.len() {
        if at == b.len() {
            assert(a =~= b);
        } else {
            assert(diverges_at(a, b, at));
        }
    } else if at == b.len() {
        assert(diverges_at(b, a, at));
    } else if a[at] == b[at] {
        lemma_first_difference(a, b, at + 1);
    } else if (a[at] as int) < (b[at] as int) {
        assert(diverges_at(a, b, at));
    } else {
        assert(diverges_at(b, a, at));
    }
}

/// A configuration value: what it holds, and the compact JSON text that
/// messages quote it by.
#[derive(Debug)]
pub struct Json {
    pub kind: Kind,
    pub text: String,
}

/// What a configuration value holds. A number is kept by its value where it is
/// an integer within the range of `i64`.
#[derive(Debug)]
pub enum Kind {
    Null,
    Bool(bool),
    Number(Option<i64>),
    Str(String),
    Array(Vec<Json>),
    Object(SortedMap<Json>),
}

/// The mathematical counterpart of [`Json`].
pub struct JsonModel {
    pub kind: KindModel,
    pub text: Seq<char>,
}

/// The mathematical counterpart of [`Kind`].
pub enum KindModel {
    Null,
    Bool(bool),
    Number(Option<i64>),
    Str(Seq<char>),
    Array(Seq<JsonModel>),
    Object(Seq<(Seq<char>, JsonModel)>),
}

impl Json {
    /// The value as a model, all the way down.
    pub closed spec fn model(&self) -> JsonModel
        decreases self,
    {
        JsonModel {
            kind: match self.kind {
                Kind::Null => KindModel::Null,
                Kind::Bool(b) => KindModel::Bool(b),
                Kind::Number(n) => KindModel::Number(n),
                Kind::Str(s) => KindModel::Str(s@),
                Kind::Array(items) => KindModel::Array(
                    Seq::new(
                        items@.len(),
                        |i: int|
                            if 0 <= i < items@.len() {
                                items@[i].model()
                            } else {
                                arbitrary()
                            },
                    ),
                ),
                Kind::Object(map) => KindModel::Object(
                    Seq::new(
                        map.entries@.len(),
                        |i: int|
                            if 0 <= i < map.entries@.len() {
                                (map.entries@[i].0@, map.entries@[i].1.model())
                            } else {
                                arbitrary()
                            },
                    ),
                ),
            },
            text: self.text@,
        }
    }
}

impl View for Json {
    type V = JsonModel;

    open spec fn view(&self) -> JsonModel {
        self.model()
    }
}

/// The models of a list of values.
pub open spec fn models(items: Seq<Json>) -> Seq<JsonModel> {
    items.map_values(|item: Json| item@)
}

/// The model of what a value holds.
pub open spec fn kind_model(kind: Kind) -> KindModel {
    match kind {
        Kind::Null => KindModel::Null,
        Kind::Bool(b) => KindModel::Bool(b),
        Kind::Number(n) => KindModel::Number(n),
        Kind::Str(s) => KindModel::Str(s@),
        Kind::Array(items) => KindModel::Array(models(items@)),
        Kind::Object(map) => KindModel::Object(map@),
    }
}

/// The model of a value, one level at a time.
pub broadcast proof fn lemma_model_of_a_value(value: Json)
    ensures
        #[trigger] value@ == (JsonModel { kind: kind_model(value.kind), text: value.text@ }),
{
    match value.kind {
        Kind::Array(items) => {
            assert(value@.kind->Array_0 =~= models(items@));
        },
        Kind::Object(map) => {
            assert(value@.kind->Object_0 =~= map@);
        },
        _ => {},
    }
}

impl JsonModel {
    /// The entry of an object under `key`; no other value has entries.
    pub open spec fn get(self, key: Seq<char>) -> Option<JsonModel> {
        match self.kind {
            KindModel::Object(entries) => lookup(entries, key),
            _ => None,
        }
    }

    /// The characters of a string.
    pub open spec fn as_str(self) -> Option<Seq<char>> {
        match self.kind {
            KindModel::Str(s) => Some(s),
            _ => None,
        }
    }

    /// The value of an integer within the range of `i64`.
    pub open spec fn as_i64(self) -> Option<i64> {
        match self.kind {
            KindModel::Number(n) => n,
            _ => None,
        }
    }

    /// The value of a boolean.
    pub open spec fn as_bool(self) -> Option<bool> {
        match self.kind {
            KindModel::Bool(b) => Some(b),
            _ => None,
        }
    }

    /// The items of an array.
    pub open spec fn as_array(self) -> Option<Seq<JsonModel>> {
        match self.kind {
            KindModel::Array(items) => Some(items),
            _ => None,
        }
    }

    /// The entries of an object.
    pub open spec fn as_object(self) -> Option<Seq<(Seq<char>, JsonModel)>> {
        match self.kind {
            KindModel::Object(entries) => Some(entries),
            _ => None,
        }
    }

    /// The string under `key`.
    pub open spec fn str_at(self, key: Seq<char>) -> Option<Seq<char>> {
        match self.get(key) {
            Some(value) => value.as_str(),
            None => None,
        }
    }

    /// The integer under `key`.
    pub open spec fn i64_at(self, key: Seq<char>) -> Option<i64> {
        match self.get(key) {
            Some(value) => value.as_i64(),
            None => None,
        }
    }

    /// The array under `key`.
    pub open spec fn array_at(self, key: Seq<char>) -> Option<Seq<JsonModel>> {
        match self.get(key) {
            Some(value) => value.as_array(),
            None => None,
        }
    }
}

/// A value can be read as what it holds, and as nothing else.
pub proof fn law_value_is_read_as_what_it_holds(value: JsonModel, key: Seq<char>)
    ensures
        match value.kind {
            KindModel::Str(s) => value.as_str() == Some(s),
            _ => value.as_str() is None,
        },
        match value.kind {
            KindModel::Bool(b) => value.as_bool() == Some(b),
            _ => value.as_bool() is None,
        },
        match value.kind {
            KindModel::Number(n) => value.as_i64() == n,
            _ => value.as_i64() is None,
        },
        match value.kind {
            KindModel::Array(items) => value.as_array() == Some(items),
            _ => value.as_array() is None,
        },
        match value.kind {
            KindModel::Object(entries) => value.as_object() == Some(entries),
            _ => value.as_object() is None && value.get(key) is None,
        },
{
}

/// Each entry of an object is read under its key, as what its value holds, and
/// nothing is read under any other key.
pub proof fn law_entry_is_read_under_its_key(value: JsonModel, key: Seq<char>)
    requires
        value.kind matches KindModel::Object(entries) && ascending(entries),
    ensures
        ({
            let entries = value.kind->Object_0;
            if exists|i: int| 0 <= i < entries.len() && #[trigger] entries[i].0 == key {
                exists|i: int|
                    {
                        &&& 0 <= i < entries.len()
                        &&& #[trigger] entries[i].0 == key
                        &&& value.get(key) == Some(entries[i].1)
                        &&& value.str_at(key) == entries[i].1.as_str()
                        &&& value.i64_at(key) == entries[i].1.as_i64()
                        &&& value.array_at(key) == entries[i].1.as_array()
                    }
            } else {
                &&& value.get(key) is None
                &&& value.str_at(key) is None
                &&& value.i64_at(key) is None
                &&& value.array_at(key) is None
            }
        }),
{
    let entries = value.kind->Object_0;
    law_found_value_is_an_entry(entries, key);
    if exists|i: int| 0 <= i < entries.len() && #[trigger] entries[i].0 == key {
        let i = choose|i: int| 0 <= i < entries.len() && #[trigger] entries[i].0 == key;
        law_each_entry_is_found(entries, i);
        assert(entries[i].0 == key && value.get(key) == Some(entries[i].1));
    } else if let Some(found) = lookup(entries, key) {
        let i = choose|i: int| 0 <= i < entries.len() && #[trigger] entries[i] == (key, found);
        assert(entries[i].0 == key);
    }
}

impl Json {
    /// The entry of an object under `key`.
    pub fn get(&self, key: &str) -> (r: Option<&Json>)
        ensures
            match r {
                Some(value) => self@.get(key@) == Some(value@),
                None => self@.get(key@) is None,
            },
    {
        broadcast use lemma_model_of_a_value;

        match &self.kind {
            Kind::Object(map) => map.get(key),
            _ => None,
        }
    }

    /// The text of a string.
    pub fn as_str(&self) -> (r: Option<&str>)
        ensures
            match r {
                Some(s) => self@.as_str() == Some(s@),
                None => self@.as_str() is None,
            },
    {
        broadcast use lemma_model_of_a_value;

        match &self.kind {
            Kind::Str(s) => Some(s.as_str()),
            _ => None,
        }
    }

    /// The value of an integer within the range of `i64`.
    pub fn as_i64(&self) -> (r: Option<i64>)
        ensures
            r == self@.as_i64(),
    {
        broadcast use lemma_model_of_a_value;

        match &self.kind {
            Kind::Number(n) => *n,
            _ => None,
        }
    }

    /// The value of a boolean.
    pub fn as_bool(&self) -> (r: Option<bool>)
        ensures
            r == self@.as_bool(),
    {
        broadcast use lemma_model_of_a_value;

        match &self.kind {
            Kind::Bool(b) => Some(*b),
            _ => None,
        }
    }

    /// The items of an array.
    pub fn as_array(&self) -> (r: Option<&Vec<Json>>)
        ensures
            match r {
                Some(items) => self@.as_array() == Some(models(items@)),
                None => self@.as_array() is None,
            },
    {
        broadcast use lemma_model_of_a_value;

        match &self.kind {
            Kind::Array(items) => Some(items),
            _ => None,
        }
    }

    /// The entries of an object.
    pub fn as_object(&self) -> (r: Option<&SortedMap<Json>>)
        ensures
            match r {
                Some(map) => self@.as_object() == Some(map@),
                None => self@.as_object() is None,
            },
    {
        broadcast use lemma_model_of_a_value;

        match &self.kind {
            Kind::Object(map) => Some(map),
            _ => None,
        }
    }

    /// The string under `key`.
    pub fn str_at(&self, key: &str) -> (r: Option<&str>)
        ensures
            match r {
                Some(s) => self@.str_at(key@) == Some(s@),
                None => self@.str_at(key@) is None,
            },
    {
        match self.get(key) {
            Some(value) => value.as_str(),
            None => None,
        }
    }

    /// The integer under `key`.
    pub fn i64_at(&self, key: &str) -> (r: Option<i64>)
        ensures
            r == self@.i64_at(key@),
    {
        match self.get(key) {
            Some(value) => value.as_i64(),
            None => None,
        }
    }

    /// The array under `key`.
    pub fn array_at(&self, key: &str) -> (r: Option<&Vec<Json>>)
        ensures
            match r {
                Some(items) => self@.array_at(key@) == Some(models(items@)),
                None => self@.array_at(key@) is None,
            },
    {
        match self.get(key) {
            Some(value) => value.as_array(),
            None => None,
        }
    }
}

} // verus!
