//! The hash maps of the pipeline, keyed by column or statistic name.
//!
//! The maps are `ahash::AHashMap`s. Verus cannot look inside them, so each
//! map type has a spec function that names what it holds, and the few
//! operations that the pipeline uses are stated over that function.

use vstd::prelude::*;
use ahash::{AHashMap, AHashSet};

verus! {

#[verifier::external_type_specification]
#[verifier::external_body]
#[verifier::reject_recursive_types(K)]
#[verifier::reject_recursive_types(V)]
#[verifier::reject_recursive_types(S)]
pub struct ExAHashMap<K, V, S>(AHashMap<K, V, S>);

#[verifier::external_type_specification]
#[verifier::external_body]
pub struct ExRandomState(ahash::RandomState);

#[verifier::external_type_specification]
#[verifier::external_body]
#[verifier::reject_recursive_types(T)]
#[verifier::reject_recursive_types(S)]
pub struct ExAHashSet<T, S>(AHashSet<T, S>);

/// From the name of a statistic to its offset inside a profile record.
pub type OffsetMap = AHashMap<String, usize>;

/// From a column name to its sorted distinct values.
pub type EnumMap = AHashMap<String, Vec<String>>;

/// From one text to another.
pub type TextMap = AHashMap<String, String>;

/// From a column name to its synthesized regular expression.
pub type PatternMap = TextMap;

/// From a column name to the distinct values seen in the column.
pub type DistinctMap = AHashMap<String, AHashSet<String>>;

/// The texts of a vector of strings.
pub open spec fn texts(v: Seq<String>) -> Seq<Seq<char>> {
    Seq::new(v.len(), |i: int| v[i]@)
}

/// What an offset map holds.
pub uninterp spec fn offset_entries(m: AHashMap<String, usize>) -> Map<Seq<char>, usize>;

/// What an enum map holds.
pub uninterp spec fn enum_entries(m: AHashMap<String, Vec<String>>) -> Map<Seq<char>, Seq<Seq<char>>>;

/// What a map from text to text holds.
pub uninterp spec fn text_entries(m: AHashMap<String, String>) -> Map<Seq<char>, Seq<char>>;

/// `AHashMap::new` makes a map that holds nothing.
#[verifier::external_body]
pub(crate) fn offsets_new() -> (r: OffsetMap)
    ensures
        offset_entries(r) == (Map::<Seq<char>, usize>::empty()),
{
    AHashMap::new()
}

/// `AHashMap::insert` binds the key to the value and leaves the other keys as they were.
#[verifier::external_body]
pub(crate) fn offsets_insert(m: &mut OffsetMap, key: String, value: usize)
    ensures
        offset_entries(*final(m)) == offset_entries(*old(m)).insert(key@, value),
{
    m.insert(key, value);
}

/// `AHashMap::get` finds the value bound to the key, if the map has the key.
#[verifier::external_body]
pub(crate) fn offsets_get(m: &OffsetMap, key: &str) -> (r: Option<usize>)
    ensures
        r is Some <==> offset_entries(*m).contains_key(key@),
        r matches Some(v) ==> v == offset_entries(*m)[key@],
{
    m.get(key).copied()
}

/// `AHashMap::new` makes a map that holds nothing.
#[verifier::external_body]
pub(crate) fn enums_new() -> (r: EnumMap)
    ensures
        enum_entries(r) == (Map::<Seq<char>, Seq<Seq<char>>>::empty()),
{
    AHashMap::new()
}

/// `AHashMap::insert` binds the key to the value and leaves the other keys as they were.
#[verifier::external_body]
pub(crate) fn enums_insert(m: &mut EnumMap, key: String, value: Vec<String>)
    ensures
        enum_entries(*final(m)) == enum_entries(*old(m)).insert(key@, texts(value@)),
{
    m.insert(key, value);
}

/// `AHashMap::get` finds the value bound to the key, if the map has the key.
#[verifier::external_body]
pub(crate) fn enums_get<'a>(m: &'a EnumMap, key: &str) -> (r: Option<&'a Vec<String>>)
    ensures
        r is Some <==> enum_entries(*m).contains_key(key@),
        r matches Some(v) ==> texts(v@) == enum_entries(*m)[key@],
{
    m.get(key)
}

/// `AHashMap::new` makes a map that holds nothing.
#[verifier::external_body]
pub(crate) fn text_map_new() -> (r: TextMap)
    ensures
        text_entries(r) == (Map::<Seq<char>, Seq<char>>::empty()),
{
    AHashMap::new()
}

/// `AHashMap::insert` binds the key to the value and leaves the other keys as they were.
#[verifier::external_body]
pub(crate) fn text_map_insert(m: &mut TextMap, key: String, value: String)
    ensures
        text_entries(*final(m)) == text_entries(*old(m)).insert(key@, value@),
{
    m.insert(key, value);
}

/// `AHashMap::get` finds the value bound to the key, if the map has the key.
#[verifier::external_body]
pub(crate) fn text_map_get<'a>(m: &'a TextMap, key: &str) -> (r: Option<&'a String>)
    ensures
        r is Some <==> text_entries(*m).contains_key(key@),
        r matches Some(v) ==> v@ == text_entries(*m)[key@],
{
    m.get(key)
}

/// What a map of distinct values holds.
pub uninterp spec fn distinct_entries(m: AHashMap<String, AHashSet<String>>) -> Map<Seq<char>, Set<Seq<char>>>;

/// The values seen in a column so far; none where the column is new.
pub open spec fn seen_in(entries: Map<Seq<char>, Set<Seq<char>>>, column: Seq<char>) -> Set<Seq<char>> {
    if entries.contains_key(column) {
        entries[column]
    } else {
        Set::empty()
    }
}

/// `AHashMap::new` makes a map that holds nothing.
#[verifier::external_body]
pub(crate) fn distinct_new() -> (r: DistinctMap)
    ensures
        distinct_entries(r) == (Map::<Seq<char>, Set<Seq<char>>>::empty()),
{
    AHashMap::new()
}

/// `entry(..).or_default()` finds the set of the column, or binds an empty
/// set to a new column; `AHashSet::insert` then adds the value to that set.
#[verifier::external_body]
pub(crate) fn distinct_observe(m: &mut DistinctMap, column: String, value: String)
    ensures
        distinct_entries(*final(m)) == distinct_entries(*old(m)).insert(
            column@,
            seen_in(distinct_entries(*old(m)), column@).insert(value@),
        ),
{
    m.entry(column).or_default().insert(value);
}

/// The columns of the map, from `keys`: each once, in no particular order.
#[verifier::external_body]
pub(crate) fn distinct_columns(m: &DistinctMap) -> (r: Vec<String>)
    ensures
        texts(r@).no_duplicates(),
        texts(r@).to_set() == distinct_entries(*m).dom(),
{
    m.keys().cloned().collect()
}

/// The values bound to a column of the map, from the index operator and
/// `AHashSet::iter`: each once, in no particular order.
#[verifier::external_body]
pub(crate) fn distinct_values(m: &DistinctMap, column: &str) -> (r: Vec<String>)
    requires
        distinct_entries(*m).contains_key(column@),
    ensures
        texts(r@).no_duplicates(),
        texts(r@).to_set() == distinct_entries(*m)[column@],
{
    m[column].iter().cloned().collect()
}

} // verus!
