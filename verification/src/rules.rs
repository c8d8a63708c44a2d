//! The per-column rules that turn a profile into a field definition.

use vstd::prelude::*;
use vstd::string::StringExecFns;
use vstd::utf8::encode_utf8;
use crate::field::{Bound, BoundView, DateFormat, EnumValue, EnumValueView, FieldDefinition, FieldView, JsonType, enum_views, holds_type};
use crate::maps::texts;
use crate::profile::{ColumnKind, ColumnProfile, ProfileView, column_kind, kind_of};
use crate::text::{atoi_i64, parse_i64, parse_length, unsigned_literal};

verus! {

/// The type token of a column kind. An unknown kind counts as a string.
pub open spec fn type_token(kind: ColumnKind) -> JsonType {
    match kind {
        ColumnKind::Integer => JsonType::Integer,
        ColumnKind::Float => JsonType::Number,
        ColumnKind::Null => JsonType::Null,
        _ => JsonType::Text,
    }
}

/// Maps a column kind to its type token.
pub fn json_type(kind: ColumnKind) -> (r: JsonType)
    ensures
        r == type_token(kind),
{
    match kind {
        ColumnKind::Integer => JsonType::Integer,
        ColumnKind::Float => JsonType::Number,
        ColumnKind::Null => JsonType::Null,
        _ => JsonType::Text,
    }
}

/// The description of a column: its name, then where it comes from.
pub open spec fn describe(name: Seq<char>, source: Seq<char>) -> Seq<char> {
    name + " column from "@ + source
}

/// Writes the description of a column.
pub fn description_of(name: &str, source: &str) -> (r: String)
    ensures
        r@ == describe(name@, source@),
{
    let mut text = String::from_str(name);
    text.append(" column from ");
    text.append(source);
    text
}

/// Whether a length statistic, where present, is a number that fits.
pub open spec fn length_ok(text: Option<Seq<char>>) -> bool {
    text matches Some(t) ==> unsigned_literal(t, u32::MAX as nat) is Some
}

/// The length that a statistic holds.
pub open spec fn length_value(text: Option<Seq<char>>) -> Option<u32> {
    match text {
        Some(t) => Some(unsigned_literal(t, u32::MAX as nat)->0 as u32),
        None => None,
    }
}

/// Whether an integer statistic, where present, parses.
pub open spec fn integer_ok(text: Option<Seq<char>>) -> bool {
    text matches Some(t) ==> atoi_i64(encode_utf8(t)) is Some
}

/// The integer bound that a statistic holds.
pub open spec fn integer_value(text: Option<Seq<char>>) -> Option<BoundView> {
    match text {
        Some(t) => Some(BoundView::Integer(atoi_i64(encode_utf8(t))->0)),
        None => None,
    }
}

/// The decimal bound that a statistic holds.
pub open spec fn decimal_value(text: Option<Seq<char>>) -> Option<BoundView> {
    match text {
        Some(t) => Some(BoundView::Decimal(t)),
        None => None,
    }
}

/// Whether every value parses as an integer.
pub open spec fn integers_ok(values: Seq<Seq<char>>) -> bool {
    forall|i: int| 0 <= i < values.len() ==> atoi_i64(encode_utf8(#[trigger] values[i])) is Some
}

/// The enum list of a string column.
pub open spec fn text_enum(values: Seq<Seq<char>>) -> Seq<EnumValueView> {
    Seq::new(values.len(), |i: int| EnumValueView::Text(values[i]))
}

/// The enum list of an integer column.
pub open spec fn integer_enum(values: Seq<Seq<char>>) -> Seq<EnumValueView> {
    Seq::new(values.len(), |i: int| EnumValueView::Integer(atoi_i64(encode_utf8(values[i]))->0))
}

/// The enum list of a float column.
pub open spec fn decimal_enum(values: Seq<Seq<char>>) -> Seq<EnumValueView> {
    Seq::new(values.len(), |i: int| EnumValueView::Decimal(values[i]))
}

/// Whether the numeric statistics that the column's kind calls for parse.
pub open spec fn consistent(profile: ProfileView, candidates: Seq<Seq<char>>) -> bool {
    match kind_of(profile.field_type) {
        ColumnKind::Text => length_ok(profile.min_length) && length_ok(profile.max_length),
        ColumnKind::Integer => integer_ok(profile.min) && integer_ok(profile.max) && integers_ok(candidates),
        _ => true,
    }
}

/// The definition of a column before the null rule: type token, bounds,
/// enum list and format marker by the column's kind.
pub open spec fn typed_definition(
    name: Seq<char>,
    source: Seq<char>,
    profile: ProfileView,
    candidates: Seq<Seq<char>>,
    strict_dates: bool,
) -> FieldView {
    let kind = kind_of(profile.field_type);
    FieldView {
        description: describe(name, source),
        types: seq![type_token(kind)],
        min_length: if kind == ColumnKind::Text { length_value(profile.min_length) } else { None },
        max_length: if kind == ColumnKind::Text { length_value(profile.max_length) } else { None },
        minimum: match kind {
            ColumnKind::Integer => integer_value(profile.min),
            ColumnKind::Float => decimal_value(profile.min),
            _ => None,
        },
        maximum: match kind {
            ColumnKind::Integer => integer_value(profile.max),
            ColumnKind::Float => decimal_value(profile.max),
            _ => None,
        },
        enum_values: match kind {
            ColumnKind::Text => text_enum(candidates),
            ColumnKind::Integer => integer_enum(candidates),
            ColumnKind::Float => decimal_enum(candidates),
            _ => Seq::empty(),
        },
        pattern: None,
        format: match kind {
            ColumnKind::Date => if strict_dates { Some(DateFormat::Date) } else { None },
            ColumnKind::DateTime => if strict_dates { Some(DateFormat::DateTime) } else { None },
            _ => None,
        },
    }
}

/// The null rule: where the column has nulls, the type list ends in
/// `"null"` and an enum list ends in the null sentinel, each once.
pub open spec fn with_nulls(definition: FieldView, null_count: usize) -> FieldView {
    if null_count > 0 {
        FieldView {
            types: if definition.types.contains(JsonType::Null) {
                definition.types
            } else {
                definition.types.push(JsonType::Null)
            },
            enum_values: if definition.enum_values.len() > 0 && !definition.enum_values.contains(EnumValueView::Null) {
                definition.enum_values.push(EnumValueView::Null)
            } else {
                definition.enum_values
            },
            ..definition
        }
    } else {
        definition
    }
}

/// The definition of a column.
pub open spec fn definition_of(
    name: Seq<char>,
    source: Seq<char>,
    profile: ProfileView,
    candidates: Seq<Seq<char>>,
    strict_dates: bool,
) -> FieldView {
    with_nulls(typed_definition(name, source, profile, candidates, strict_dates), profile.null_count)
}

/// Whether an enum list holds the null sentinel.
pub fn holds_null(values: &Vec<EnumValue>) -> (r: bool)
    ensures
        r == enum_views(values@).contains(EnumValueView::Null),
{
    let mut i: usize = 0;
    while i < values.len()
        invariant
            i <= values.len(),
            forall|j: int| 0 <= j < i ==> enum_views(values@)[j] != EnumValueView::Null,
        decreases values.len() - i,
    {
        let found = match &values[i] {
            EnumValue::Null => true,
            _ => false,
        };
        if found {
            assert(enum_views(values@)[i as int] == EnumValueView::Null);
            return true;
        }
        assert(enum_views(values@)[i as int] != EnumValueView::Null);
        i += 1;
    }
    false
}

/// Applies the null rule to a definition.
pub fn apply_null_rule(definition: &mut FieldDefinition, null_count: usize)
    ensures
        final(definition)@ == with_nulls(old(definition)@, null_count),
{
    if null_count > 0 {
        if !holds_type(&definition.types, JsonType::Null) {
            definition.types.push(JsonType::Null);
        }
        if definition.enum_values.len() > 0 && !holds_null(&definition.enum_values) {
            definition.enum_values.push(EnumValue::Null);
            assert(enum_views(definition.enum_values@) =~= enum_views(old(definition).enum_values@).push(EnumValueView::Null));
        }
    }
}

/// The null rule changes nothing when it is applied again.
pub proof fn lemma_null_rule_idempotent(definition: FieldView, null_count: usize)
    ensures
        with_nulls(with_nulls(definition, null_count), null_count) == with_nulls(definition, null_count),
{
    let once = with_nulls(definition, null_count);
    if null_count > 0 {
        if !definition.types.contains(JsonType::Null) {
            assert(once.types[definition.types.len() as int] == JsonType::Null);
        }
        if definition.enum_values.len() > 0 && !definition.enum_values.contains(EnumValueView::Null) {
            assert(once.enum_values[definition.enum_values.len() as int] == EnumValueView::Null);
        }
    }
}

/// A column with nulls has `"null"` in its type list exactly once: after its
/// own token, or as that token itself. A column without nulls has its token alone.
pub proof fn lemma_null_once(
    name: Seq<char>,
    source: Seq<char>,
    profile: ProfileView,
    candidates: Seq<Seq<char>>,
    strict_dates: bool,
)
    ensures
        definition_of(name, source, profile, candidates, strict_dates).types == (if profile.null_count > 0
            && type_token(kind_of(profile.field_type)) != JsonType::Null {
            seq![type_token(kind_of(profile.field_type)), JsonType::Null]
        } else {
            seq![type_token(kind_of(profile.field_type))]
        }),
{
    let token = type_token(kind_of(profile.field_type));
    let base = seq![token];
    assert(base[0] == token);
    if token == JsonType::Null {
        assert(base.contains(JsonType::Null));
    } else {
        assert(!base.contains(JsonType::Null));
        assert(base.push(JsonType::Null) =~= seq![token, JsonType::Null]);
    }
}

/// The enum list of a string, integer or float column has one entry for
/// each candidate value, and after them the null sentinel where the column
/// has nulls and at least one candidate.
pub proof fn lemma_enum_list_size(
    name: Seq<char>,
    source: Seq<char>,
    profile: ProfileView,
    candidates: Seq<Seq<char>>,
    strict_dates: bool,
)
    requires
        kind_of(profile.field_type) == ColumnKind::Text || kind_of(profile.field_type) == ColumnKind::Integer
            || kind_of(profile.field_type) == ColumnKind::Float,
    ensures
        definition_of(name, source, profile, candidates, strict_dates).enum_values.len() == candidates.len() + (
        if profile.null_count > 0 && candidates.len() > 0 {
            1int
        } else {
            0int
        }),
{
    let typed = typed_definition(name, source, profile, candidates, strict_dates);
    assert(typed.enum_values.len() == candidates.len());
    assert(!typed.enum_values.contains(EnumValueView::Null)) by {
        if typed.enum_values.contains(EnumValueView::Null) {
            let k = choose|k: int| 0 <= k < typed.enum_values.len() && typed.enum_values[k] == EnumValueView::Null;
            assert(typed.enum_values[k] != EnumValueView::Null);
        }
    }
}

/// Reads a length statistic. The outer `None` says that it does not parse.
fn length_of(text: &Option<String>) -> (r: Option<Option<u32>>)
    ensures
        r is Some <==> length_ok(crate::field::text_view(*text)),
        r matches Some(v) ==> v == length_value(crate::field::text_view(*text)),
{
    match text {
        None => Some(None),
        Some(t) => match parse_length(t.as_str()) {
            Some(v) => Some(Some(v)),
            None => None,
        },
    }
}

/// Reads an integer statistic. The outer `None` says that it does not parse.
fn integer_of(text: &Option<String>) -> (r: Option<Option<Bound>>)
    ensures
        r is Some <==> integer_ok(crate::field::text_view(*text)),
        r matches Some(v) ==> crate::field::bound_view(v) == integer_value(crate::field::text_view(*text)),
{
    match text {
        None => Some(None),
        Some(t) => match parse_i64(t.as_str()) {
            Some(v) => Some(Some(Bound::Integer(v))),
            None => None,
        },
    }
}

/// Keeps a decimal statistic as the profile writes it.
fn decimal_of(text: &Option<String>) -> (r: Option<Bound>)
    ensures
        crate::field::bound_view(r) == decimal_value(crate::field::text_view(*text)),
{
    match text {
        None => None,
        Some(t) => Some(Bound::Decimal(t.clone())),
    }
}

/// The enum list of a string column.
pub fn text_values(values: &Vec<String>) -> (r: Vec<EnumValue>)
    ensures
        enum_views(r@) == text_enum(texts(values@)),
{
    let mut list: Vec<EnumValue> = Vec::new();
    let mut i: usize = 0;
    while i < values.len()
        invariant
            i <= values.len(),
            list@.len() == i,
            forall|j: int| 0 <= j < i ==> (#[trigger] list@[j])@ == EnumValueView::Text(values@[j]@),
        decreases values.len() - i,
    {
        list.push(EnumValue::Text(values[i].clone()));
        i += 1;
    }
    assert(enum_views(list@) =~= text_enum(texts(values@)));
    list
}

/// The enum list of a float column.
pub fn decimal_values(values: &Vec<String>) -> (r: Vec<EnumValue>)
    ensures
        enum_views(r@) == decimal_enum(texts(values@)),
{
    let mut list: Vec<EnumValue> = Vec::new();
    let mut i: usize = 0;
    while i < values.len()
        invariant
            i <= values.len(),
            list@.len() == i,
            forall|j: int| 0 <= j < i ==> (#[trigger] list@[j])@ == EnumValueView::Decimal(values@[j]@),
        decreases values.len() - i,
    {
        list.push(EnumValue::Decimal(values[i].clone()));
        i += 1;
    }
    assert(enum_views(list@) =~= decimal_enum(texts(values@)));
    list
}

/// The enum list of an integer column, or `None` where a value does not parse.
pub fn integer_values(values: &Vec<String>) -> (r: Option<Vec<EnumValue>>)
    ensures
        r is Some <==> integers_ok(texts(values@)),
        r matches Some(list) ==> enum_views(list@) == integer_enum(texts(values@)),
{
    let mut list: Vec<EnumValue> = Vec::new();
    let mut i: usize = 0;
    while i < values.len()
        invariant
            i <= values.len(),
            list@.len() == i,
            forall|j: int| 0 <= j < i ==> atoi_i64(encode_utf8(#[trigger] texts(values@)[j])) is Some,
            forall|j: int| 0 <= j < i ==> (#[trigger] list@[j])@ == EnumValueView::Integer(
                atoi_i64(encode_utf8(values@[j]@))->0,
            ),
        decreases values.len() - i,
    {
        match parse_i64(values[i].as_str()) {
            Some(v) => {
                list.push(EnumValue::Integer(v));
            },
            None => {
                assert(texts(values@)[i as int] == values@[i as int]@);
                return None;
            },
        }
        assert(texts(values@)[i as int] == values@[i as int]@);
        i += 1;
    }
    assert(enum_views(list@) =~= integer_enum(texts(values@)));
    Some(list)
}

/// Builds the definition of a column from its profile and its enum
/// candidates, or `None` where a numeric statistic of the profile does not parse.
pub fn field_definition(
    name: &str,
    source: &str,
    profile: &ColumnProfile,
    candidates: &Vec<String>,
    strict_dates: bool,
) -> (r: Option<FieldDefinition>)
    ensures
        r is Some <==> consistent(profile@, texts(candidates@)),
        r matches Some(d) ==> d@ == definition_of(name@, source@, profile@, texts(candidates@), strict_dates),
{
    let kind = column_kind(profile.field_type.as_str());
    let mut definition = FieldDefinition {
        description: description_of(name, source),
        types: vec![json_type(kind)],
        min_length: None,
        max_length: None,
        minimum: None,
        maximum: None,
        enum_values: Vec::new(),
        pattern: None,
        format: None,
    };
    assert(definition.types@ =~= seq![type_token(kind)]);
    assert(enum_views(definition.enum_values@) =~= Seq::<EnumValueView>::empty());
    match kind {
        ColumnKind::Text => {
            definition.min_length = match length_of(&profile.min_length) {
                Some(v) => v,
                None => { return None; },
            };
            definition.max_length = match length_of(&profile.max_length) {
                Some(v) => v,
                None => { return None; },
            };
            definition.enum_values = text_values(candidates);
        },
        ColumnKind::Integer => {
            definition.minimum = match integer_of(&profile.min) {
                Some(v) => v,
                None => { return None; },
            };
            definition.maximum = match integer_of(&profile.max) {
                Some(v) => v,
                None => { return None; },
            };
            definition.enum_values = match integer_values(candidates) {
                Some(v) => v,
                None => { return None; },
            };
        },
        ColumnKind::Float => {
            definition.minimum = decimal_of(&profile.min);
            definition.maximum = decimal_of(&profile.max);
            definition.enum_values = decimal_values(candidates);
        },
        ColumnKind::Date => {
            if strict_dates {
                definition.format = Some(DateFormat::Date);
            }
        },
        ColumnKind::DateTime => {
            if strict_dates {
                definition.format = Some(DateFormat::DateTime);
            }
        },
        _ => {},
    }
    assert(definition@ == typed_definition(name@, source@, profile@, texts(candidates@), strict_dates));
    apply_null_rule(&mut definition, profile.null_count);
    Some(definition)
}

} // verus!
