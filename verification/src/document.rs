//! The schema document: the final artifact of a schema run.

use vstd::prelude::*;
use vstd::string::StringExecFns;
use crate::maps::{text_entries, texts, PatternMap};
use crate::properties::{PropertyMap, PropertyView};
use crate::schema::{attach_patterns, get_required_fields, header_names, inferred, with_patterns, InferredSchema};

verus! {

/// A schema document. Its type is always `"object"`.
#[derive(Clone, Debug)]
pub struct SchemaDocument {
    /// The URI of the schema dialect.
    pub dialect: String,
    pub title: String,
    pub description: String,
    pub properties: PropertyMap,
    pub required: Vec<String>,
}

/// The mathematical value of a [`SchemaDocument`].
pub struct DocumentView {
    pub dialect: Seq<char>,
    pub title: Seq<char>,
    pub description: Seq<char>,
    pub properties: Seq<PropertyView>,
    pub required: Seq<Seq<char>>,
}

impl View for SchemaDocument {
    type V = DocumentView;

    open spec fn view(&self) -> DocumentView {
        DocumentView {
            dialect: self.dialect@,
            title: self.title@,
            description: self.description@,
            properties: self.properties@,
            required: texts(self.required@),
        }
    }
}

/// The document of a source file: the fixed dialect and description, a
/// title that names the file, the properties with their patterns, and the
/// name of every column as required.
pub open spec fn document_of(
    source: Seq<char>,
    columns: Seq<Seq<char>>,
    properties: Seq<PropertyView>,
    patterns: Map<Seq<char>, Seq<char>>,
) -> DocumentView {
    DocumentView {
        dialect: "https://json-schema.org/draft-07/schema"@,
        title: "JSON Schema for "@ + source,
        description: "Inferred JSON Schema from QSV schema command"@,
        properties: with_patterns(properties, patterns),
        required: columns,
    }
}

/// Assembles the schema document from what the rules made of the input and
/// the pattern candidates.
pub fn assemble_schema(input_filename: &str, schema: InferredSchema, pattern_map: &PatternMap) -> (r: SchemaDocument)
    ensures
        r@ == document_of(input_filename@, texts(schema.columns@), schema.properties@, text_entries(*pattern_map)),
        r.required@.len() == schema.columns@.len(),
        schema.properties.wf() ==> r.properties.wf(),
{
    let required = get_required_fields(&schema);
    let mut properties = schema.properties;
    attach_patterns(&mut properties, pattern_map);
    let mut title = String::from_str("JSON Schema for ");
    title.append(input_filename);
    SchemaDocument {
        dialect: String::from_str("https://json-schema.org/draft-07/schema"),
        title,
        description: String::from_str("Inferred JSON Schema from QSV schema command"),
        properties,
        required,
    }
}

/// Where the rules succeed on an input of `n` columns, the document
/// requires exactly those `n` columns, in header order: whatever their
/// names, their null counts and the patterns.
pub proof fn lemma_required_is_complete(
    n: int,
    source: Seq<char>,
    fields: Seq<Seq<u8>>,
    records: Seq<Seq<Seq<char>>>,
    index: Map<Seq<char>, usize>,
    enums: Map<Seq<char>, Seq<Seq<char>>>,
    strict_dates: bool,
    patterns: Map<Seq<char>, Seq<char>>,
)
    requires
        0 <= n <= fields.len(),
        inferred(n, source, fields, records, index, enums, strict_dates) is Ok,
    ensures
        document_of(
            source,
            header_names(fields, n),
            inferred(n, source, fields, records, index, enums, strict_dates)->Ok_0,
            patterns,
        ).required == header_names(fields, n),
        document_of(
            source,
            header_names(fields, n),
            inferred(n, source, fields, records, index, enums, strict_dates)->Ok_0,
            patterns,
        ).required.len() == n,
{
}

/// Two documents of the same columns and properties, with pattern maps
/// that know the same columns, agree in everything but the texts of the
/// patterns: in dialect, title, description and required list, and field by
/// field in every part of a definition but the pattern, which both have or
/// both lack.
pub proof fn lemma_documents_agree_but_for_pattern_texts(
    source: Seq<char>,
    columns: Seq<Seq<char>>,
    properties: Seq<PropertyView>,
    first: Map<Seq<char>, Seq<char>>,
    second: Map<Seq<char>, Seq<char>>,
)
    requires
        first.dom() == second.dom(),
    ensures
        document_of(source, columns, properties, first).dialect == document_of(
            source,
            columns,
            properties,
            second,
        ).dialect,
        document_of(source, columns, properties, first).title == document_of(source, columns, properties, second).title,
        document_of(source, columns, properties, first).description == document_of(
            source,
            columns,
            properties,
            second,
        ).description,
        document_of(source, columns, properties, first).required == document_of(
            source,
            columns,
            properties,
            second,
        ).required,
        document_of(source, columns, properties, first).properties.len() == document_of(
            source,
            columns,
            properties,
            second,
        ).properties.len(),
        forall|i: int|
            0 <= i < properties.len() ==> {
                let a = #[trigger] document_of(source, columns, properties, first).properties[i];
                let b = document_of(source, columns, properties, second).properties[i];
                &&& a.name == b.name
                &&& (a.definition.pattern is Some <==> b.definition.pattern is Some)
                &&& (crate::field::FieldView { pattern: None, ..a.definition }) == (crate::field::FieldView {
                    pattern: None,
                    ..b.definition
                })
            },
{
    assert forall|i: int| 0 <= i < properties.len() implies {
        let a = #[trigger] document_of(source, columns, properties, first).properties[i];
        let b = document_of(source, columns, properties, second).properties[i];
        &&& a.name == b.name
        &&& (a.definition.pattern is Some <==> b.definition.pattern is Some)
        &&& (crate::field::FieldView { pattern: None, ..a.definition }) == (crate::field::FieldView {
            pattern: None,
            ..b.definition
        })
    } by {
        assert(first.contains_key(properties[i].name) <==> first.dom().contains(properties[i].name));
        assert(second.contains_key(properties[i].name) <==> second.dom().contains(properties[i].name));
    }
}

/// The path of the schema file of an input: the input path, then `.schema.json`.
pub fn schema_output_path(input_path: &str) -> (r: String)
    ensures
        r@ == input_path@ + ".schema.json"@,
{
    let mut path = String::from_str(input_path);
    path.append(".schema.json");
    path
}

} // verus!
