//! Arrow schemas in their JSON form: the text, the document that it holds, and the types that
//! the conversion to Arrow works on.

use crate::text::has_char;
use lance_namespace::models;
use vstd::prelude::*;

verus! {

/// A data type as JSON describes it.
pub struct TypeJson {
    pub name: String,
    pub length: Option<i64>,
    pub fields: Option<Vec<FieldJson>>,
}

/// A field as JSON describes it. Where a metadata key occurs twice, the later value counts.
pub struct FieldJson {
    pub name: String,
    pub nullable: bool,
    pub data_type: Box<TypeJson>,
    pub metadata: Option<Vec<(String, String)>>,
}

/// A schema as JSON describes it.
pub struct SchemaJson {
    pub fields: Vec<FieldJson>,
    pub metadata: Option<Vec<(String, String)>>,
}

/// What a `TypeJson` says.
pub struct JsonType {
    pub name: Seq<char>,
    pub length: Option<i64>,
    pub fields: Option<Seq<JsonField>>,
}

/// What a `FieldJson` says.
pub struct JsonField {
    pub name: Seq<char>,
    pub nullable: bool,
    pub data_type: Box<JsonType>,
    pub metadata: Option<Map<Seq<char>, Seq<char>>>,
}

/// What a `SchemaJson` says.
pub struct JsonSchema {
    pub fields: Seq<JsonField>,
    pub metadata: Option<Map<Seq<char>, Seq<char>>>,
}

/// The map that a list of pairs describes: of two pairs with one key, the later counts.
pub open spec fn pairs_map(s: Seq<(String, String)>) -> Map<Seq<char>, Seq<char>>
    decreases s.len(),
{
    if s.len() == 0 {
        Map::empty()
    } else {
        pairs_map(s.drop_last()).insert(s.last().0@, s.last().1@)
    }
}

/// The map that an optional list of pairs describes.
pub open spec fn optional_pairs_map(s: Option<Vec<(String, String)>>) -> Option<
    Map<Seq<char>, Seq<char>>,
> {
    match s {
        Some(v) => Some(pairs_map(v@)),
        None => None,
    }
}

/// What a type says.
pub open spec fn type_view(t: TypeJson) -> JsonType
    decreases t,
{
    JsonType {
        name: t.name@,
        length: t.length,
        fields: match t.fields {
            Some(v) => Some(fields_view(v@)),
            None => None,
        },
    }
}

/// What a field says.
pub open spec fn field_view(f: FieldJson) -> JsonField
    decreases f,
{
    JsonField {
        name: f.name@,
        nullable: f.nullable,
        data_type: Box::new(type_view(*f.data_type)),
        metadata: optional_pairs_map(f.metadata),
    }
}

/// What fields say, in order.
pub open spec fn fields_view(s: Seq<FieldJson>) -> Seq<JsonField>
    decreases s,
{
    if s.len() == 0 {
        Seq::empty()
    } else {
        fields_view(s.drop_last()).push(field_view(s.last()))
    }
}

impl View for TypeJson {
    type V = JsonType;

    open spec fn view(&self) -> JsonType {
        type_view(*self)
    }
}

impl View for FieldJson {
    type V = JsonField;

    open spec fn view(&self) -> JsonField {
        field_view(*self)
    }
}

impl View for SchemaJson {
    type V = JsonSchema;

    open spec fn view(&self) -> JsonSchema {
        JsonSchema {
            fields: fields_view(self.fields@),
            metadata: optional_pairs_map(self.metadata),
        }
    }
}

/// A JSON document. A number that is no `i64` is held as `None`.
pub enum JsonNode {
    Null,
    Bool(bool),
    Number(Option<i64>),
    Text(String),
    List(Vec<JsonNode>),
    Object(Vec<(String, JsonNode)>),
}

/// What a `JsonNode` says: an object is a map from its keys.
pub enum Json {
    Null,
    Bool(bool),
    Number(Option<i64>),
    Text(Seq<char>),
    List(Seq<Json>),
    Object(Map<Seq<char>, Json>),
}

/// What a document says.
pub open spec fn node_view(n: JsonNode) -> Json
    decreases n,
{
    match n {
        JsonNode::Null => Json::Null,
        JsonNode::Bool(b) => Json::Bool(b),
        JsonNode::Number(i) => Json::Number(i),
        JsonNode::Text(s) => Json::Text(s@),
        JsonNode::List(v) => Json::List(nodes_view(v@)),
        JsonNode::Object(v) => Json::Object(entries_view(v@)),
    }
}

/// What the documents in a list say.
pub open spec fn nodes_view(s: Seq<JsonNode>) -> Seq<Json>
    decreases s,
{
    if s.len() == 0 {
        Seq::empty()
    } else {
        nodes_view(s.drop_last()).push(node_view(s.last()))
    }
}

/// What the entries of an object say: of two with one key, the later counts.
pub open spec fn entries_view(s: Seq<(String, JsonNode)>) -> Map<Seq<char>, Json>
    decreases s,
{
    if s.len() == 0 {
        Map::empty()
    } else {
        entries_view(s.drop_last()).insert(s.last().0@, node_view(s.last().1))
    }
}

impl View for JsonNode {
    type V = Json;

    open spec fn view(&self) -> Json {
        node_view(*self)
    }
}

/// The text values of an object, where all its values are texts.
pub open spec fn texts_of(m: Map<Seq<char>, Json>) -> Option<Map<Seq<char>, Seq<char>>> {
    if forall|k: Seq<char>| #[trigger] m.contains_key(k) ==> m[k] is Text {
        Some(Map::new(|k: Seq<char>| m.contains_key(k), |k: Seq<char>| m[k]->Text_0))
    } else {
        None
    }
}

/// The metadata of a field or a schema: absent, or an object of texts.
pub open spec fn metadata_of(m: Map<Seq<char>, Json>) -> Option<Option<Map<Seq<char>, Seq<char>>>> {
    if !m.contains_key("metadata"@) {
        Some(None)
    } else {
        match m["metadata"@] {
            Json::Object(t) => match texts_of(t) {
                Some(v) => Some(Some(v)),
                None => None,
            },
            _ => None,
        }
    }
}

/// The data type that a document describes.
pub open spec fn type_of(j: Json) -> Option<JsonType>
    decreases j,
{
    match j {
        Json::Object(m) => {
            let length: Option<Option<i64>> = if !m.contains_key("length"@) {
                Some(None)
            } else {
                match m["length"@] {
                    Json::Number(Some(i)) => Some(Some(i)),
                    _ => None,
                }
            };
            let fields: Option<Option<Seq<JsonField>>> = if !m.contains_key("fields"@) {
                Some(None)
            } else {
                match m["fields"@] {
                    Json::List(s) => match fields_of(s) {
                        Some(v) => Some(Some(v)),
                        None => None,
                    },
                    _ => None,
                }
            };
            if m.contains_key("type"@) && m["type"@] is Text && length is Some && fields is Some {
                Some(JsonType { name: m["type"@]->Text_0, length: length->0, fields: fields->0 })
            } else {
                None
            }
        },
        _ => None,
    }
}

/// The field that a document describes.
pub open spec fn field_of(j: Json) -> Option<JsonField>
    decreases j,
{
    match j {
        Json::Object(m) => {
            if m.contains_key("name"@) && m["name"@] is Text && m.contains_key("nullable"@)
                && m["nullable"@] is Bool && m.contains_key("type"@) && metadata_of(m) is Some {
                match type_of(m["type"@]) {
                    Some(t) => Some(
                        JsonField {
                            name: m["name"@]->Text_0,
                            nullable: m["nullable"@]->Bool_0,
                            data_type: Box::new(t),
                            metadata: metadata_of(m)->0,
                        },
                    ),
                    None => None,
                }
            } else {
                None
            }
        },
        _ => None,
    }
}

/// The fields that a list of documents describes, where each describes one.
pub open spec fn fields_of(s: Seq<Json>) -> Option<Seq<JsonField>>
    decreases s,
{
    if s.len() == 0 {
        Some(Seq::empty())
    } else {
        match (fields_of(s.drop_last()), field_of(s.last())) {
            (Some(v), Some(f)) => Some(v.push(f)),
            _ => None,
        }
    }
}

/// The schema that a document describes.
pub open spec fn schema_of(j: Json) -> Option<JsonSchema> {
    match j {
        Json::Object(m) => {
            if m.contains_key("fields"@) && m["fields"@] is List && metadata_of(m) is Some {
                match fields_of(m["fields"@]->List_0) {
                    Some(v) => Some(JsonSchema { fields: v, metadata: metadata_of(m)->0 }),
                    None => None,
                }
            } else {
                None
            }
        },
        _ => None,
    }
}

proof fn lemma_nodes_view(s: Seq<JsonNode>)
    ensures
        nodes_view(s).len() == s.len(),
        forall|i: int| 0 <= i < s.len() ==> #[trigger] nodes_view(s)[i] == node_view(s[i]),
    decreases s.len(),
{
    if s.len() > 0 {
        lemma_nodes_view(s.drop_last());
    }
}

pub proof fn lemma_fields_view(s: Seq<FieldJson>)
    ensures
        fields_view(s).len() == s.len(),
        forall|i: int| 0 <= i < s.len() ==> #[trigger] fields_view(s)[i] == field_view(s[i]),
    decreases s.len(),
{
    if s.len() > 0 {
        lemma_fields_view(s.drop_last());
    }
}

/// Every key of an object comes from one of its entries.
proof fn lemma_entries_keys(s: Seq<(String, JsonNode)>)
    ensures
        forall|k: Seq<char>| #[trigger]
            entries_view(s).contains_key(k) <==> exists|i: int| 0 <= i < s.len() && s[i].0@ == k,
    decreases s.len(),
{
    if s.len() > 0 {
        let rest = s.drop_last();
        lemma_entries_keys(rest);
        assert forall|k: Seq<char>| #[trigger]
            entries_view(s).contains_key(k) <==> exists|i: int|
            0 <= i < s.len() && s[i].0@ == k by {
            if entries_view(rest).contains_key(k) {
                let i = choose|i: int| 0 <= i < rest.len() && rest[i].0@ == k;
                assert(s[i].0@ == k);
            }
            if exists|i: int| 0 <= i < s.len() && s[i].0@ == k {
                let i = choose|i: int| 0 <= i < s.len() && s[i].0@ == k;
                if i < rest.len() {
                    assert(rest[i].0@ == k);
                }
            }
        }
    }
}

/// The value that an object holds under `key`.
fn lookup<'a>(entries: &'a Vec<(String, JsonNode)>, key: &str) -> (r: Option<&'a JsonNode>)
    ensures
        match r {
            Some(n) => {
                &&& entries_view(entries@).contains_key(key@)
                &&& entries_view(entries@)[key@] == node_view(*n)
                &&& exists|i: int| 0 <= i < entries@.len() && *n == (#[trigger] entries@[i]).1
            },
            None => !entries_view(entries@).contains_key(key@),
        },
{
    let mut found: Option<&'a JsonNode> = None;
    for i in 0..entries.len()
        invariant
            match found {
                Some(n) => {
                    &&& entries_view(entries@.take(i as int)).contains_key(key@)
                    &&& entries_view(entries@.take(i as int))[key@] == node_view(*n)
                    &&& exists|j: int| 0 <= j < i && *n == (#[trigger] entries@[j]).1
                },
                None => !entries_view(entries@.take(i as int)).contains_key(key@),
            },
    {
        assert(entries@.take(i + 1).drop_last() =~= entries@.take(i as int));
        if *entries[i].0.as_str() == *key {
            found = Some(&entries[i].1);
        }
    }
    assert(entries@.take(entries@.len() as int) =~= entries@);
    found
}

/// Reads an object of texts.
fn read_texts(entries: &Vec<(String, JsonNode)>) -> (r: Option<Vec<(String, String)>>)
    ensures
        optional_pairs_map(r) == texts_of(entries_view(entries@)),
{
    let mut r: Vec<(String, String)> = Vec::new();
    let ghost m = entries_view(entries@);
    for i in 0..entries.len()
        invariant
            m == entries_view(entries@),
            forall|j: int|
                0 <= j < i ==> m.contains_key((#[trigger] entries@[j]).0@)
                    && m[entries@[j].0@] is Text,
            forall|k: Seq<char>| #[trigger]
                pairs_map(r@).contains_key(k) <==> exists|j: int| 0 <= j < i && entries@[j].0@ == k,
            forall|k: Seq<char>| #[trigger]
                pairs_map(r@).contains_key(k) ==> m.contains_key(k) && m[k] == Json::Text(
                    pairs_map(r@)[k],
                ),
    {
        proof {
            lemma_entries_keys(entries@);
        }
        let ghost before = r@;
        match lookup(entries, entries[i].0.as_str()) {
            Some(JsonNode::Text(t)) => {
                r.push((entries[i].0.clone(), t.clone()));
                let ghost key = entries@[i as int].0@;
                assert(r@.drop_last() =~= before);
                assert(pairs_map(r@) == pairs_map(before).insert(key, t@));
                assert forall|k: Seq<char>| #[trigger]
                    pairs_map(r@).contains_key(k) <==> exists|j: int|
                    0 <= j < i + 1 && entries@[j].0@ == k by {
                    assert(pairs_map(r@).contains_key(k) <==> k == key || pairs_map(
                        before,
                    ).contains_key(k));
                }
                assert forall|k: Seq<char>| #[trigger]
                    pairs_map(r@).contains_key(k) implies m.contains_key(k) && m[k] == Json::Text(
                    pairs_map(r@)[k],
                ) by {
                    if k != key {
                        assert(pairs_map(before).contains_key(k));
                    }
                }
            },
            _ => {
                assert(m.contains_key(entries@[i as int].0@));
                return None;
            },
        }
    }
    proof {
        lemma_entries_keys(entries@);
        assert forall|k: Seq<char>| #[trigger] m.contains_key(k) implies m[k] is Text by {
            let j = choose|j: int| 0 <= j < entries@.len() && entries@[j].0@ == k;
            assert(m[entries@[j].0@] is Text);
        }
        assert forall|k: Seq<char>| #[trigger] m.contains_key(k) implies pairs_map(
            r@,
        ).contains_key(k) by {
            let j = choose|j: int| 0 <= j < entries@.len() && entries@[j].0@ == k;
            assert(entries@[j].0@ == k);
        }
        assert(pairs_map(r@) =~= texts_of(m)->0);
    }
    Some(r)
}

/// Reads the metadata of a field or a schema.
fn read_metadata(entries: &Vec<(String, JsonNode)>) -> (r: Option<Option<Vec<(String, String)>>>)
    ensures
        match r {
            Some(v) => metadata_of(entries_view(entries@)) == Some(optional_pairs_map(v)),
            None => metadata_of(entries_view(entries@)) is None,
        },
{
    match lookup(entries, "metadata") {
        None => Some(None),
        Some(JsonNode::Object(inner)) => match read_texts(inner) {
            Some(v) => Some(Some(v)),
            None => None,
        },
        Some(_) => None,
    }
}

/// Reads a data type.
fn read_type(node: &JsonNode) -> (r: Option<TypeJson>)
    ensures
        match r {
            Some(t) => type_of(node_view(*node)) == Some(type_view(t)),
            None => type_of(node_view(*node)) is None,
        },
    decreases *node,
{
    match node {
        JsonNode::Object(entries) => {
            let length: Option<i64> = match lookup(entries, "length") {
                None => None,
                Some(JsonNode::Number(Some(i))) => Some(*i),
                Some(_) => {
                    return None;
                },
            };
            let fields: Option<Vec<FieldJson>> = match lookup(entries, "fields") {
                None => None,
                Some(child) => match child {
                    JsonNode::List(nodes) => match read_fields(nodes) {
                        Some(v) => Some(v),
                        None => {
                            return None;
                        },
                    },
                    _ => {
                        return None;
                    },
                },
            };
            match lookup(entries, "type") {
                Some(JsonNode::Text(name)) => Some(
                    TypeJson { name: name.clone(), length, fields },
                ),
                _ => None,
            }
        },
        _ => None,
    }
}

/// Reads a field.
fn read_field(node: &JsonNode) -> (r: Option<FieldJson>)
    ensures
        match r {
            Some(f) => field_of(node_view(*node)) == Some(field_view(f)),
            None => field_of(node_view(*node)) is None,
        },
    decreases *node,
{
    match node {
        JsonNode::Object(entries) => {
            let name = match lookup(entries, "name") {
                Some(JsonNode::Text(name)) => name.clone(),
                _ => {
                    return None;
                },
            };
            let nullable = match lookup(entries, "nullable") {
                Some(JsonNode::Bool(nullable)) => *nullable,
                _ => {
                    return None;
                },
            };
            let metadata = match read_metadata(entries) {
                Some(metadata) => metadata,
                None => {
                    return None;
                },
            };
            match lookup(entries, "type") {
                Some(child) => match read_type(child) {
                    Some(t) => Some(
                        FieldJson { name, nullable, data_type: Box::new(t), metadata },
                    ),
                    None => None,
                },
                None => None,
            }
        },
        _ => None,
    }
}

/// Reads a list of fields.
fn read_fields(nodes: &Vec<JsonNode>) -> (r: Option<Vec<FieldJson>>)
    ensures
        match r {
            Some(v) => fields_of(nodes_view(nodes@)) == Some(fields_view(v@)),
            None => fields_of(nodes_view(nodes@)) is None,
        },
    decreases nodes@,
{
    let mut r: Vec<FieldJson> = Vec::new();
    for i in 0..nodes.len()
        invariant
            fields_of(nodes_view(nodes@.take(i as int))) == Some(fields_view(r@)),
    {
        let ghost done = r@;
        assert(nodes@.take(i + 1).drop_last() =~= nodes@.take(i as int));
        assert(nodes_view(nodes@.take(i + 1)).drop_last() =~= nodes_view(nodes@.take(i as int)));
        match read_field(&nodes[i]) {
            Some(f) => {
                r.push(f);
                assert(r@.drop_last() =~= done);
            },
            None => {
                proof {
                    lemma_nodes_view(nodes@);
                    lemma_fields_of_prefix(nodes_view(nodes@), i + 1);
                    lemma_nodes_view(nodes@.take(i + 1));
                    assert(nodes_view(nodes@).take(i + 1) =~= nodes_view(nodes@.take(i + 1)));
                }
                return None;
            },
        }
    }
    assert(nodes@.take(nodes@.len() as int) =~= nodes@);
    Some(r)
}

/// Where a prefix of the documents does not describe fields, the whole list does not either.
proof fn lemma_fields_of_prefix(s: Seq<Json>, n: int)
    requires
        0 <= n <= s.len(),
    ensures
        fields_of(s.take(n)) is None ==> fields_of(s) is None,
    decreases s.len() - n,
{
    if n < s.len() {
        assert(s.take(n + 1).drop_last() =~= s.take(n));
        lemma_fields_of_prefix(s, n + 1);
    } else {
        assert(s.take(n) =~= s);
    }
}

/// Reads a schema out of a document: `None` where the document does not describe one.
pub fn read_schema(node: &JsonNode) -> (r: Option<SchemaJson>)
    ensures
        match r {
            Some(s) => schema_of(node@) == Some(s@),
            None => schema_of(node@) is None,
        },
{
    match node {
        JsonNode::Object(entries) => {
            let metadata = match read_metadata(entries) {
                Some(metadata) => metadata,
                None => {
                    return None;
                },
            };
            match lookup(entries, "fields") {
                Some(JsonNode::List(nodes)) => match read_fields(nodes) {
                    Some(fields) => Some(SchemaJson { fields, metadata }),
                    None => None,
                },
                _ => None,
            }
        },
        _ => None,
    }
}

/// How deep objects and lists nest in the JSON form of a type.
pub open spec fn type_nesting(t: JsonType) -> nat
    decreases t,
{
    match t.fields {
        Some(s) => 2 + fields_nesting(s),
        None => 1,
    }
}

/// How deep objects and lists nest in the JSON forms of fields, at most.
pub open spec fn fields_nesting(s: Seq<JsonField>) -> nat
    decreases s,
{
    if s.len() == 0 {
        0
    } else {
        let rest = fields_nesting(s.drop_last());
        let last = 1 + type_nesting(*s.last().data_type);
        if rest < last {
            last
        } else {
            rest
        }
    }
}

/// How deep objects and lists nest in the JSON form of a schema.
pub open spec fn schema_nesting(s: JsonSchema) -> nat {
    2 + fields_nesting(s.fields)
}

/// How deep objects and lists may nest in a text that is read.
pub const MAX_NESTING: usize = 127;

/// Whether `s` holds no control character: no tab, no line break, no NUL.
pub open spec fn is_printable(s: Seq<char>) -> bool {
    forall|i: int| 0 <= i < s.len() ==> #[trigger] s[i] >= ' '
}

/// `models::JsonArrowSchema`: the schema that the namespace service replies with and that JSON text
/// is read into.
#[verifier::external_type_specification]
#[verifier::external_body]
pub struct ExModelSchema(models::JsonArrowSchema);

/// `serde_json::Value`: a JSON value in memory.
#[verifier::external_type_specification]
#[verifier::external_body]
pub struct ExValue(serde_json::Value);

/// What the service's schema model holds: its fields, in order, and its metadata.
pub uninterp spec fn model_schema(s: models::JsonArrowSchema) -> JsonSchema;

/// What a JSON value holds.
pub uninterp spec fn value_document(v: serde_json::Value) -> Json;

/// What `serde_json::from_str` makes of a text that is to describe a schema: the contents of the
/// schema, or the text of the error.
pub uninterp spec fn parsed_schema(text: Seq<char>) -> Result<JsonSchema, Seq<char>>;

/// Whether `text` is a JSON form of a schema model: it holds no control character and reads back
/// as the same schema, unless it nests too deep to be read.
pub open spec fn is_text_of(text: Seq<char>, schema: models::JsonArrowSchema) -> bool {
    &&& is_printable(text)
    &&& parsed_schema(text) matches Ok(s) ==> s == model_schema(schema)
    &&& parsed_schema(text) is Ok <==> schema_nesting(model_schema(schema)) <= MAX_NESTING
}

/// `serde_json::from_str`, reading a schema model. What it returns depends on the text alone; an
/// error is handed on as its text.
#[verifier::external_body]
fn parse_model(text: &str) -> (r: Result<models::JsonArrowSchema, String>)
    ensures
        match r {
            Ok(s) => parsed_schema(text@) == Ok::<JsonSchema, Seq<char>>(model_schema(s)),
            Err(e) => parsed_schema(text@) == Err::<JsonSchema, Seq<char>>(e@),
        },
{
    serde_json::from_str::<models::JsonArrowSchema>(text).map_err(|e| e.to_string())
}

/// `serde_json::to_string` on a schema model, which does not fail: the model holds nothing but
/// texts, numbers, flags and maps with text keys. The text is compact and its strings are
/// escaped, so it holds no control character. Reading it again gives the same contents; only a
/// text that nests deeper than `MAX_NESTING` levels is refused by `serde_json::from_str`, and of
/// what such a text says nothing is claimed. The order in which metadata keys are written is left
/// open: it is that of a hash map.
#[verifier::external_body]
pub(crate) fn schema_text(schema: &models::JsonArrowSchema) -> (r: Result<String, String>)
    ensures
        match r {
            Ok(t) => is_text_of(t@, *schema),
            Err(_) => false,
        },
{
    serde_json::to_string(schema).map_err(|e| e.to_string())
}

/// `serde_json::to_value` on a schema model, which does not fail, as `serde_json::to_string` does
/// not. The value describes the model's contents: each member stands under its name, and what is
/// absent is left out.
#[verifier::external_body]
fn model_value(schema: &models::JsonArrowSchema) -> (r: serde_json::Value)
    ensures
        schema_of(value_document(r)) == Some(model_schema(*schema)),
{
    serde_json::to_value(schema).unwrap()
}

/// A JSON value, opened up by one level.
enum ValueParts {
    Null,
    Bool(bool),
    Number(Option<i64>),
    Text(String),
    List(Vec<serde_json::Value>),
    Object(Vec<(String, serde_json::Value)>),
}

/// What the values in a list hold.
spec fn value_documents(s: Seq<serde_json::Value>) -> Seq<Json> {
    s.map_values(|v: serde_json::Value| value_document(v))
}

/// What the entries of an object hold.
spec fn value_entries(s: Seq<(String, serde_json::Value)>) -> Map<Seq<char>, Json>
    decreases s.len(),
{
    if s.len() == 0 {
        Map::empty()
    } else {
        value_entries(s.drop_last()).insert(s.last().0@, value_document(s.last().1))
    }
}

/// Whether no key occurs twice.
spec fn keys_differ(s: Seq<(String, serde_json::Value)>) -> bool {
    forall|i: int, j: int| 0 <= i < j < s.len() ==> (#[trigger] s[i]).0@ != (#[trigger] s[j]).0@
}

/// What a value holds that was opened up.
spec fn parts_document(p: ValueParts) -> Json {
    match p {
        ValueParts::Null => Json::Null,
        ValueParts::Bool(b) => Json::Bool(b),
        ValueParts::Number(i) => Json::Number(i),
        ValueParts::Text(s) => Json::Text(s@),
        ValueParts::List(v) => Json::List(value_documents(v@)),
        ValueParts::Object(v) => Json::Object(value_entries(v@)),
    }
}

/// The variants of `serde_json::Value`, one for one. A number is what `Number::as_i64` gives. The
/// keys of an object, which is a `serde_json::Map`, differ.
#[verifier::external_body]
fn value_parts(value: serde_json::Value) -> (r: ValueParts)
    ensures
        parts_document(r) == value_document(value),
        r matches ValueParts::Object(v) ==> keys_differ(v@),
{
    match value {
        serde_json::Value::Null => ValueParts::Null,
        serde_json::Value::Bool(b) => ValueParts::Bool(b),
        serde_json::Value::Number(n) => ValueParts::Number(n.as_i64()),
        serde_json::Value::String(s) => ValueParts::Text(s),
        serde_json::Value::Array(v) => ValueParts::List(v),
        serde_json::Value::Object(m) => ValueParts::Object(m.into_iter().collect()),
    }
}

/// Where keys differ, each value stands under its key.
proof fn lemma_value_entries(s: Seq<(String, serde_json::Value)>, i: int)
    requires
        keys_differ(s),
        0 <= i < s.len(),
    ensures
        value_entries(s).contains_key(s[i].0@),
        value_entries(s)[s[i].0@] == value_document(s[i].1),
    decreases s.len(),
{
    let rest = s.drop_last();
    if i < rest.len() {
        assert(keys_differ(rest)) by {
            assert forall|a: int, b: int| 0 <= a < b < rest.len() implies (#[trigger] rest[a]).0@
                != (#[trigger] rest[b]).0@ by {
                assert(s[a].0@ != s[b].0@);
            }
        }
        lemma_value_entries(rest, i);
        assert(s[i].0@ != s[s.len() - 1].0@);
    }
}

/// Takes a JSON value apart, down to its leaves.
fn value_node(value: serde_json::Value) -> (r: JsonNode)
    ensures
        r@ == value_document(value),
    decreases value_document(value),
{
    match value_parts(value) {
        ValueParts::Null => JsonNode::Null,
        ValueParts::Bool(b) => JsonNode::Bool(b),
        ValueParts::Number(i) => JsonNode::Number(i),
        ValueParts::Text(s) => JsonNode::Text(s),
        ValueParts::List(values) => {
            let ghost all = values@;
            let ghost inner = value_documents(all);
            let mut rest = values;
            let mut nodes: Vec<JsonNode> = Vec::new();
            while rest.len() > 0
                invariant
                    inner == value_documents(all),
                    value_document(value) == Json::List(inner),
                    rest@.len() + nodes@.len() == all.len(),
                    rest@ == all.skip(nodes@.len() as int),
                    nodes_view(nodes@) == inner.take(nodes@.len() as int),
                decreases rest@.len(),
            {
                let ghost n = nodes@.len() as int;
                let ghost done = nodes@;
                let next = rest.remove(0);
                assert(next == all[n]);
                assert(inner[n] == value_document(next));
                assert(decreases_to!(value_document(value) => value_document(value)->List_0[n]));
                nodes.push(value_node(next));
                assert(nodes@.drop_last() =~= done);
                assert(nodes_view(nodes@) =~= inner.take(n + 1));
                assert(rest@ =~= all.skip(n + 1));
            }
            assert(inner.take(nodes@.len() as int) =~= inner);
            JsonNode::List(nodes)
        },
        ValueParts::Object(values) => {
            let ghost all = values@;
            let ghost inner = value_entries(all);
            let mut rest = values;
            let mut entries: Vec<(String, JsonNode)> = Vec::new();
            while rest.len() > 0
                invariant
                    inner == value_entries(all),
                    value_document(value) == Json::Object(inner),
                    keys_differ(all),
                    rest@.len() + entries@.len() == all.len(),
                    rest@ == all.skip(entries@.len() as int),
                    entries_view(entries@) == value_entries(all.take(entries@.len() as int)),
                decreases rest@.len(),
            {
                let ghost n = entries@.len() as int;
                let ghost done = entries@;
                let (key, next) = rest.remove(0);
                proof {
                    assert((key, next) == all[n]);
                    lemma_value_entries(all, n);
                    assert(inner[key@] == value_document(next));
                    assert(decreases_to!(
                        value_document(value) => value_document(value)->Object_0[key@]
                    ));
                }
                entries.push((key, value_node(next)));
                assert(entries@.drop_last() =~= done);
                assert(all.take(n + 1).drop_last() =~= all.take(n));
                assert(rest@ =~= all.skip(n + 1));
            }
            assert(all.take(entries@.len() as int) =~= all);
            JsonNode::Object(entries)
        },
    }
}

/// What the service's schema model holds, as the library's own type.
pub fn schema_contents(schema: &models::JsonArrowSchema) -> (r: SchemaJson)
    ensures
        r@ == model_schema(*schema),
{
    let node = value_node(model_value(schema));
    read_schema(&node).unwrap()
}

/// Reads a schema from JSON text. An error is the text of what the reader reports.
pub fn parse_schema(text: &str) -> (r: Result<SchemaJson, String>)
    ensures
        match r {
            Ok(s) => parsed_schema(text@) == Ok::<JsonSchema, Seq<char>>(s@),
            Err(e) => parsed_schema(text@) == Err::<JsonSchema, Seq<char>>(e@),
        },
{
    match parse_model(text) {
        Ok(model) => Ok(schema_contents(&model)),
        Err(e) => Err(e),
    }
}

/// The JSON form of a schema fits into a listing and into a C string: it holds no tab, no line
/// feed and no NUL.
pub proof fn law_schema_text_has_no_separator(text: Seq<char>, schema: models::JsonArrowSchema)
    requires
        is_text_of(text, schema),
    ensures
        !has_char(text, '\t'),
        !has_char(text, '\n'),
        !has_char(text, '\0'),
{
}

/// The JSON form of a schema reads back as that schema, unless it nests too deep to be read.
pub proof fn law_schema_text_round_trip(text: Seq<char>, schema: models::JsonArrowSchema)
    requires
        is_text_of(text, schema),
        schema_nesting(model_schema(schema)) <= MAX_NESTING,
    ensures
        parsed_schema(text) == Ok::<JsonSchema, Seq<char>>(model_schema(schema)),
{
}

/// The document that describes metadata.
pub open spec fn metadata_document(m: Map<Seq<char>, Seq<char>>) -> Json {
    Json::Object(Map::new(|k: Seq<char>| m.contains_key(k), |k: Seq<char>| Json::Text(m[k])))
}

/// The members of an object, with metadata as one more where there is any.
pub open spec fn with_metadata(
    members: Map<Seq<char>, Json>,
    metadata: Option<Map<Seq<char>, Seq<char>>>,
) -> Map<Seq<char>, Json> {
    match metadata {
        Some(m) => members.insert("metadata"@, metadata_document(m)),
        None => members,
    }
}

/// The document that describes a type: each part that is there stands under its name.
pub open spec fn type_document(t: JsonType) -> Json
    decreases t,
{
    let name = Map::<Seq<char>, Json>::empty().insert("type"@, Json::Text(t.name));
    let sized = match t.length {
        Some(n) => name.insert("length"@, Json::Number(Some(n))),
        None => name,
    };
    match t.fields {
        Some(s) => Json::Object(sized.insert("fields"@, Json::List(field_documents(s)))),
        None => Json::Object(sized),
    }
}

/// The document that describes a field.
pub open spec fn field_document(f: JsonField) -> Json
    decreases f,
{
    let members = Map::<Seq<char>, Json>::empty().insert("name"@, Json::Text(f.name)).insert(
        "nullable"@,
        Json::Bool(f.nullable),
    ).insert("type"@, type_document(*f.data_type));
    Json::Object(with_metadata(members, f.metadata))
}

/// The documents that describe fields, in order.
pub open spec fn field_documents(s: Seq<JsonField>) -> Seq<Json>
    decreases s,
{
    if s.len() == 0 {
        Seq::empty()
    } else {
        field_documents(s.drop_last()).push(field_document(s.last()))
    }
}

/// The document that describes a schema.
pub open spec fn schema_document(s: JsonSchema) -> Json {
    Json::Object(
        with_metadata(
            Map::<Seq<char>, Json>::empty().insert(
                "fields"@,
                Json::List(field_documents(s.fields)),
            ),
            s.metadata,
        ),
    )
}

/// The names of the members are all different.
proof fn lemma_members_differ()
    ensures
        "type"@.len() == 4 && "type"@[0] == 't',
        "name"@.len() == 4 && "name"@[0] == 'n',
        "length"@.len() == 6 && "length"@[0] == 'l',
        "fields"@.len() == 6 && "fields"@[0] == 'f',
        "nullable"@.len() == 8 && "nullable"@[0] == 'n',
        "metadata"@.len() == 8 && "metadata"@[0] == 'm',
{
    reveal_strlit("type");
    reveal_strlit("name");
    reveal_strlit("length");
    reveal_strlit("fields");
    reveal_strlit("nullable");
    reveal_strlit("metadata");
}

proof fn lemma_metadata_is_read_back(
    members: Map<Seq<char>, Json>,
    metadata: Option<Map<Seq<char>, Seq<char>>>,
)
    requires
        !members.contains_key("metadata"@),
    ensures
        metadata_of(with_metadata(members, metadata)) == Some(metadata),
{
    if let Some(m) = metadata {
        let t = metadata_document(m)->Object_0;
        assert forall|k: Seq<char>| #[trigger] t.contains_key(k) implies t[k] is Text by {}
        assert(texts_of(t)->0 =~= m);
    }
}

proof fn lemma_type_is_read_back(t: JsonType)
    ensures
        type_of(type_document(t)) == Some(t),
    decreases t, 1int,
{
    lemma_members_differ();
    if let Some(s) = t.fields {
        lemma_fields_are_read_back(s);
    }
    let m = type_document(t)->Object_0;
    assert(m["type"@] == Json::Text(t.name));
    assert(m.contains_key("length"@) <==> t.length is Some);
    assert(m.contains_key("fields"@) <==> t.fields is Some);
    if t.fields is Some {
        assert(m["fields"@] == Json::List(field_documents(t.fields->0)));
        assert(fields_of(m["fields"@]->List_0) == Some(t.fields->0));
    }
}

proof fn lemma_field_is_read_back(f: JsonField)
    ensures
        field_of(field_document(f)) == Some(f),
    decreases f, 1int,
{
    lemma_members_differ();
    lemma_type_is_read_back(*f.data_type);
    let members = Map::<Seq<char>, Json>::empty().insert("name"@, Json::Text(f.name)).insert(
        "nullable"@,
        Json::Bool(f.nullable),
    ).insert("type"@, type_document(*f.data_type));
    lemma_metadata_is_read_back(members, f.metadata);
    let m = field_document(f)->Object_0;
    assert(m == with_metadata(members, f.metadata));
    assert(m["name"@] == Json::Text(f.name));
    assert(m["nullable"@] == Json::Bool(f.nullable));
    assert(m["type"@] == type_document(*f.data_type));
    assert(type_of(m["type"@]) == Some(*f.data_type));
}

proof fn lemma_fields_are_read_back(s: Seq<JsonField>)
    ensures
        fields_of(field_documents(s)) == Some(s),
    decreases s, 0int,
{
    if s.len() > 0 {
        lemma_fields_are_read_back(s.drop_last());
        lemma_field_is_read_back(s.last());
        let documents = field_documents(s);
        assert(documents.drop_last() =~= field_documents(s.drop_last()));
        assert(documents.last() == field_document(s.last()));
        assert(s.drop_last().push(s.last()) =~= s);
    } else {
        assert(field_documents(s) =~= Seq::empty());
        assert(s =~= Seq::empty());
    }
}

/// The document that describes a schema is read as that schema, whole: every name, length, flag,
/// field and entry of the metadata, at every depth.
pub proof fn law_document_is_read_back(s: JsonSchema)
    ensures
        schema_of(schema_document(s)) == Some(s),
{
    lemma_members_differ();
    lemma_fields_are_read_back(s.fields);
    let members = Map::<Seq<char>, Json>::empty().insert(
        "fields"@,
        Json::List(field_documents(s.fields)),
    );
    lemma_metadata_is_read_back(members, s.metadata);
    let m = schema_document(s)->Object_0;
    assert(m["fields"@] == Json::List(field_documents(s.fields)));
}

/// What is read out of a document stands in it: a schema comes from an object with a list of
/// fields, a field from one with its name, its nullability and its type, a type from one with its
/// name, and a length, inner fields or metadata are read exactly where there are some.
pub proof fn law_what_is_read_is_there(j: Json)
    ensures
        schema_of(j) matches Some(s) ==> {
            &&& j is Object
            &&& j->Object_0.contains_key("fields"@)
            &&& j->Object_0["fields"@] is List
            &&& fields_of(j->Object_0["fields"@]->List_0) == Some(s.fields)
            &&& s.metadata is Some <==> j->Object_0.contains_key("metadata"@)
        },
        field_of(j) matches Some(f) ==> {
            &&& j is Object
            &&& j->Object_0.contains_key("name"@) && j->Object_0["name"@] == Json::Text(f.name)
            &&& j->Object_0.contains_key("nullable"@) && j->Object_0["nullable"@] == Json::Bool(
                f.nullable,
            )
            &&& j->Object_0.contains_key("type"@) && type_of(j->Object_0["type"@]) == Some(
                *f.data_type,
            )
            &&& f.metadata is Some <==> j->Object_0.contains_key("metadata"@)
        },
        type_of(j) matches Some(t) ==> {
            &&& j is Object
            &&& j->Object_0.contains_key("type"@) && j->Object_0["type"@] == Json::Text(t.name)
            &&& t.length is Some <==> j->Object_0.contains_key("length"@)
            &&& t.length is Some ==> j->Object_0["length"@] == Json::Number(t.length)
            &&& t.fields is Some <==> j->Object_0.contains_key("fields"@)
            &&& t.fields matches Some(s) ==> j->Object_0["fields"@] is List && fields_of(
                j->Object_0["fields"@]->List_0,
            ) == Some(s)
        },
{
}

/// The fields that documents describe are one for each document, in order.
pub proof fn law_every_document_is_a_field(s: Seq<Json>)
    ensures
        fields_of(s) is Some <==> forall|i: int|
            0 <= i < s.len() ==> field_of(#[trigger] s[i]) is Some,
        fields_of(s) matches Some(v) ==> v.len() == s.len() && forall|i: int|
            0 <= i < s.len() ==> field_of(#[trigger] s[i]) == Some(v[i]),
    decreases s.len(),
{
    if s.len() > 0 {
        let rest = s.drop_last();
        law_every_document_is_a_field(rest);
        if fields_of(s) is Some {
            assert forall|i: int| 0 <= i < s.len() implies field_of(#[trigger] s[i]) == Some(
                fields_of(s)->0[i],
            ) by {
                if i < rest.len() {
                    assert(rest[i] == s[i]);
                }
            }
        }
        if forall|i: int| 0 <= i < s.len() ==> field_of(#[trigger] s[i]) is Some {
            assert forall|i: int| 0 <= i < rest.len() implies field_of(
                #[trigger] rest[i],
            ) is Some by {
                assert(rest[i] == s[i]);
            }
            assert(field_of(s[s.len() - 1]) is Some);
        }
    }
}

/// The views hold what the values hold: names, lengths, flags and fields as they are.
pub proof fn law_views_keep_everything(t: TypeJson, f: FieldJson, s: SchemaJson)
    ensures
        t@.name == t.name@,
        t@.length == t.length,
        t@.fields is Some <==> t.fields is Some,
        t.fields matches Some(v) ==> t@.fields->0.len() == v@.len() && forall|i: int|
            0 <= i < v@.len() ==> #[trigger] t@.fields->0[i] == v@[i]@,
        f@.name == f.name@,
        f@.nullable == f.nullable,
        *f@.data_type == (*f.data_type)@,
        f@.metadata is Some <==> f.metadata is Some,
        f.metadata matches Some(m) ==> f@.metadata->0 == pairs_map(m@),
        s@.fields.len() == s.fields@.len(),
        forall|i: int| 0 <= i < s.fields@.len() ==> #[trigger] s@.fields[i] == s.fields@[i]@,
        s@.metadata is Some <==> s.metadata is Some,
        s.metadata matches Some(m) ==> s@.metadata->0 == pairs_map(m@),
{
    if let Some(v) = t.fields {
        lemma_fields_view(v@);
    }
    lemma_fields_view(s.fields@);
}

/// A list of pairs is read as a map with the keys of the pairs, each with the value of the last
/// pair that has it.
pub proof fn law_later_pair_counts(s: Seq<(String, String)>)
    ensures
        forall|k: Seq<char>| #[trigger]
            pairs_map(s).contains_key(k) <==> exists|i: int| 0 <= i < s.len() && s[i].0@ == k,
        forall|i: int|
            0 <= i < s.len() && (forall|j: int| i < j < s.len() ==> (#[trigger] s[j]).0@ != s[i].0@)
                ==> pairs_map(s)[(#[trigger] s[i]).0@] == s[i].1@,
    decreases s.len(),
{
    if s.len() > 0 {
        let rest = s.drop_last();
        law_later_pair_counts(rest);
        assert forall|k: Seq<char>| #[trigger] pairs_map(s).contains_key(k) <==> exists|i: int|
            0 <= i < s.len() && s[i].0@ == k by {
            if pairs_map(rest).contains_key(k) {
                let i = choose|i: int| 0 <= i < rest.len() && rest[i].0@ == k;
                assert(s[i].0@ == k);
            }
            if exists|i: int| 0 <= i < s.len() && s[i].0@ == k {
                let i = choose|i: int| 0 <= i < s.len() && s[i].0@ == k;
                if i < rest.len() {
                    assert(rest[i].0@ == k);
                }
            }
        }
        assert forall|i: int|
            0 <= i < s.len() && (forall|j: int| i < j < s.len() ==> (#[trigger] s[j]).0@ != s[i].0@)
            implies pairs_map(s)[(#[trigger] s[i]).0@] == s[i].1@ by {
            if i < rest.len() {
                assert(s[s.len() - 1].0@ != s[i].0@);
                assert(rest[i] == s[i]);
                assert forall|j: int| i < j < rest.len() implies (#[trigger] rest[j]).0@
                    != rest[i].0@ by {
                    assert(s[j].0@ != s[i].0@);
                }
            }
        }
    }
}

/// Metadata is read where it is an object of texts, and then it is those texts under their keys.
pub proof fn law_metadata_is_texts(m: Map<Seq<char>, Json>)
    ensures
        !m.contains_key("metadata"@) ==> metadata_of(m) is Some && metadata_of(m)->0 is None,
        m.contains_key("metadata"@) && metadata_of(m) is Some ==> {
            &&& metadata_of(m)->0 is Some
            &&& m["metadata"@] is Object
            &&& forall|k: Seq<char>| #[trigger]
                m["metadata"@]->Object_0.contains_key(k) <==> metadata_of(m)->0->0.contains_key(k)
            &&& forall|k: Seq<char>| #[trigger]
                m["metadata"@]->Object_0.contains_key(k) ==> m["metadata"@]->Object_0[k]
                    == Json::Text(metadata_of(m)->0->0[k])
        },
        m.contains_key("metadata"@) && metadata_of(m) is None ==> !(m["metadata"@] is Object)
            || exists|k: Seq<char>| #[trigger]
            m["metadata"@]->Object_0.contains_key(k) && !(m["metadata"@]->Object_0[k] is Text),
{
    if m.contains_key("metadata"@) && m["metadata"@] is Object {
        let t = m["metadata"@]->Object_0;
        if metadata_of(m) is Some {
            assert(texts_of(t) is Some);
            assert forall|k: Seq<char>| #[trigger] t.contains_key(k) implies t[k] == Json::Text(
                metadata_of(m)->0->0[k],
            ) by {}
        }
    }
}

/// Members of an object that have no meaning there are passed over.
pub proof fn law_other_members_are_ignored(m: Map<Seq<char>, Json>, key: Seq<char>, value: Json)
    ensures
        key != "type"@ && key != "length"@ && key != "fields"@ ==> type_of(
            Json::Object(m.insert(key, value)),
        ) == type_of(Json::Object(m)),
        key != "name"@ && key != "nullable"@ && key != "type"@ && key != "metadata"@ ==> field_of(
            Json::Object(m.insert(key, value)),
        ) == field_of(Json::Object(m)),
        key != "fields"@ && key != "metadata"@ ==> schema_of(Json::Object(m.insert(key, value)))
            == schema_of(Json::Object(m)),
{
    let more = m.insert(key, value);
    if key != "metadata"@ {
        assert(metadata_of(more) == metadata_of(m));
    }
}

/// The view of a document holds what the document holds: each item of a list, in order, and under
/// each key of an object the last value that has it.
pub proof fn law_document_view_keeps_everything(
    items: Seq<JsonNode>,
    entries: Seq<(String, JsonNode)>,
)
    ensures
        nodes_view(items).len() == items.len(),
        forall|i: int| 0 <= i < items.len() ==> #[trigger] nodes_view(items)[i] == items[i]@,
        forall|k: Seq<char>| #[trigger]
            entries_view(entries).contains_key(k) <==> exists|i: int|
                0 <= i < entries.len() && entries[i].0@ == k,
        forall|i: int|
            0 <= i < entries.len() && (forall|j: int|
                i < j < entries.len() ==> (#[trigger] entries[j]).0@ != entries[i].0@)
                ==> entries_view(entries)[(#[trigger] entries[i]).0@] == entries[i].1@,
    decreases entries.len(),
{
    lemma_nodes_view(items);
    lemma_entries_keys(entries);
    if entries.len() > 0 {
        let rest = entries.drop_last();
        law_document_view_keeps_everything(items, rest);
        assert forall|i: int|
            0 <= i < entries.len() && (forall|j: int|
                i < j < entries.len() ==> (#[trigger] entries[j]).0@ != entries[i].0@)
            implies entries_view(entries)[(#[trigger] entries[i]).0@] == entries[i].1@ by {
            if i < rest.len() {
                assert(entries[entries.len() - 1].0@ != entries[i].0@);
                assert(rest[i] == entries[i]);
                assert forall|j: int| i < j < rest.len() implies (#[trigger] rest[j]).0@
                    != rest[i].0@ by {
                    assert(entries[j].0@ != entries[i].0@);
                }
            }
        }
    }
}

/// The view of a leaf is that leaf; that of a list or an object has the view of its parts.
pub proof fn law_leaf_view_is_the_leaf(
    b: bool,
    n: Option<i64>,
    s: String,
    items: Vec<JsonNode>,
    entries: Vec<(String, JsonNode)>,
)
    ensures
        JsonNode::Null@ == Json::Null,
        JsonNode::Bool(b)@ == Json::Bool(b),
        JsonNode::Number(n)@ == Json::Number(n),
        JsonNode::Text(s)@ == Json::Text(s@),
        JsonNode::List(items)@ == Json::List(nodes_view(items@)),
        JsonNode::Object(entries)@ == Json::Object(entries_view(entries@)),
{
}

} // verus!
