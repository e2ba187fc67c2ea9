//! Conversion of JSON schemas to Arrow schemas, nested types included.

use crate::arrow_schema::{
    arrow_field, arrow_fields, arrow_schema, arrow_type, decimal_type, duration_type,
    field_with_metadata, fixed_size_binary_type, fixed_size_list_type, large_list_type, list_type,
    map_type, new_field, new_schema, number_type, plain_type, struct_type, timestamp_type,
    ArrowField, ArrowSchema, ArrowType, NumberType, PlainType, Unit,
};
use crate::error::{error_of, failure, ErrorCode, Failure, FfiError, FfiResult};
use crate::json::{parse_schema, FieldJson, JsonField, JsonSchema, JsonType, SchemaJson, TypeJson};
use crate::text::concat;
use arrow::datatypes::{DataType, Field, Schema};
use vstd::prelude::*;

verus! {

/// Why a schema has no Arrow form.
#[derive(Debug)]
pub struct ConversionError {
    pub message: String,
}

/// The lowercase form of a text: what `str::to_lowercase` returns.
pub uninterp spec fn lowercase(s: Seq<char>) -> Seq<char>;

/// The lowercase form of an ASCII character.
pub open spec fn ascii_lower(c: char) -> char {
    if 'A' <= c <= 'Z' {
        (c as u32 + 32) as char
    } else {
        c
    }
}

/// The lowercase form of an ASCII text.
pub open spec fn ascii_lowercase(s: Seq<char>) -> Seq<char> {
    s.map_values(|c: char| ascii_lower(c))
}

/// `str::to_lowercase` depends on the text alone; on ASCII text it turns each capital letter into
/// its small one and keeps the rest. In any text the case of an ASCII letter makes no difference:
/// the letter comes out small, and what becomes of the others depends on where cased letters stand,
/// not on their case.
pub assume_specification[ str::to_lowercase ](s: &str) -> (r: String)
    ensures
        r@ == lowercase(s@),
        r@ == lowercase(ascii_lowercase(s@)),
        vstd::utf8::is_ascii_chars(s@) ==> r@ == ascii_lowercase(s@),
;

/// The form in which the name of a type is matched: its lowercase form. Of an ASCII name this is
/// the ASCII one; of any name it does not depend on the case of ASCII letters.
pub open spec fn matched_name(s: Seq<char>) -> Seq<char> {
    if vstd::utf8::is_ascii_chars(s) {
        ascii_lowercase(s)
    } else {
        lowercase(ascii_lowercase(s))
    }
}

/// A text is ASCII exactly when it is ASCII with its letters made small.
proof fn lemma_ascii_lowercase(s: Seq<char>)
    ensures
        vstd::utf8::is_ascii_chars(ascii_lowercase(s)) <==> vstd::utf8::is_ascii_chars(s),
{
    let t = ascii_lowercase(s);
    if vstd::utf8::is_ascii_chars(t) {
        assert forall|i: int| 0 <= i < s.len() implies '\0' <= #[trigger] s[i] <= '\u{7f}' by {
            assert('\0' <= t[i] <= '\u{7f}');
        }
    }
}

/// Names that differ in the case of ASCII letters alone are matched alike.
pub proof fn law_names_ignore_ascii_case(a: Seq<char>, b: Seq<char>)
    requires
        ascii_lowercase(a) == ascii_lowercase(b),
    ensures
        matched_name(a) == matched_name(b),
{
    lemma_ascii_lowercase(a);
    lemma_ascii_lowercase(b);
}

/// The number type of a (lowercase) name.
pub open spec fn number_named(name: Seq<char>) -> Option<NumberType> {
    if name == "int8"@ {
        Some(NumberType::Int8)
    } else if name == "uint8"@ {
        Some(NumberType::UInt8)
    } else if name == "int16"@ {
        Some(NumberType::Int16)
    } else if name == "uint16"@ {
        Some(NumberType::UInt16)
    } else if name == "int32"@ {
        Some(NumberType::Int32)
    } else if name == "uint32"@ {
        Some(NumberType::UInt32)
    } else if name == "int64"@ {
        Some(NumberType::Int64)
    } else if name == "uint64"@ {
        Some(NumberType::UInt64)
    } else if name == "float16"@ {
        Some(NumberType::Float16)
    } else if name == "float32"@ {
        Some(NumberType::Float32)
    } else if name == "float64"@ {
        Some(NumberType::Float64)
    } else {
        None
    }
}

/// The plain type of a (lowercase) name.
pub open spec fn plain_named(name: Seq<char>) -> Option<PlainType> {
    if name == "null"@ {
        Some(PlainType::Null)
    } else if name == "bool"@ || name == "boolean"@ {
        Some(PlainType::Boolean)
    } else if name == "date32"@ {
        Some(PlainType::Date32)
    } else if name == "date64"@ {
        Some(PlainType::Date64)
    } else if name == "utf8"@ {
        Some(PlainType::Utf8)
    } else if name == "large_utf8"@ {
        Some(PlainType::LargeUtf8)
    } else if name == "binary"@ {
        Some(PlainType::Binary)
    } else if name == "large_binary"@ {
        Some(PlainType::LargeBinary)
    } else {
        None
    }
}

/// Division that rounds toward zero.
pub open spec fn trunc_div(a: int, b: int) -> int {
    if a >= 0 {
        a / b
    } else {
        -((-a) / b)
    }
}

/// The remainder of `trunc_div`; it has the sign of `a`.
pub open spec fn trunc_rem(a: int, b: int) -> int {
    a - b * trunc_div(a, b)
}

/// The `u8` that is congruent to `x`.
pub open spec fn wrap_u8(x: int) -> u8 {
    (x % 256) as u8
}

/// The `i8` that is congruent to `x`.
pub open spec fn wrap_i8(x: int) -> i8 {
    ((x + 128) % 256 - 128) as i8
}

/// The `i32` that is congruent to `x`.
pub open spec fn wrap_i32(x: int) -> i32 {
    ((x + 0x8000_0000) % 0x1_0000_0000 - 0x8000_0000) as i32
}

/// The length of a type, zero where it is absent.
pub open spec fn length_of(t: JsonType) -> int {
    match t.length {
        Some(n) => n as int,
        None => 0,
    }
}

/// The decimal type that a length encodes: a thousand times the precision, plus the scale.
pub open spec fn decimal_of(length: int) -> ArrowType {
    ArrowType::Decimal128(wrap_u8(trunc_div(length, 1000)), wrap_i8(trunc_rem(length, 1000)))
}

/// What is said of a type that needs an inner field and has none.
pub open spec fn missing_inner(name: Seq<char>) -> Seq<char> {
    if name == "list"@ {
        "list type missing inner field"@
    } else if name == "large_list"@ {
        "large_list type missing inner field"@
    } else if name == "fixed_size_list"@ {
        "fixed_size_list type missing inner field"@
    } else {
        "map type missing entries field"@
    }
}

/// The Arrow form of a JSON type, or the message that says why there is none.
pub open spec fn converted_type(t: JsonType) -> Result<ArrowType, Seq<char>>
    decreases t, 1int,
{
    converted_named_type(matched_name(t.name), t)
}

/// The Arrow form of a JSON type whose name, in lowercase, is `name`.
pub open spec fn converted_named_type(name: Seq<char>, t: JsonType) -> Result<ArrowType, Seq<char>>
    decreases t, 0int,
{
    if number_named(name) is Some {
        Ok(ArrowType::Number(number_named(name)->0))
    } else if plain_named(name) is Some {
        Ok(ArrowType::Plain(plain_named(name)->0))
    } else if name == "timestamp"@ {
        Ok(ArrowType::Timestamp(Unit::Microsecond, None))
    } else if name == "duration"@ {
        Ok(ArrowType::Duration(Unit::Microsecond))
    } else if name == "decimal128"@ {
        Ok(decimal_of(length_of(t)))
    } else if name == "fixed_size_binary"@ {
        Ok(ArrowType::FixedSizeBinary(wrap_i32(length_of(t))))
    } else if name == "list"@ || name == "large_list"@ || name == "fixed_size_list"@ || name
        == "map"@ {
        match t.fields {
            Some(s) if s.len() > 0 => match converted_field(s[0]) {
                Ok(f) => Ok(
                    if name == "list"@ {
                        ArrowType::List(Box::new(f))
                    } else if name == "large_list"@ {
                        ArrowType::LargeList(Box::new(f))
                    } else if name == "fixed_size_list"@ {
                        ArrowType::FixedSizeList(Box::new(f), wrap_i32(length_of(t)))
                    } else {
                        ArrowType::MapOf(Box::new(f), false)
                    },
                ),
                Err(m) => Err(m),
            },
            _ => Err(missing_inner(name)),
        }
    } else if name == "struct"@ {
        match t.fields {
            Some(s) => match converted_fields(s) {
                Ok(v) => Ok(ArrowType::Struct(v)),
                Err(m) => Err(m),
            },
            None => Err("struct type missing fields"@),
        }
    } else {
        Err("Unsupported Arrow type: "@ + name)
    }
}

/// The Arrow form of a JSON field.
pub open spec fn converted_field(f: JsonField) -> Result<ArrowField, Seq<char>>
    decreases f, 0int,
{
    match converted_type(*f.data_type) {
        Ok(t) => Ok(
            ArrowField {
                name: f.name,
                data_type: t,
                nullable: f.nullable,
                metadata: match f.metadata {
                    Some(m) => m,
                    None => Map::empty(),
                },
            },
        ),
        Err(m) => Err(m),
    }
}

/// The Arrow forms of JSON fields, or the message of the first that has none.
pub open spec fn converted_fields(s: Seq<JsonField>) -> Result<Seq<ArrowField>, Seq<char>>
    decreases s, 0int,
{
    if s.len() == 0 {
        Ok(Seq::empty())
    } else {
        match converted_fields(s.drop_last()) {
            Ok(v) => match converted_field(s.last()) {
                Ok(f) => Ok(v.push(f)),
                Err(m) => Err(m),
            },
            Err(m) => Err(m),
        }
    }
}

/// The Arrow form of a JSON schema.
pub open spec fn converted_schema(s: JsonSchema) -> Result<ArrowSchema, Seq<char>> {
    match converted_fields(s.fields) {
        Ok(v) => Ok(
            ArrowSchema {
                fields: v,
                metadata: match s.metadata {
                    Some(m) => m,
                    None => Map::empty(),
                },
            },
        ),
        Err(m) => Err(m),
    }
}

/// Whether a conversion of a type came out as `expected`.
pub open spec fn type_outcome(
    r: Result<DataType, ConversionError>,
    expected: Result<ArrowType, Seq<char>>,
) -> bool {
    match (r, expected) {
        (Ok(t), Ok(v)) => arrow_type(t) == v,
        (Err(e), Err(m)) => e.message@ == m,
        _ => false,
    }
}

/// Whether a conversion of a field came out as `expected`.
pub open spec fn field_outcome(
    r: Result<Field, ConversionError>,
    expected: Result<ArrowField, Seq<char>>,
) -> bool {
    match (r, expected) {
        (Ok(f), Ok(v)) => arrow_field(f) == v,
        (Err(e), Err(m)) => e.message@ == m,
        _ => false,
    }
}

/// Whether a conversion of a list of fields came out as `expected`.
pub open spec fn fields_outcome(
    r: Result<Vec<Field>, ConversionError>,
    expected: Result<Seq<ArrowField>, Seq<char>>,
) -> bool {
    match (r, expected) {
        (Ok(s), Ok(v)) => arrow_fields(s@) == v,
        (Err(e), Err(m)) => e.message@ == m,
        _ => false,
    }
}

/// Whether a conversion of a schema came out as `expected`.
pub open spec fn schema_outcome(
    r: Result<Schema, ConversionError>,
    expected: Result<ArrowSchema, Seq<char>>,
) -> bool {
    match (r, expected) {
        (Ok(s), Ok(v)) => arrow_schema(s) == v,
        (Err(e), Err(m)) => e.message@ == m,
        _ => false,
    }
}

fn find_number(name: &str) -> (r: Option<NumberType>)
    ensures
        r == number_named(name@),
{
    if *name == *"int8" {
        Some(NumberType::Int8)
    } else if *name == *"uint8" {
        Some(NumberType::UInt8)
    } else if *name == *"int16" {
        Some(NumberType::Int16)
    } else if *name == *"uint16" {
        Some(NumberType::UInt16)
    } else if *name == *"int32" {
        Some(NumberType::Int32)
    } else if *name == *"uint32" {
        Some(NumberType::UInt32)
    } else if *name == *"int64" {
        Some(NumberType::Int64)
    } else if *name == *"uint64" {
        Some(NumberType::UInt64)
    } else if *name == *"float16" {
        Some(NumberType::Float16)
    } else if *name == *"float32" {
        Some(NumberType::Float32)
    } else if *name == *"float64" {
        Some(NumberType::Float64)
    } else {
        None
    }
}

fn find_plain(name: &str) -> (r: Option<PlainType>)
    ensures
        r == plain_named(name@),
{
    if *name == *"null" {
        Some(PlainType::Null)
    } else if *name == *"bool" || *name == *"boolean" {
        Some(PlainType::Boolean)
    } else if *name == *"date32" {
        Some(PlainType::Date32)
    } else if *name == *"date64" {
        Some(PlainType::Date64)
    } else if *name == *"utf8" {
        Some(PlainType::Utf8)
    } else if *name == *"large_utf8" {
        Some(PlainType::LargeUtf8)
    } else if *name == *"binary" {
        Some(PlainType::Binary)
    } else if *name == *"large_binary" {
        Some(PlainType::LargeBinary)
    } else {
        None
    }
}

/// Splits a length into the precision and the scale that it encodes.
fn decode_decimal(length: i64) -> (r: (u8, i8))
    ensures
        r.0 == wrap_u8(trunc_div(length as int, 1000)),
        r.1 == wrap_i8(trunc_rem(length as int, 1000)),
{
    let quotient: i64 = length / 1000;
    let remainder: i64 = length % 1000;
    assert(quotient as u8 == quotient % 256) by (bit_vector);
    assert(remainder as i8 == (remainder + 128) % 256 - 128) by (bit_vector)
        requires
            -1000 < remainder < 1000,
    ;
    (#[verifier::truncate] (quotient as u8), #[verifier::truncate] (remainder as i8))
}

/// Cuts a length down to 32 bits.
fn short_length(length: i64) -> (r: i32)
    ensures
        r == wrap_i32(length as int),
{
    assert(length as i32 == (length + 0x8000_0000) % 0x1_0000_0000 - 0x8000_0000) by (bit_vector);
    #[verifier::truncate]
    (length as i32)
}

/// Converts a JSON type. Its name is matched without regard to case.
pub fn convert_type(t: &TypeJson) -> (r: Result<DataType, ConversionError>)
    ensures
        type_outcome(r, converted_type(t@)),
        type_outcome(r, converted_named_type(lowercase(t@.name), t@)),
    decreases *t, 2int,
{
    let name = t.name.as_str().to_lowercase();
    convert_named_type(name.as_str(), t)
}

/// Converts a JSON type whose name, in lowercase, is `name`.
pub fn convert_named_type(name: &str, t: &TypeJson) -> (r: Result<DataType, ConversionError>)
    ensures
        type_outcome(r, converted_named_type(name@, t@)),
    decreases *t, 1int,
{
    if let Some(kind) = find_number(name) {
        return Ok(number_type(kind));
    }
    if let Some(kind) = find_plain(name) {
        return Ok(plain_type(kind));
    }
    let length: i64 = match t.length {
        Some(n) => n,
        None => 0,
    };
    if *name == *"timestamp" {
        Ok(timestamp_type(Unit::Microsecond, None))
    } else if *name == *"duration" {
        Ok(duration_type(Unit::Microsecond))
    } else if *name == *"decimal128" {
        let (precision, scale) = decode_decimal(length);
        Ok(decimal_type(precision, scale))
    } else if *name == *"fixed_size_binary" {
        Ok(fixed_size_binary_type(short_length(length)))
    } else if *name == *"list" {
        match convert_inner(t, "list type missing inner field") {
            Ok(f) => Ok(list_type(f)),
            Err(e) => Err(e),
        }
    } else if *name == *"large_list" {
        match convert_inner(t, "large_list type missing inner field") {
            Ok(f) => Ok(large_list_type(f)),
            Err(e) => Err(e),
        }
    } else if *name == *"fixed_size_list" {
        match convert_inner(t, "fixed_size_list type missing inner field") {
            Ok(f) => Ok(fixed_size_list_type(f, short_length(length))),
            Err(e) => Err(e),
        }
    } else if *name == *"map" {
        match convert_inner(t, "map type missing entries field") {
            Ok(f) => Ok(map_type(f, false)),
            Err(e) => Err(e),
        }
    } else if *name == *"struct" {
        match &t.fields {
            Some(fields) => match convert_fields(fields) {
                Ok(v) => Ok(struct_type(v)),
                Err(e) => Err(e),
            },
            None => Err(ConversionError { message: "struct type missing fields".to_owned() }),
        }
    } else {
        Err(ConversionError { message: concat("Unsupported Arrow type: ", name) })
    }
}

/// Converts the first field of a type; without one, `missing` says what is wrong.
fn convert_inner(t: &TypeJson, missing: &str) -> (r: Result<Field, ConversionError>)
    ensures
        match t@.fields {
            Some(s) if s.len() > 0 => field_outcome(r, converted_field(s[0])),
            _ => r matches Err(e) && e.message@ == missing@,
        },
    decreases *t, 0int,
{
    match &t.fields {
        Some(fields) => {
            proof {
                crate::json::lemma_fields_view(fields@);
            }
            if fields.len() > 0 {
                convert_field(&fields[0])
            } else {
                Err(ConversionError { message: missing.to_owned() })
            }
        },
        None => Err(ConversionError { message: missing.to_owned() }),
    }
}

/// Converts a JSON field.
pub fn convert_field(f: &FieldJson) -> (r: Result<Field, ConversionError>)
    ensures
        field_outcome(r, converted_field(f@)),
    decreases *f, 0int,
{
    match convert_type(&f.data_type) {
        Ok(t) => {
            let field = new_field(f.name.as_str(), t, f.nullable);
            match &f.metadata {
                Some(m) => Ok(field_with_metadata(field, m)),
                None => Ok(field),
            }
        },
        Err(e) => Err(e),
    }
}

/// Converts JSON fields, in order, up to the first that has no Arrow form.
fn convert_fields(fields: &Vec<FieldJson>) -> (r: Result<Vec<Field>, ConversionError>)
    ensures
        fields_outcome(r, converted_fields(crate::json::fields_view(fields@))),
    decreases fields@, 0int,
{
    let mut r: Vec<Field> = Vec::new();
    let ghost all = crate::json::fields_view(fields@);
    proof {
        crate::json::lemma_fields_view(fields@);
        assert(arrow_fields(r@) =~= Seq::empty());
    }
    for i in 0..fields.len()
        invariant
            all == crate::json::fields_view(fields@),
            all.len() == fields@.len(),
            forall|j: int| 0 <= j < fields@.len() ==> #[trigger] all[j] == fields@[j]@,
            converted_fields(all.take(i as int)) == Ok::<Seq<ArrowField>, Seq<char>>(
                arrow_fields(r@),
            ),
    {
        let ghost done = r@;
        assert(all.take(i + 1).drop_last() =~= all.take(i as int));
        assert(all.take(i + 1).last() == fields@[i as int]@);
        match convert_field(&fields[i]) {
            Ok(f) => {
                r.push(f);
                assert(arrow_fields(r@) =~= arrow_fields(done).push(arrow_field(f)));
            },
            Err(e) => {
                proof {
                    lemma_converted_fields_prefix(all, i + 1);
                }
                return Err(e);
            },
        }
    }
    assert(all.take(all.len() as int) =~= all);
    Ok(r)
}

/// Where a prefix of the fields fails, the whole list fails with the same message.
proof fn lemma_converted_fields_prefix(s: Seq<JsonField>, n: int)
    requires
        0 <= n <= s.len(),
    ensures
        converted_fields(s.take(n)) matches Err(m) ==> converted_fields(s) == Err::<
            Seq<ArrowField>,
            Seq<char>,
        >(m),
    decreases s.len() - n,
{
    if n < s.len() {
        assert(s.take(n + 1).drop_last() =~= s.take(n));
        lemma_converted_fields_prefix(s, n + 1);
    } else {
        assert(s.take(n) =~= s);
    }
}

/// Converts a JSON schema to an Arrow schema.
pub fn convert_schema(json_schema: &SchemaJson) -> (r: Result<Schema, ConversionError>)
    ensures
        schema_outcome(r, converted_schema(json_schema@)),
{
    match convert_fields(&json_schema.fields) {
        Ok(fields) => match &json_schema.metadata {
            Some(m) => Ok(new_schema(fields, m)),
            None => {
                let none: Vec<(String, String)> = Vec::new();
                Ok(new_schema(fields, &none))
            },
        },
        Err(e) => Err(e),
    }
}

/// How a `lance_core` namespace error reads: `Error::namespace` carries the message, and its text
/// is a fixed heading, the message and the place in the source where the error was made. The text
/// of that place is left open: it depends on how the crate was built.
#[verifier::external_body]
fn namespace_error_text(message: &str) -> (r: String)
    ensures
        ("Namespace error: "@ + message@ + ", "@).is_prefix_of(r@),
{
    lance_core::Error::namespace(message).to_string()
}

/// Whether `f` reports a schema that has no Arrow form, for the reason `message`.
pub open spec fn is_conversion_failure(f: Failure, message: Seq<char>) -> bool {
    &&& f.code == ErrorCode::SchemaExport
    &&& ("failed to convert JSON arrow schema: "@ + ("Namespace error: "@ + message
        + ", "@)).is_prefix_of(f.message)
}

/// The failure to read a text as a JSON schema.
pub open spec fn parse_failure(message: Seq<char>) -> Failure {
    failure(ErrorCode::SchemaExport, "failed to parse JSON arrow schema: "@, message)
}

/// The Arrow schema of a JSON schema, for export.
pub fn exported_schema(json_schema: &SchemaJson) -> (r: FfiResult<Schema>)
    ensures
        match (r, converted_schema(json_schema@)) {
            (Ok(s), Ok(v)) => arrow_schema(s) == v,
            (Err(e), Err(m)) => is_conversion_failure(e@, m),
            _ => false,
        },
{
    match convert_schema(json_schema) {
        Ok(s) => Ok(s),
        Err(e) => {
            let reason = namespace_error_text(e.message.as_str());
            let error = error_of(
                ErrorCode::SchemaExport,
                "failed to convert JSON arrow schema: ",
                reason.as_str(),
            );
            proof {
                let head = "failed to convert JSON arrow schema: "@;
                let tail = "Namespace error: "@ + e.message@ + ", "@;
                assert(error@.message.take((head + tail).len() as int) =~= head + reason@.take(
                    tail.len() as int,
                ));
                assert((head + tail).is_prefix_of(error@.message));
            }
            Err(error)
        },
    }
}

/// The Arrow schema that a JSON text describes, for export. A text that could not be obtained is
/// its error.
pub fn json_arrow_schema(json: FfiResult<&str>) -> (r: FfiResult<Schema>)
    ensures
        match json {
            Err(e) => r == Err::<Schema, FfiError>(e),
            Ok(text) => match crate::json::parsed_schema(text@) {
                Err(m) => r matches Err(e) && e@ == parse_failure(m),
                Ok(s) => match (r, converted_schema(s)) {
                    (Ok(a), Ok(v)) => arrow_schema(a) == v,
                    (Err(e), Err(m)) => is_conversion_failure(e@, m),
                    _ => false,
                },
            },
        },
{
    match json {
        Err(e) => Err(e),
        Ok(text) => match parse_schema(text) {
            Err(m) => Err(
                error_of(
                    ErrorCode::SchemaExport,
                    "failed to parse JSON arrow schema: ",
                    m.as_str(),
                ),
            ),
            Ok(s) => exported_schema(&s),
        },
    }
}

/// Whether a JSON type has an Arrow form: its name is known and, where the name asks for inner
/// fields, they are there and have one too.
pub open spec fn is_supported(t: JsonType) -> bool
    decreases t,
{
    let name = matched_name(t.name);
    if number_named(name) is Some || plain_named(name) is Some || name == "timestamp"@ || name
        == "duration"@ || name == "decimal128"@ || name == "fixed_size_binary"@ {
        true
    } else if name == "list"@ || name == "large_list"@ || name == "fixed_size_list"@ || name
        == "map"@ {
        match t.fields {
            Some(s) => s.len() > 0 && is_supported(*s[0].data_type),
            None => false,
        }
    } else if name == "struct"@ {
        match t.fields {
            Some(s) => forall|i: int|
                0 <= i < s.len() ==> is_supported(*(#[trigger] s[i]).data_type),
            None => false,
        }
    } else {
        false
    }
}

proof fn lemma_type_converts_iff_supported(t: JsonType)
    ensures
        converted_type(t) is Ok <==> is_supported(t),
    decreases t, 1int,
{
    match t.fields {
        Some(s) => {
            lemma_fields_convert_iff_supported(s);
            if s.len() > 0 {
                lemma_type_converts_iff_supported(*s[0].data_type);
                assert(converted_field(s[0]) is Ok <==> is_supported(*s[0].data_type));
            }
        },
        None => {},
    }
}

proof fn lemma_fields_convert_iff_supported(s: Seq<JsonField>)
    ensures
        converted_fields(s) is Ok <==> forall|i: int|
            0 <= i < s.len() ==> is_supported(*(#[trigger] s[i]).data_type),
    decreases s, 0int,
{
    if s.len() > 0 {
        let rest = s.drop_last();
        lemma_fields_convert_iff_supported(rest);
        lemma_type_converts_iff_supported(*s.last().data_type);
        assert(converted_field(s.last()) is Ok <==> is_supported(*s.last().data_type));
        if converted_fields(s) is Ok {
            assert forall|i: int| 0 <= i < s.len() implies is_supported(
                *(#[trigger] s[i]).data_type,
            ) by {
                if i < rest.len() {
                    assert(rest[i] == s[i]);
                }
            }
        }
        if forall|i: int| 0 <= i < s.len() ==> is_supported(*(#[trigger] s[i]).data_type) {
            assert forall|i: int| 0 <= i < rest.len() implies is_supported(
                *(#[trigger] rest[i]).data_type,
            ) by {
                assert(rest[i] == s[i]);
            }
            assert(is_supported(*s[s.len() - 1].data_type));
        }
    }
}

/// A schema has an Arrow form exactly when each of its fields has a supported type.
pub proof fn law_schema_converts_iff_supported(s: JsonSchema)
    ensures
        converted_schema(s) is Ok <==> forall|i: int|
            0 <= i < s.fields.len() ==> is_supported(*(#[trigger] s.fields[i]).data_type),
{
    lemma_fields_convert_iff_supported(s.fields);
}

proof fn lemma_fields_keep_shape(s: Seq<JsonField>)
    ensures
        converted_fields(s) matches Ok(v) ==> v.len() == s.len() && forall|i: int|
            0 <= i < s.len() ==> converted_field(s[i]) == Ok::<ArrowField, Seq<char>>(
                #[trigger] v[i],
            ),
    decreases s.len(),
{
    if s.len() > 0 {
        lemma_fields_keep_shape(s.drop_last());
    }
}

/// Conversion keeps the fields in their order, each with its name, nullability and metadata, and
/// keeps the metadata of the schema.
pub proof fn law_schema_keeps_shape(s: JsonSchema)
    ensures
        converted_schema(s) matches Ok(a) ==> {
            &&& a.fields.len() == s.fields.len()
            &&& forall|i: int|
                0 <= i < s.fields.len() ==> {
                    let f = #[trigger] a.fields[i];
                    &&& f.name == s.fields[i].name
                    &&& f.nullable == s.fields[i].nullable
                    &&& s.fields[i].metadata matches Some(m) ==> f.metadata == m
                    &&& s.fields[i].metadata is None ==> f.metadata == Map::<
                        Seq<char>,
                        Seq<char>,
                    >::empty()
                    &&& converted_type(*s.fields[i].data_type) == Ok::<ArrowType, Seq<char>>(
                        f.data_type,
                    )
                }
            &&& s.metadata matches Some(m) ==> a.metadata == m
            &&& s.metadata is None ==> a.metadata == Map::<Seq<char>, Seq<char>>::empty()
        },
{
    lemma_fields_keep_shape(s.fields);
}

/// A decimal's length encodes its precision and its scale: a thousand times the one plus the
/// other is read back as the two. A negative scale under a precision cannot be encoded so.
pub proof fn law_decimal_length_round_trip(precision: u8, scale: i8)
    requires
        scale >= 0 || precision == 0,
    ensures
        decimal_of(1000 * precision + scale) == ArrowType::Decimal128(precision, scale),
{
}

/// Whether two types are the same but for the case of ASCII letters in the names of types, their
/// own and those inside.
pub open spec fn same_but_for_case(a: JsonType, b: JsonType) -> bool
    decreases a,
{
    &&& ascii_lowercase(a.name) == ascii_lowercase(b.name)
    &&& a.length == b.length
    &&& match (a.fields, b.fields) {
        (Some(s), Some(t)) => s.len() == t.len() && forall|i: int|
            0 <= i < s.len() ==> {
                &&& (#[trigger] s[i]).name == t[i].name
                &&& s[i].nullable == t[i].nullable
                &&& s[i].metadata == t[i].metadata
                &&& same_but_for_case(*s[i].data_type, *t[i].data_type)
            },
        (None, None) => true,
        _ => false,
    }
}

/// The names of types are matched without regard to ASCII case, at every depth: two types that
/// differ in nothing else have the same Arrow form, or fail with the same message.
pub proof fn law_type_names_ignore_case(a: JsonType, b: JsonType)
    requires
        same_but_for_case(a, b),
    ensures
        converted_type(a) == converted_type(b),
    decreases a, 1int,
{
    law_names_ignore_ascii_case(a.name, b.name);
    let name = matched_name(a.name);
    if let (Some(s), Some(t)) = (a.fields, b.fields) {
        lemma_fields_ignore_case(s, t);
        if s.len() > 0 {
            assert(s[0].name == t[0].name);
            law_type_names_ignore_case(*s[0].data_type, *t[0].data_type);
            assert(converted_field(s[0]) == converted_field(t[0]));
        }
    }
    assert(converted_named_type(name, a) == converted_named_type(name, b));
}

proof fn lemma_fields_ignore_case(s: Seq<JsonField>, t: Seq<JsonField>)
    requires
        s.len() == t.len(),
        forall|i: int|
            0 <= i < s.len() ==> {
                &&& (#[trigger] s[i]).name == t[i].name
                &&& s[i].nullable == t[i].nullable
                &&& s[i].metadata == t[i].metadata
                &&& same_but_for_case(*s[i].data_type, *t[i].data_type)
            },
    ensures
        converted_fields(s) == converted_fields(t),
    decreases s, 0int,
{
    if s.len() > 0 {
        let n = s.len() - 1;
        assert(s[n].name == t[n].name);
        assert forall|i: int| 0 <= i < s.drop_last().len() implies {
            &&& (#[trigger] s.drop_last()[i]).name == t.drop_last()[i].name
            &&& s.drop_last()[i].nullable == t.drop_last()[i].nullable
            &&& s.drop_last()[i].metadata == t.drop_last()[i].metadata
            &&& same_but_for_case(*s.drop_last()[i].data_type, *t.drop_last()[i].data_type)
        } by {
            assert(s[i].name == t[i].name);
        }
        lemma_fields_ignore_case(s.drop_last(), t.drop_last());
        law_type_names_ignore_case(*s.last().data_type, *t.last().data_type);
        assert(converted_field(s.last()) == converted_field(t.last()));
    }
}

/// The names of the types are all different.
proof fn lemma_names_differ()
    ensures
        "map"@.len() == 3,
        "int8"@.len() == 4 && "int8"@[0] == 'i',
        "null"@.len() == 4 && "null"@[0] == 'n',
        "bool"@.len() == 4 && "bool"@[0] == 'b',
        "utf8"@.len() == 4 && "utf8"@[0] == 'u',
        "list"@.len() == 4 && "list"@[0] == 'l',
        "uint8"@.len() == 5 && "uint8"@[0] == 'u',
        "int16"@.len() == 5 && "int16"@[0] == 'i' && "int16"@[3] == '1',
        "int32"@.len() == 5 && "int32"@[0] == 'i' && "int32"@[3] == '3',
        "int64"@.len() == 5 && "int64"@[0] == 'i' && "int64"@[3] == '6',
        "uint16"@.len() == 6 && "uint16"@[0] == 'u' && "uint16"@[4] == '1',
        "uint32"@.len() == 6 && "uint32"@[0] == 'u' && "uint32"@[4] == '3',
        "uint64"@.len() == 6 && "uint64"@[0] == 'u' && "uint64"@[4] == '6',
        "date32"@.len() == 6 && "date32"@[0] == 'd' && "date32"@[4] == '3',
        "date64"@.len() == 6 && "date64"@[0] == 'd' && "date64"@[4] == '6',
        "binary"@.len() == 6 && "binary"@[0] == 'b',
        "struct"@.len() == 6 && "struct"@[0] == 's',
        "float16"@.len() == 7 && "float16"@[0] == 'f' && "float16"@[5] == '1',
        "float32"@.len() == 7 && "float32"@[0] == 'f' && "float32"@[5] == '3',
        "float64"@.len() == 7 && "float64"@[0] == 'f' && "float64"@[5] == '6',
        "boolean"@.len() == 7 && "boolean"@[0] == 'b',
        "duration"@.len() == 8,
        "timestamp"@.len() == 9,
        "large_utf8"@.len() == 10 && "large_utf8"@[0] == 'l' && "large_utf8"@[6] == 'u',
        "decimal128"@.len() == 10 && "decimal128"@[0] == 'd',
        "large_list"@.len() == 10 && "large_list"@[0] == 'l' && "large_list"@[6] == 'l',
        "large_binary"@.len() == 12,
        "fixed_size_list"@.len() == 15,
        "fixed_size_binary"@.len() == 17,
{
    reveal_strlit("map");
    reveal_strlit("int8");
    reveal_strlit("null");
    reveal_strlit("bool");
    reveal_strlit("utf8");
    reveal_strlit("list");
    reveal_strlit("uint8");
    reveal_strlit("int16");
    reveal_strlit("int32");
    reveal_strlit("int64");
    reveal_strlit("uint16");
    reveal_strlit("uint32");
    reveal_strlit("uint64");
    reveal_strlit("date32");
    reveal_strlit("date64");
    reveal_strlit("binary");
    reveal_strlit("struct");
    reveal_strlit("float16");
    reveal_strlit("float32");
    reveal_strlit("float64");
    reveal_strlit("boolean");
    reveal_strlit("duration");
    reveal_strlit("timestamp");
    reveal_strlit("large_utf8");
    reveal_strlit("decimal128");
    reveal_strlit("large_list");
    reveal_strlit("large_binary");
    reveal_strlit("fixed_size_list");
    reveal_strlit("fixed_size_binary");
}

/// The name of an ASCII type is matched with each capital letter made small and nothing else
/// changed, however long it is.
pub proof fn law_matched_name_of_ascii(s: Seq<char>)
    requires
        vstd::utf8::is_ascii_chars(s),
    ensures
        matched_name(s).len() == s.len(),
        forall|i: int|
            0 <= i < s.len() ==> {
                &&& 'A' <= s[i] <= 'Z' ==> (#[trigger] matched_name(s)[i]) as int == s[i] as int
                    + 32
                &&& !('A' <= s[i] <= 'Z') ==> matched_name(s)[i] == s[i]
            },
{
}

/// A type without parameters is what its name says, whatever length or fields it comes with.
/// Timestamps and durations count microseconds, and timestamps have no time zone.
pub proof fn law_plain_names_decide(t: JsonType, r: Result<DataType, ConversionError>)
    requires
        type_outcome(r, converted_type(t)),
    ensures
        matched_name(t.name) == "int8"@ ==> r is Ok && arrow_type(r->Ok_0) == ArrowType::Number(
            NumberType::Int8,
        ),
        matched_name(t.name) == "uint8"@ ==> r is Ok && arrow_type(r->Ok_0) == ArrowType::Number(
            NumberType::UInt8,
        ),
        matched_name(t.name) == "int16"@ ==> r is Ok && arrow_type(r->Ok_0) == ArrowType::Number(
            NumberType::Int16,
        ),
        matched_name(t.name) == "uint16"@ ==> r is Ok && arrow_type(r->Ok_0) == ArrowType::Number(
            NumberType::UInt16,
        ),
        matched_name(t.name) == "int32"@ ==> r is Ok && arrow_type(r->Ok_0) == ArrowType::Number(
            NumberType::Int32,
        ),
        matched_name(t.name) == "uint32"@ ==> r is Ok && arrow_type(r->Ok_0) == ArrowType::Number(
            NumberType::UInt32,
        ),
        matched_name(t.name) == "int64"@ ==> r is Ok && arrow_type(r->Ok_0) == ArrowType::Number(
            NumberType::Int64,
        ),
        matched_name(t.name) == "uint64"@ ==> r is Ok && arrow_type(r->Ok_0) == ArrowType::Number(
            NumberType::UInt64,
        ),
        matched_name(t.name) == "float16"@ ==> r is Ok && arrow_type(r->Ok_0) == ArrowType::Number(
            NumberType::Float16,
        ),
        matched_name(t.name) == "float32"@ ==> r is Ok && arrow_type(r->Ok_0) == ArrowType::Number(
            NumberType::Float32,
        ),
        matched_name(t.name) == "float64"@ ==> r is Ok && arrow_type(r->Ok_0) == ArrowType::Number(
            NumberType::Float64,
        ),
        matched_name(t.name) == "null"@ ==> r is Ok && arrow_type(r->Ok_0) == ArrowType::Plain(
            PlainType::Null,
        ),
        matched_name(t.name) == "bool"@ ==> r is Ok && arrow_type(r->Ok_0) == ArrowType::Plain(
            PlainType::Boolean,
        ),
        matched_name(t.name) == "boolean"@ ==> r is Ok && arrow_type(r->Ok_0) == ArrowType::Plain(
            PlainType::Boolean,
        ),
        matched_name(t.name) == "date32"@ ==> r is Ok && arrow_type(r->Ok_0) == ArrowType::Plain(
            PlainType::Date32,
        ),
        matched_name(t.name) == "date64"@ ==> r is Ok && arrow_type(r->Ok_0) == ArrowType::Plain(
            PlainType::Date64,
        ),
        matched_name(t.name) == "utf8"@ ==> r is Ok && arrow_type(r->Ok_0) == ArrowType::Plain(
            PlainType::Utf8,
        ),
        matched_name(t.name) == "large_utf8"@ ==> r is Ok && arrow_type(r->Ok_0)
            == ArrowType::Plain(PlainType::LargeUtf8),
        matched_name(t.name) == "binary"@ ==> r is Ok && arrow_type(r->Ok_0) == ArrowType::Plain(
            PlainType::Binary,
        ),
        matched_name(t.name) == "large_binary"@ ==> r is Ok && arrow_type(r->Ok_0)
            == ArrowType::Plain(PlainType::LargeBinary),
        matched_name(t.name) == "timestamp"@ ==> r is Ok && arrow_type(r->Ok_0)
            == ArrowType::Timestamp(Unit::Microsecond, None),
        matched_name(t.name) == "duration"@ ==> r is Ok && arrow_type(r->Ok_0)
            == ArrowType::Duration(Unit::Microsecond),
{
    lemma_names_differ();
}

/// A type with any other name has no Arrow form, and the message says its name.
pub proof fn law_other_names_fail(t: JsonType, r: Result<DataType, ConversionError>)
    requires
        type_outcome(r, converted_type(t)),
        matched_name(t.name) != "int8"@,
        matched_name(t.name) != "null"@,
        matched_name(t.name) != "bool"@,
        matched_name(t.name) != "utf8"@,
        matched_name(t.name) != "list"@,
        matched_name(t.name) != "map"@,
        matched_name(t.name) != "uint8"@,
        matched_name(t.name) != "int16"@,
        matched_name(t.name) != "int32"@,
        matched_name(t.name) != "int64"@,
        matched_name(t.name) != "uint16"@,
        matched_name(t.name) != "uint32"@,
        matched_name(t.name) != "uint64"@,
        matched_name(t.name) != "date32"@,
        matched_name(t.name) != "date64"@,
        matched_name(t.name) != "binary"@,
        matched_name(t.name) != "struct"@,
        matched_name(t.name) != "float16"@,
        matched_name(t.name) != "float32"@,
        matched_name(t.name) != "float64"@,
        matched_name(t.name) != "boolean"@,
        matched_name(t.name) != "duration"@,
        matched_name(t.name) != "timestamp"@,
        matched_name(t.name) != "large_utf8"@,
        matched_name(t.name) != "decimal128"@,
        matched_name(t.name) != "large_list"@,
        matched_name(t.name) != "large_binary"@,
        matched_name(t.name) != "fixed_size_list"@,
        matched_name(t.name) != "fixed_size_binary"@,
    ensures
        r is Err,
        r->Err_0.message@ == "Unsupported Arrow type: "@ + matched_name(t.name),
{
}

/// A list of fixed size has the size that its length says, where that is a size, and size zero
/// where it has no length. It has the item that its first field converts to.
pub proof fn law_fixed_size_list_has_its_length(
    t: JsonType,
    r: Result<DataType, ConversionError>,
)
    requires
        type_outcome(r, converted_type(t)),
        matched_name(t.name) == "fixed_size_list"@,
        t.fields matches Some(s) && s.len() > 0 && converted_field(s[0]) is Ok,
    ensures
        r is Ok,
        arrow_type(r->Ok_0) is FixedSizeList,
        *arrow_type(r->Ok_0)->FixedSizeList_0 == converted_field(t.fields->0[0])->Ok_0,
        t.length matches Some(n) ==> i32::MIN <= n <= i32::MAX ==> arrow_type(
            r->Ok_0,
        )->FixedSizeList_1 == n,
        t.length is None ==> arrow_type(r->Ok_0)->FixedSizeList_1 == 0,
{
    lemma_names_differ();
}

/// A list of fixed size whose length is beyond the range of sizes has one that is congruent to it.
pub proof fn law_fixed_size_list_wraps(t: JsonType, r: Result<DataType, ConversionError>)
    requires
        type_outcome(r, converted_type(t)),
        matched_name(t.name) == "fixed_size_list"@,
        t.fields matches Some(s) && s.len() > 0 && converted_field(s[0]) is Ok,
        t.length is Some,
    ensures
        r is Ok,
        (arrow_type(r->Ok_0)->FixedSizeList_1 - t.length->0) % 0x1_0000_0000 == 0,
{
    lemma_names_differ();
}

/// Binary of fixed size has the width that its length says, where that is a width, and width zero
/// where it has no length.
pub proof fn law_fixed_size_binary_has_its_length(
    t: JsonType,
    r: Result<DataType, ConversionError>,
)
    requires
        type_outcome(r, converted_type(t)),
        matched_name(t.name) == "fixed_size_binary"@,
    ensures
        r is Ok,
        arrow_type(r->Ok_0) is FixedSizeBinary,
        t.length matches Some(n) ==> i32::MIN <= n <= i32::MAX ==> arrow_type(
            r->Ok_0,
        )->FixedSizeBinary_0 == n,
        t.length is None ==> arrow_type(r->Ok_0)->FixedSizeBinary_0 == 0,
{
    lemma_names_differ();
}

/// Binary of fixed size whose length is beyond the range of widths has one that is congruent to it.
pub proof fn law_fixed_size_binary_wraps(t: JsonType, r: Result<DataType, ConversionError>)
    requires
        type_outcome(r, converted_type(t)),
        matched_name(t.name) == "fixed_size_binary"@,
        t.length is Some,
    ensures
        r is Ok,
        (arrow_type(r->Ok_0)->FixedSizeBinary_0 - t.length->0) % 0x1_0000_0000 == 0,
{
    lemma_names_differ();
}

/// A decimal has the precision and the scale that its length encodes: a thousand times the one plus
/// the other, both of one sign. Beyond the range of a precision or a scale they are congruent to
/// these. Without a length both are zero.
pub proof fn law_decimal_has_its_length(
    t: JsonType,
    r: Result<DataType, ConversionError>,
    precision: int,
    scale: int,
)
    requires
        type_outcome(r, converted_type(t)),
        matched_name(t.name) == "decimal128"@,
        t.length matches Some(n) ==> n == 1000 * precision + scale,
        t.length is None ==> precision == 0 && scale == 0,
        (precision >= 0 && 0 <= scale < 1000) || (precision <= 0 && -1000 < scale <= 0),
    ensures
        r is Ok,
        arrow_type(r->Ok_0) is Decimal128,
        0 <= precision <= u8::MAX ==> arrow_type(r->Ok_0)->Decimal128_0 == precision,
        i8::MIN <= scale <= i8::MAX ==> arrow_type(r->Ok_0)->Decimal128_1 == scale,
        (arrow_type(r->Ok_0)->Decimal128_0 - precision) % 256 == 0,
        (arrow_type(r->Ok_0)->Decimal128_1 - scale) % 256 == 0,
{
    lemma_names_differ();
    let length = length_of(t);
    assert(trunc_div(length, 1000) == precision);
    assert(trunc_rem(length, 1000) == scale);
}

/// Lists and maps have the item that their first field converts to, whatever length or further
/// fields they come with. The keys of a map are not said to be sorted.
pub proof fn law_nested_types_keep_their_item(t: JsonType, r: Result<DataType, ConversionError>)
    requires
        type_outcome(r, converted_type(t)),
        t.fields matches Some(s) && s.len() > 0 && converted_field(s[0]) is Ok,
    ensures
        matched_name(t.name) == "list"@ ==> r is Ok && (arrow_type(r->Ok_0) matches ArrowType::List(
            item,
        ) && *item == converted_field(t.fields->0[0])->Ok_0),
        matched_name(t.name) == "large_list"@ ==> r is Ok && (
        arrow_type(r->Ok_0) matches ArrowType::LargeList(item) && *item == converted_field(
            t.fields->0[0],
        )->Ok_0),
        matched_name(t.name) == "map"@ ==> r is Ok && (arrow_type(r->Ok_0) matches ArrowType::MapOf(
            entries,
            sorted,
        ) && *entries == converted_field(t.fields->0[0])->Ok_0 && !sorted),
{
    lemma_names_differ();
}

/// A struct has an Arrow form exactly when each of its fields has one, and then it has these, all
/// of them and in order.
pub proof fn law_struct_keeps_its_fields(t: JsonType, r: Result<DataType, ConversionError>)
    requires
        type_outcome(r, converted_type(t)),
        matched_name(t.name) == "struct"@,
        t.fields is Some,
    ensures
        r is Ok <==> forall|i: int|
            0 <= i < t.fields->0.len() ==> converted_field(#[trigger] t.fields->0[i]) is Ok,
        r is Ok ==> {
            &&& arrow_type(r->Ok_0) is Struct
            &&& arrow_type(r->Ok_0)->Struct_0.len() == t.fields->0.len()
            &&& forall|i: int|
                0 <= i < t.fields->0.len() ==> converted_field(#[trigger] t.fields->0[i])
                    == Ok::<ArrowField, Seq<char>>(arrow_type(r->Ok_0)->Struct_0[i])
        },
{
    lemma_names_differ();
    let s = t.fields->0;
    lemma_fields_keep_shape(s);
    lemma_fields_convert_where_each_does(s);
    if converted_fields(s) is Ok {
        let v = converted_fields(s)->Ok_0;
        assert forall|i: int| 0 <= i < s.len() implies converted_field(#[trigger] s[i]) == Ok::<
            ArrowField,
            Seq<char>,
        >(v[i]) by {}
    }
}

proof fn lemma_fields_convert_where_each_does(s: Seq<JsonField>)
    ensures
        converted_fields(s) is Ok <==> forall|i: int|
            0 <= i < s.len() ==> converted_field(#[trigger] s[i]) is Ok,
    decreases s.len(),
{
    if s.len() > 0 {
        let rest = s.drop_last();
        lemma_fields_convert_where_each_does(rest);
        if converted_fields(s) is Ok {
            assert forall|i: int| 0 <= i < s.len() implies converted_field(
                #[trigger] s[i],
            ) is Ok by {
                if i < rest.len() {
                    assert(rest[i] == s[i]);
                }
            }
        }
        if forall|i: int| 0 <= i < s.len() ==> converted_field(#[trigger] s[i]) is Ok {
            assert forall|i: int| 0 <= i < rest.len() implies converted_field(
                #[trigger] rest[i],
            ) is Ok by {
                assert(rest[i] == s[i]);
            }
            assert(converted_field(s[s.len() - 1]) is Ok);
        }
    }
}

/// A type that needs inner fields and has none fails, each with its own message.
pub proof fn law_missing_inner_fields_fail(t: JsonType, r: Result<DataType, ConversionError>)
    requires
        type_outcome(r, converted_type(t)),
    ensures
        t.fields is None || t.fields->0.len() == 0 ==> {
            &&& matched_name(t.name) == "list"@ ==> r is Err && r->Err_0.message@
                == "list type missing inner field"@
            &&& matched_name(t.name) == "large_list"@ ==> r is Err && r->Err_0.message@
                == "large_list type missing inner field"@
            &&& matched_name(t.name) == "fixed_size_list"@ ==> r is Err && r->Err_0.message@
                == "fixed_size_list type missing inner field"@
            &&& matched_name(t.name) == "map"@ ==> r is Err && r->Err_0.message@
                == "map type missing entries field"@
        },
        t.fields is None && matched_name(t.name) == "struct"@ ==> r is Err && r->Err_0.message@
            == "struct type missing fields"@,
{
    lemma_names_differ();
}

/// Of fields, the first that has no Arrow form decides: its message is the one that is reported.
pub proof fn law_first_failing_field_decides(s: Seq<JsonField>, n: int)
    requires
        0 <= n < s.len(),
        forall|i: int| 0 <= i < n ==> converted_field(#[trigger] s[i]) is Ok,
        converted_field(s[n]) is Err,
    ensures
        converted_fields(s) == Err::<Seq<ArrowField>, Seq<char>>(converted_field(s[n])->Err_0),
{
    let front = s.take(n);
    assert forall|i: int| 0 <= i < front.len() implies converted_field(
        #[trigger] front[i],
    ) is Ok by {
        assert(front[i] == s[i]);
    }
    lemma_fields_convert_where_each_does(front);
    assert(s.take(n + 1).drop_last() =~= front);
    assert(s.take(n + 1).last() == s[n]);
    lemma_converted_fields_prefix(s, n + 1);
}

/// What fails inside a nested type is what the type fails with.
pub proof fn law_inner_failure_is_handed_on(t: JsonType, r: Result<DataType, ConversionError>)
    requires
        type_outcome(r, converted_type(t)),
        t.fields matches Some(s) && s.len() > 0 && converted_field(s[0]) is Err,
        ({
            let name = matched_name(t.name);
            name == "list"@ || name == "large_list"@ || name == "fixed_size_list"@ || name == "map"@
                || name == "struct"@
        }),
    ensures
        r is Err,
        r->Err_0.message@ == converted_field(t.fields->0[0])->Err_0,
{
    lemma_names_differ();
    law_first_failing_field_decides(t.fields->0, 0);
}

/// A field keeps its name, its nullability and its metadata, whatever its type, and has the type
/// that its own converts to; it fails exactly as its type does.
pub proof fn law_field_keeps_its_parts(f: JsonField, r: Result<Field, ConversionError>)
    requires
        field_outcome(r, converted_field(f)),
    ensures
        r is Ok <==> converted_type(*f.data_type) is Ok,
        r matches Ok(field) ==> {
            &&& arrow_field(field).name == f.name
            &&& arrow_field(field).nullable == f.nullable
            &&& arrow_field(field).data_type == converted_type(*f.data_type)->Ok_0
            &&& f.metadata matches Some(m) ==> arrow_field(field).metadata == m
            &&& f.metadata is None ==> arrow_field(field).metadata == Map::<
                Seq<char>,
                Seq<char>,
            >::empty()
        },
        r matches Err(e) ==> e.message@ == converted_type(*f.data_type)->Err_0,
{
}

/// A schema keeps its fields, all of them and in order, and its metadata; it fails as the first of
/// its fields that fails.
pub proof fn law_schema_keeps_its_parts(s: JsonSchema, r: Result<Schema, ConversionError>)
    requires
        schema_outcome(r, converted_schema(s)),
    ensures
        r is Ok <==> forall|i: int|
            0 <= i < s.fields.len() ==> converted_field(#[trigger] s.fields[i]) is Ok,
        r matches Ok(schema) ==> {
            &&& arrow_schema(schema).fields.len() == s.fields.len()
            &&& forall|i: int|
                0 <= i < s.fields.len() ==> converted_field(#[trigger] s.fields[i]) == Ok::<
                    ArrowField,
                    Seq<char>,
                >(arrow_schema(schema).fields[i])
            &&& s.metadata matches Some(m) ==> arrow_schema(schema).metadata == m
            &&& s.metadata is None ==> arrow_schema(schema).metadata == Map::<
                Seq<char>,
                Seq<char>,
            >::empty()
        },
        forall|n: int|
            0 <= n < s.fields.len() && converted_field(#[trigger] s.fields[n]) is Err && (forall|
                i: int,
            |
                0 <= i < n ==> converted_field(#[trigger] s.fields[i]) is Ok) ==> r is Err
                && r->Err_0.message@ == converted_field(s.fields[n])->Err_0,
{
    lemma_fields_keep_shape(s.fields);
    lemma_fields_convert_where_each_does(s.fields);
    if converted_fields(s.fields) is Ok {
        let v = converted_fields(s.fields)->Ok_0;
        assert forall|i: int| 0 <= i < s.fields.len() implies converted_field(
            #[trigger] s.fields[i],
        ) == Ok::<ArrowField, Seq<char>>(v[i]) by {}
    }
    assert forall|n: int|
        0 <= n < s.fields.len() && converted_field(#[trigger] s.fields[n]) is Err && (forall|
            i: int,
        |
            0 <= i < n ==> converted_field(#[trigger] s.fields[i]) is Ok) implies r is Err
        && r->Err_0.message@ == converted_field(s.fields[n])->Err_0 by {
        law_first_failing_field_decides(s.fields, n);
    }
}

/// A text that does not parse and a schema that does not convert are reported as schemas that could
/// not be exported, with the whole of what is wrong with them.
pub proof fn law_export_failures_say_why(f: Failure, message: Seq<char>)
    ensures
        parse_failure(message).code == ErrorCode::SchemaExport,
        parse_failure(message).message == "failed to parse JSON arrow schema: "@ + message,
        is_conversion_failure(f, message) ==> f.code == ErrorCode::SchemaExport && (
        "failed to convert JSON arrow schema: "@ + "Namespace error: "@ + message
            + ", "@).is_prefix_of(f.message),
{
    assert("failed to convert JSON arrow schema: "@ + ("Namespace error: "@ + message + ", "@)
        =~= "failed to convert JSON arrow schema: "@ + "Namespace error: "@ + message + ", "@);
}

} // verus!
