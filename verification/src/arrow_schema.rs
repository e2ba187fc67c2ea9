//! Arrow schemas: what they hold, and the constructors that build them.

use crate::json::pairs_map;
use crate::text::optional_text;
use arrow::datatypes::{DataType, Field, Schema, TimeUnit};
use std::sync::Arc;
use vstd::prelude::*;

verus! {

/// The Arrow number types.
#[derive(Clone, Copy, Debug, PartialEq, Eq, Structural)]
pub enum NumberType {
    Int8,
    UInt8,
    Int16,
    UInt16,
    Int32,
    UInt32,
    Int64,
    UInt64,
    Float16,
    Float32,
    Float64,
}

/// The other Arrow types without parameters.
#[derive(Clone, Copy, Debug, PartialEq, Eq, Structural)]
pub enum PlainType {
    Null,
    Boolean,
    Date32,
    Date64,
    Utf8,
    LargeUtf8,
    Binary,
    LargeBinary,
}

/// What timestamps and durations count.
#[derive(Clone, Copy, Debug, PartialEq, Eq, Structural)]
pub enum Unit {
    Second,
    Millisecond,
    Microsecond,
    Nanosecond,
}

/// What an Arrow data type holds. A timestamp has a unit and, if it has one, a time zone.
pub enum ArrowType {
    Number(NumberType),
    Plain(PlainType),
    Timestamp(Unit, Option<Seq<char>>),
    Duration(Unit),
    Decimal128(u8, i8),
    FixedSizeBinary(i32),
    List(Box<ArrowField>),
    LargeList(Box<ArrowField>),
    FixedSizeList(Box<ArrowField>, i32),
    Struct(Seq<ArrowField>),
    MapOf(Box<ArrowField>, bool),
}

/// What an Arrow field holds.
pub struct ArrowField {
    pub name: Seq<char>,
    pub data_type: ArrowType,
    pub nullable: bool,
    pub metadata: Map<Seq<char>, Seq<char>>,
}

/// What an Arrow schema holds.
pub struct ArrowSchema {
    pub fields: Seq<ArrowField>,
    pub metadata: Map<Seq<char>, Seq<char>>,
}

/// `DataType`: an Arrow data type.
#[verifier::external_type_specification]
#[verifier::external_body]
pub struct ExDataType(DataType);

/// `Field`: an Arrow field.
#[verifier::external_type_specification]
#[verifier::external_body]
pub struct ExField(Field);

/// `Schema`: an Arrow schema.
#[verifier::external_type_specification]
#[verifier::external_body]
pub struct ExSchema(Schema);

/// The contents of an Arrow data type.
pub uninterp spec fn arrow_type(t: DataType) -> ArrowType;

/// The contents of an Arrow field.
pub uninterp spec fn arrow_field(f: Field) -> ArrowField;

/// The contents of an Arrow schema.
pub uninterp spec fn arrow_schema(s: Schema) -> ArrowSchema;

/// The contents of a sequence of Arrow fields.
pub open spec fn arrow_fields(s: Seq<Field>) -> Seq<ArrowField> {
    s.map_values(|f: Field| arrow_field(f))
}

/// The number variants of `DataType`, one for one.
#[verifier::external_body]
pub(crate) fn number_type(kind: NumberType) -> (r: DataType)
    ensures
        arrow_type(r) == ArrowType::Number(kind),
{
    match kind {
        NumberType::Int8 => DataType::Int8,
        NumberType::UInt8 => DataType::UInt8,
        NumberType::Int16 => DataType::Int16,
        NumberType::UInt16 => DataType::UInt16,
        NumberType::Int32 => DataType::Int32,
        NumberType::UInt32 => DataType::UInt32,
        NumberType::Int64 => DataType::Int64,
        NumberType::UInt64 => DataType::UInt64,
        NumberType::Float16 => DataType::Float16,
        NumberType::Float32 => DataType::Float32,
        NumberType::Float64 => DataType::Float64,
    }
}

/// The variants of `DataType` that stand for the plain types, one for one.
#[verifier::external_body]
pub(crate) fn plain_type(kind: PlainType) -> (r: DataType)
    ensures
        arrow_type(r) == ArrowType::Plain(kind),
{
    match kind {
        PlainType::Null => DataType::Null,
        PlainType::Boolean => DataType::Boolean,
        PlainType::Date32 => DataType::Date32,
        PlainType::Date64 => DataType::Date64,
        PlainType::Utf8 => DataType::Utf8,
        PlainType::LargeUtf8 => DataType::LargeUtf8,
        PlainType::Binary => DataType::Binary,
        PlainType::LargeBinary => DataType::LargeBinary,
    }
}

/// The variant `DataType::Timestamp`, with its unit, one for one, and its time zone.
#[verifier::external_body]
pub(crate) fn timestamp_type(unit: Unit, zone: Option<String>) -> (r: DataType)
    ensures
        arrow_type(r) == ArrowType::Timestamp(unit, optional_text(zone)),
{
    let zone = zone.map(|z| z.into());
    match unit {
        Unit::Second => DataType::Timestamp(TimeUnit::Second, zone),
        Unit::Millisecond => DataType::Timestamp(TimeUnit::Millisecond, zone),
        Unit::Microsecond => DataType::Timestamp(TimeUnit::Microsecond, zone),
        Unit::Nanosecond => DataType::Timestamp(TimeUnit::Nanosecond, zone),
    }
}

/// The variant `DataType::Duration`, with its unit, one for one.
#[verifier::external_body]
pub(crate) fn duration_type(unit: Unit) -> (r: DataType)
    ensures
        arrow_type(r) == ArrowType::Duration(unit),
{
    match unit {
        Unit::Second => DataType::Duration(TimeUnit::Second),
        Unit::Millisecond => DataType::Duration(TimeUnit::Millisecond),
        Unit::Microsecond => DataType::Duration(TimeUnit::Microsecond),
        Unit::Nanosecond => DataType::Duration(TimeUnit::Nanosecond),
    }
}

/// The variant `DataType::Decimal128`, with its precision and its scale.
#[verifier::external_body]
pub(crate) fn decimal_type(precision: u8, scale: i8) -> (r: DataType)
    ensures
        arrow_type(r) == ArrowType::Decimal128(precision, scale),
{
    DataType::Decimal128(precision, scale)
}

/// The variant `DataType::FixedSizeBinary`, with its width.
#[verifier::external_body]
pub(crate) fn fixed_size_binary_type(width: i32) -> (r: DataType)
    ensures
        arrow_type(r) == ArrowType::FixedSizeBinary(width),
{
    DataType::FixedSizeBinary(width)
}

/// The variant `DataType::List`, with the field of its items.
#[verifier::external_body]
pub(crate) fn list_type(item: Field) -> (r: DataType)
    ensures
        arrow_type(r) == ArrowType::List(Box::new(arrow_field(item))),
{
    DataType::List(Arc::new(item))
}

/// The variant `DataType::LargeList`, with the field of its items.
#[verifier::external_body]
pub(crate) fn large_list_type(item: Field) -> (r: DataType)
    ensures
        arrow_type(r) == ArrowType::LargeList(Box::new(arrow_field(item))),
{
    DataType::LargeList(Arc::new(item))
}

/// The variant `DataType::FixedSizeList`, with the field of its items and its length.
#[verifier::external_body]
pub(crate) fn fixed_size_list_type(item: Field, length: i32) -> (r: DataType)
    ensures
        arrow_type(r) == ArrowType::FixedSizeList(Box::new(arrow_field(item)), length),
{
    DataType::FixedSizeList(Arc::new(item), length)
}

/// The variant `DataType::Struct`, with its fields in order.
#[verifier::external_body]
pub(crate) fn struct_type(fields: Vec<Field>) -> (r: DataType)
    ensures
        arrow_type(r) == ArrowType::Struct(arrow_fields(fields@)),
{
    DataType::Struct(fields.into())
}

/// The variant `DataType::Map`, with the field of its entries and whether its keys are sorted.
#[verifier::external_body]
pub(crate) fn map_type(entries: Field, sorted: bool) -> (r: DataType)
    ensures
        arrow_type(r) == ArrowType::MapOf(Box::new(arrow_field(entries)), sorted),
{
    DataType::Map(Arc::new(entries), sorted)
}

/// `Field::new`: a field with the given name, type and nullability, and no metadata.
#[verifier::external_body]
pub(crate) fn new_field(name: &str, data_type: DataType, nullable: bool) -> (r: Field)
    ensures
        arrow_field(r) == (ArrowField {
            name: name@,
            data_type: arrow_type(data_type),
            nullable,
            metadata: Map::empty(),
        }),
{
    Field::new(name, data_type, nullable)
}

/// `Field::with_metadata`: the field with its metadata replaced.
#[verifier::external_body]
pub(crate) fn field_with_metadata(field: Field, metadata: &Vec<(String, String)>) -> (r: Field)
    ensures
        arrow_field(r) == (ArrowField { metadata: pairs_map(metadata@), ..arrow_field(field) }),
{
    field.with_metadata(metadata.iter().cloned().collect())
}

/// `Schema::new_with_metadata`: a schema with the given fields, in order, and metadata.
#[verifier::external_body]
pub(crate) fn new_schema(fields: Vec<Field>, metadata: &Vec<(String, String)>) -> (r: Schema)
    ensures
        arrow_schema(r) == (ArrowSchema {
            fields: arrow_fields(fields@),
            metadata: pairs_map(metadata@),
        }),
{
    Schema::new_with_metadata(fields, metadata.iter().cloned().collect())
}

} // verus!
