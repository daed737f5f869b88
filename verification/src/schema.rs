//! Output schemas: the fixed ordered list of (column name, type, nullability)
//! each batch must conform to.
//!
//! One hardcoded schema per source format, constructed once as an explicit
//! schema-description value rather than inferred at runtime.

use vstd::prelude::*;

verus! {

/// The type of one output column.
#[derive(Clone, Copy, PartialEq, Eq, Structural)]
pub enum ColumnType {
    /// A string column.
    Utf8,
    /// A 64-bit signed integer column.
    Int64,
    /// A nested column of per-row key/value entries with string keys and
    /// optional string values.
    MapUtf8,
}

/// One declared output column.
pub struct Field {
    pub name: &'static str,
    pub dtype: ColumnType,
    pub nullable: bool,
}

/// The fixed ordered list of declared columns.
pub struct Schema {
    pub fields: Vec<Field>,
}

/// Whether a field carries the given declaration.
pub open spec fn field_is(f: Field, name: Seq<char>, dtype: ColumnType, nullable: bool) -> bool {
    &&& f.name@ == name
    &&& f.dtype == dtype
    &&& f.nullable == nullable
}

/// The FASTA output schema.
pub open spec fn is_fasta_schema(s: Schema) -> bool {
    &&& s.fields@.len() == 3
    &&& field_is(s.fields@[0], "id"@, ColumnType::Utf8, false)
    &&& field_is(s.fields@[1], "description"@, ColumnType::Utf8, true)
    &&& field_is(s.fields@[2], "sequence"@, ColumnType::Utf8, false)
}

/// The FASTQ output schema.
pub open spec fn is_fastq_schema(s: Schema) -> bool {
    &&& s.fields@.len() == 5
    &&& field_is(s.fields@[0], "id"@, ColumnType::Utf8, false)
    &&& field_is(s.fields@[1], "sequence"@, ColumnType::Utf8, false)
    &&& field_is(s.fields@[2], "description"@, ColumnType::Utf8, true)
    &&& field_is(s.fields@[3], "quality"@, ColumnType::Utf8, false)
    &&& field_is(s.fields@[4], "number"@, ColumnType::Int64, true)
}

/// The GFF output schema.
pub open spec fn is_gff_schema(s: Schema) -> bool {
    &&& s.fields@.len() == 9
    &&& field_is(s.fields@[0], "seqname"@, ColumnType::Utf8, false)
    &&& field_is(s.fields@[1], "source"@, ColumnType::Utf8, true)
    &&& field_is(s.fields@[2], "feature"@, ColumnType::Utf8, false)
    &&& field_is(s.fields@[3], "start"@, ColumnType::Int64, false)
    &&& field_is(s.fields@[4], "end"@, ColumnType::Int64, false)
    &&& field_is(s.fields@[5], "score"@, ColumnType::Int64, true)
    &&& field_is(s.fields@[6], "strand"@, ColumnType::Utf8, false)
    &&& field_is(s.fields@[7], "frame"@, ColumnType::Utf8, true)
    &&& field_is(s.fields@[8], "attribute"@, ColumnType::MapUtf8, false)
}

/// Builds the FASTA output schema.
pub fn fasta_schema() -> (s: Schema)
    ensures
        is_fasta_schema(s),
{
    let mut fields: Vec<Field> = Vec::new();
    fields.push(Field { name: "id", dtype: ColumnType::Utf8, nullable: false });
    fields.push(Field { name: "description", dtype: ColumnType::Utf8, nullable: true });
    fields.push(Field { name: "sequence", dtype: ColumnType::Utf8, nullable: false });
    Schema { fields }
}

/// Builds the FASTQ output schema.
pub fn fastq_schema() -> (s: Schema)
    ensures
        is_fastq_schema(s),
{
    let mut fields: Vec<Field> = Vec::new();
    fields.push(Field { name: "id", dtype: ColumnType::Utf8, nullable: false });
    fields.push(Field { name: "sequence", dtype: ColumnType::Utf8, nullable: false });
    fields.push(Field { name: "description", dtype: ColumnType::Utf8, nullable: true });
    fields.push(Field { name: "quality", dtype: ColumnType::Utf8, nullable: false });
    fields.push(Field { name: "number", dtype: ColumnType::Int64, nullable: true });
    Schema { fields }
}

/// Builds the GFF output schema.
pub fn gff_schema() -> (s: Schema)
    ensures
        is_gff_schema(s),
{
    let mut fields: Vec<Field> = Vec::new();
    fields.push(Field { name: "seqname", dtype: ColumnType::Utf8, nullable: false });
    fields.push(Field { name: "source", dtype: ColumnType::Utf8, nullable: true });
    fields.push(Field { name: "feature", dtype: ColumnType::Utf8, nullable: false });
    fields.push(Field { name: "start", dtype: ColumnType::Int64, nullable: false });
    fields.push(Field { name: "end", dtype: ColumnType::Int64, nullable: false });
    fields.push(Field { name: "score", dtype: ColumnType::Int64, nullable: true });
    fields.push(Field { name: "strand", dtype: ColumnType::Utf8, nullable: false });
    fields.push(Field { name: "frame", dtype: ColumnType::Utf8, nullable: true });
    fields.push(Field { name: "attribute", dtype: ColumnType::MapUtf8, nullable: false });
    Schema { fields }
}

} // verus!
