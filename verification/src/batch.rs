//! Batch assembly: binding finished column arrays to a declared schema.
//!
//! Assembly validates that every declared column has an array, that all
//! arrays have identical length, that each array's type matches its declared
//! column type, and that a non-nullable column holds no null.  A failed check
//! is a programming-level invariant violation and is fatal.

use vstd::prelude::*;

use crate::column::{
    seq_has_none, AttrMapArray, Int64Array, Utf8Array,
};
use crate::error::ConversionError;
use crate::schema::{ColumnType, Field, Schema};

verus! {

/// One finished, immutable column array of any supported type.
pub enum ColumnData {
    Utf8(Utf8Array),
    Int64(Int64Array),
    AttrMap(AttrMapArray),
}

impl ColumnData {
    /// Number of rows.
    pub open spec fn spec_len(&self) -> int {
        match self {
            ColumnData::Utf8(a) => a.data@.len() as int,
            ColumnData::Int64(a) => a.data@.len() as int,
            ColumnData::AttrMap(a) => a.spec_len(),
        }
    }

    /// Number of rows.
    pub fn len(&self) -> (r: usize)
        ensures
            r == self.spec_len(),
    {
        match self {
            ColumnData::Utf8(a) => a.len(),
            ColumnData::Int64(a) => a.len(),
            ColumnData::AttrMap(a) => a.len(),
        }
    }
}

/// Whether one array fits one declared column: the types match, the array is
/// well shaped, and a non-nullable column holds no null.
pub open spec fn column_conforms(c: ColumnData, f: Field) -> bool {
    match c {
        ColumnData::Utf8(a) => f.dtype == ColumnType::Utf8 && (f.nullable || !seq_has_none(
            a.data@,
        )),
        ColumnData::Int64(a) => f.dtype == ColumnType::Int64 && (f.nullable || !seq_has_none(
            a.data@,
        )),
        ColumnData::AttrMap(a) => f.dtype == ColumnType::MapUtf8 && a.wf(),
    }
}

/// Whether the arrays conform to the schema: one array per declared column,
/// each conforming, all of one common length.
pub open spec fn columns_conform(schema: Schema, columns: Seq<ColumnData>, nrows: int) -> bool {
    &&& columns.len() == schema.fields@.len()
    &&& forall|i: int| 0 <= i < columns.len() ==> column_conforms(columns[i], schema.fields@[i])
    &&& forall|i: int| 0 <= i < columns.len() ==> columns[i].spec_len() == nrows
}

/// One immutable columnar batch, bound to its schema.
pub struct RecordBatch {
    pub schema: Schema,
    pub columns: Vec<ColumnData>,
    pub nrows: usize,
}

impl RecordBatch {
    /// Whether the batch is schema-conformant.
    pub open spec fn wf(&self) -> bool {
        columns_conform(self.schema, self.columns@, self.nrows as int)
    }

    /// Number of rows.
    pub fn num_rows(&self) -> (r: usize)
        ensures
            r == self.nrows,
    {
        self.nrows
    }

    /// Binds finished arrays to the declared schema, validating that every
    /// declared column has a conforming array and that all arrays have one
    /// common length.  Returns `SchemaMismatch` if and only if a check
    /// fails; such a failure is fatal, never retried.
    pub fn try_new(schema: Schema, columns: Vec<ColumnData>) -> (r: Result<
        RecordBatch,
        ConversionError,
    >)
        ensures
            match r {
                Ok(b) => {
                    &&& b.schema == schema
                    &&& b.columns == columns
                    &&& b.wf()
                },
                Err(e) => {
                    &&& e is SchemaMismatch
                    &&& forall|n: int| !columns_conform(schema, columns@, n)
                },
            },
    {
        if columns.len() != schema.fields.len() {
            return Err(ConversionError::SchemaMismatch);
        }
        let nrows: usize = if columns.len() == 0 {
            0
        } else {
            columns[0].len()
        };
        let ghost n = nrows as int;
        let mut i: usize = 0;
        while i < columns.len()
            invariant
                0 <= i <= columns@.len(),
                columns@.len() == schema.fields@.len(),
                n == nrows as int,
                columns@.len() > 0 ==> columns@[0].spec_len() == n,
                forall|k: int|
                    0 <= k < i ==> column_conforms(columns@[k], schema.fields@[k])
                        && columns@[k].spec_len() == n,
            decreases columns@.len() - i,
        {
            if columns[i].len() != nrows {
                proof {
                    assert forall|m: int| !columns_conform(schema, columns@, m) by {
                        if columns_conform(schema, columns@, m) {
                            assert(columns@[0].spec_len() == m);
                            assert(columns@[i as int].spec_len() == m);
                        }
                    }
                }
                return Err(ConversionError::SchemaMismatch);
            }
            let field_ok: bool = match (&columns[i], schema.fields[i].dtype) {
                (ColumnData::Utf8(a), ColumnType::Utf8) => schema.fields[i].nullable
                    || !a.has_null(),
                (ColumnData::Int64(a), ColumnType::Int64) => schema.fields[i].nullable
                    || !a.has_null(),
                (ColumnData::AttrMap(a), ColumnType::MapUtf8) => a.check_wf(),
                _ => false,
            };
            if !field_ok {
                proof {
                    assert(!column_conforms(columns@[i as int], schema.fields@[i as int]));
                    assert forall|m: int| !columns_conform(schema, columns@, m) by {
                        if columns_conform(schema, columns@, m) {
                            assert(column_conforms(columns@[i as int], schema.fields@[i as int]));
                        }
                    }
                }
                return Err(ConversionError::SchemaMismatch);
            }
            i = i + 1;
        }
        Ok(RecordBatch { schema, columns, nrows })
    }
}

} // verus!
