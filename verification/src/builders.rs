//! Per-format builder sets: one typed append-only builder per output column.
//!
//! A builder set receives exactly one append (value or explicit null) per
//! column per record, so row-count parity across the columns of a batch holds
//! by construction.  Sealing a set finishes every builder and binds the
//! arrays to the format's schema; the assembler's checks are proved to
//! succeed, so a `SchemaMismatch` is unreachable from here.

use vstd::prelude::*;
use vstd::pervasive::unreached;

use crate::batch::{columns_conform, ColumnData, RecordBatch};
use crate::column::{
    map_row_matches, AttrMapBuilder, Int64Builder, Utf8Builder,
};
use crate::record::{FastaRecord, FastqRecord, GffRecord};
use crate::schema::{fasta_schema, fastq_schema, gff_schema, is_fasta_schema, is_fastq_schema, is_gff_schema};

verus! {

/// Whether a string column holds exactly the given optional values.
pub open spec fn utf8_col_matches(c: ColumnData, vals: Seq<Option<String>>) -> bool {
    match c {
        ColumnData::Utf8(a) => a.data@.len() == vals.len() && (forall|i: int|
            0 <= i < vals.len() ==> a.data@[i] == vals[i]),
        _ => false,
    }
}

/// Whether an integer column holds exactly the given optional values.
pub open spec fn int64_col_matches(c: ColumnData, vals: Seq<Option<i64>>) -> bool {
    match c {
        ColumnData::Int64(a) => a.data@.len() == vals.len() && (forall|i: int|
            0 <= i < vals.len() ==> a.data@[i] == vals[i]),
        _ => false,
    }
}

/// Whether the nested map column holds, row by row, exactly the given ordered
/// key/value entries.
pub open spec fn map_col_matches(c: ColumnData, rows: Seq<Seq<(String, Option<String>)>>) -> bool {
    match c {
        ColumnData::AttrMap(a) => a.wf() && a.spec_len() == rows.len() && (forall|i: int|
            0 <= i < rows.len() ==> map_row_matches(a.offsets@, a.keys@, a.values@, i, rows[i])),
        _ => false,
    }
}

/// Whether `b` is the FASTA batch of exactly the given records, in order.
pub open spec fn is_fasta_batch(b: RecordBatch, rows: Seq<FastaRecord>) -> bool {
    &&& b.wf()
    &&& is_fasta_schema(b.schema)
    &&& b.nrows == rows.len()
    &&& b.columns@.len() == 3
    &&& utf8_col_matches(b.columns@[0], Seq::new(rows.len(), |i: int| Some(rows[i].id)))
    &&& utf8_col_matches(b.columns@[1], Seq::new(rows.len(), |i: int| rows[i].description))
    &&& utf8_col_matches(b.columns@[2], Seq::new(rows.len(), |i: int| Some(rows[i].sequence)))
}

/// Whether `b` is the FASTQ batch of exactly the given records, in order.
pub open spec fn is_fastq_batch(b: RecordBatch, rows: Seq<FastqRecord>) -> bool {
    &&& b.wf()
    &&& is_fastq_schema(b.schema)
    &&& b.nrows == rows.len()
    &&& b.columns@.len() == 5
    &&& utf8_col_matches(b.columns@[0], Seq::new(rows.len(), |i: int| Some(rows[i].id)))
    &&& utf8_col_matches(b.columns@[1], Seq::new(rows.len(), |i: int| Some(rows[i].sequence)))
    &&& utf8_col_matches(b.columns@[2], Seq::new(rows.len(), |i: int| rows[i].description))
    &&& utf8_col_matches(b.columns@[3], Seq::new(rows.len(), |i: int| Some(rows[i].quality)))
    &&& int64_col_matches(b.columns@[4], Seq::new(rows.len(), |i: int| rows[i].read_number))
}

/// Whether `b` is the GFF batch of exactly the given records, in order.
pub open spec fn is_gff_batch(b: RecordBatch, rows: Seq<GffRecord>) -> bool {
    &&& b.wf()
    &&& is_gff_schema(b.schema)
    &&& b.nrows == rows.len()
    &&& b.columns@.len() == 9
    &&& utf8_col_matches(b.columns@[0], Seq::new(rows.len(), |i: int| Some(rows[i].seqname)))
    &&& utf8_col_matches(b.columns@[1], Seq::new(rows.len(), |i: int| rows[i].source))
    &&& utf8_col_matches(b.columns@[2], Seq::new(rows.len(), |i: int| Some(rows[i].feature)))
    &&& int64_col_matches(b.columns@[3], Seq::new(rows.len(), |i: int| Some(rows[i].start)))
    &&& int64_col_matches(b.columns@[4], Seq::new(rows.len(), |i: int| Some(rows[i].end)))
    &&& int64_col_matches(b.columns@[5], Seq::new(rows.len(), |i: int| rows[i].score))
    &&& utf8_col_matches(b.columns@[6], Seq::new(rows.len(), |i: int| Some(rows[i].strand)))
    &&& utf8_col_matches(b.columns@[7], Seq::new(rows.len(), |i: int| rows[i].frame))
    &&& map_col_matches(b.columns@[8], Seq::new(rows.len(), |i: int| rows[i].attribute@))
}

/// The builder set of the FASTA schema.
pub struct FastaBuilderSet {
    pub ids: Utf8Builder,
    pub descriptions: Utf8Builder,
    pub sequences: Utf8Builder,
    /// The records appended so far, in order.
    pub records: Ghost<Seq<FastaRecord>>,
}

impl FastaBuilderSet {
    /// Every column holds exactly one entry per appended record.
    pub open spec fn wf(&self) -> bool {
        &&& self.ids.data@.len() == self.records@.len()
        &&& self.descriptions.data@.len() == self.records@.len()
        &&& self.sequences.data@.len() == self.records@.len()
        &&& forall|i: int|
            0 <= i < self.records@.len() ==> self.ids.data@[i] == Some(self.records@[i].id)
        &&& forall|i: int|
            0 <= i < self.records@.len() ==> self.descriptions.data@[i]
                == self.records@[i].description
        &&& forall|i: int|
            0 <= i < self.records@.len() ==> self.sequences.data@[i] == Some(
                self.records@[i].sequence,
            )
    }

    /// A fresh, empty builder set.  `capacity_hint` is purely a performance
    /// hint.
    pub fn new(capacity_hint: usize) -> (r: FastaBuilderSet)
        ensures
            r.wf(),
            r.records@.len() == 0,
    {
        FastaBuilderSet {
            ids: Utf8Builder::new(capacity_hint),
            descriptions: Utf8Builder::new(capacity_hint),
            sequences: Utf8Builder::new(capacity_hint),
            records: Ghost(Seq::empty()),
        }
    }

    /// Number of records appended so far.
    pub fn len(&self) -> (r: usize)
        requires
            self.wf(),
        ensures
            r == self.records@.len(),
    {
        self.ids.len()
    }

    /// Appends one record: one value or explicit null to every column.
    pub fn append(&mut self, rec: FastaRecord)
        requires
            old(self).wf(),
        ensures
            final(self).wf(),
            final(self).records@ == old(self).records@.push(rec),
    {
        self.records = Ghost(self.records@.push(rec));
        self.ids.append_value(rec.id);
        self.descriptions.append_option(rec.description);
        self.sequences.append_value(rec.sequence);
    }

    /// Finishes every builder and binds the arrays to the FASTA schema.  The
    /// assembler's checks are proved to pass.
    pub fn seal(self) -> (b: RecordBatch)
        requires
            self.wf(),
        ensures
            is_fasta_batch(b, self.records@),
    {
        let ghost rows = self.records@;
        let schema = fasta_schema();
        let mut columns: Vec<ColumnData> = Vec::new();
        columns.push(ColumnData::Utf8(self.ids.finish()));
        columns.push(ColumnData::Utf8(self.descriptions.finish()));
        columns.push(ColumnData::Utf8(self.sequences.finish()));
        proof {
            assert(columns_conform(schema, columns@, rows.len() as int));
        }
        let b = match RecordBatch::try_new(schema, columns) {
            Ok(b) => b,
            Err(_) => unreached(),
        };
        proof {
            assert(b.columns@[0].spec_len() == b.nrows as int);
            assert(b.nrows == rows.len());
            assert(utf8_col_matches(b.columns@[0], Seq::new(rows.len(), |i: int| Some(rows[i].id))));
            assert(utf8_col_matches(b.columns@[1], Seq::new(rows.len(), |i: int| rows[i].description)));
            assert(utf8_col_matches(
                b.columns@[2],
                Seq::new(rows.len(), |i: int| Some(rows[i].sequence)),
            ));
        }
        b
    }
}

/// The builder set of the FASTQ schema.
pub struct FastqBuilderSet {
    pub ids: Utf8Builder,
    pub sequences: Utf8Builder,
    pub descriptions: Utf8Builder,
    pub qualities: Utf8Builder,
    pub numbers: Int64Builder,
    /// The records appended so far, in order.
    pub records: Ghost<Seq<FastqRecord>>,
}

impl FastqBuilderSet {
    /// Every column holds exactly one entry per appended record.
    pub open spec fn wf(&self) -> bool {
        &&& self.ids.data@.len() == self.records@.len()
        &&& self.sequences.data@.len() == self.records@.len()
        &&& self.descriptions.data@.len() == self.records@.len()
        &&& self.qualities.data@.len() == self.records@.len()
        &&& self.numbers.data@.len() == self.records@.len()
        &&& forall|i: int|
            0 <= i < self.records@.len() ==> self.ids.data@[i] == Some(self.records@[i].id)
        &&& forall|i: int|
            0 <= i < self.records@.len() ==> self.sequences.data@[i] == Some(
                self.records@[i].sequence,
            )
        &&& forall|i: int|
            0 <= i < self.records@.len() ==> self.descriptions.data@[i]
                == self.records@[i].description
        &&& forall|i: int|
            0 <= i < self.records@.len() ==> self.qualities.data@[i] == Some(
                self.records@[i].quality,
            )
        &&& forall|i: int|
            0 <= i < self.records@.len() ==> self.numbers.data@[i] == self.records@[i].read_number
    }

    /// A fresh, empty builder set.  `capacity_hint` is purely a performance
    /// hint.
    pub fn new(capacity_hint: usize) -> (r: FastqBuilderSet)
        ensures
            r.wf(),
            r.records@.len() == 0,
    {
        FastqBuilderSet {
            ids: Utf8Builder::new(capacity_hint),
            sequences: Utf8Builder::new(capacity_hint),
            descriptions: Utf8Builder::new(capacity_hint),
            qualities: Utf8Builder::new(capacity_hint),
            numbers: Int64Builder::new(capacity_hint),
            records: Ghost(Seq::empty()),
        }
    }

    /// Number of records appended so far.
    pub fn len(&self) -> (r: usize)
        requires
            self.wf(),
        ensures
            r == self.records@.len(),
    {
        self.ids.len()
    }

    /// Appends one record: one value or explicit null to every column.
    pub fn append(&mut self, rec: FastqRecord)
        requires
            old(self).wf(),
        ensures
            final(self).wf(),
            final(self).records@ == old(self).records@.push(rec),
    {
        self.records = Ghost(self.records@.push(rec));
        self.ids.append_value(rec.id);
        self.sequences.append_value(rec.sequence);
        self.descriptions.append_option(rec.description);
        self.qualities.append_value(rec.quality);
        self.numbers.append_option(rec.read_number);
    }

    /// Finishes every builder and binds the arrays to the FASTQ schema.  The
    /// assembler's checks are proved to pass.
    pub fn seal(self) -> (b: RecordBatch)
        requires
            self.wf(),
        ensures
            is_fastq_batch(b, self.records@),
    {
        let ghost rows = self.records@;
        let schema = fastq_schema();
        let mut columns: Vec<ColumnData> = Vec::new();
        columns.push(ColumnData::Utf8(self.ids.finish()));
        columns.push(ColumnData::Utf8(self.sequences.finish()));
        columns.push(ColumnData::Utf8(self.descriptions.finish()));
        columns.push(ColumnData::Utf8(self.qualities.finish()));
        columns.push(ColumnData::Int64(self.numbers.finish()));
        proof {
            assert(columns_conform(schema, columns@, rows.len() as int));
        }
        let b = match RecordBatch::try_new(schema, columns) {
            Ok(b) => b,
            Err(_) => unreached(),
        };
        proof {
            assert(b.columns@[0].spec_len() == b.nrows as int);
            assert(b.nrows == rows.len());
            assert(utf8_col_matches(b.columns@[0], Seq::new(rows.len(), |i: int| Some(rows[i].id))));
            assert(utf8_col_matches(
                b.columns@[1],
                Seq::new(rows.len(), |i: int| Some(rows[i].sequence)),
            ));
            assert(utf8_col_matches(b.columns@[2], Seq::new(rows.len(), |i: int| rows[i].description)));
            assert(utf8_col_matches(
                b.columns@[3],
                Seq::new(rows.len(), |i: int| Some(rows[i].quality)),
            ));
            assert(int64_col_matches(b.columns@[4], Seq::new(rows.len(), |i: int| rows[i].read_number)));
        }
        b
    }
}

/// The builder set of the GFF schema, including the nested attribute map
/// column.
pub struct GffBuilderSet {
    pub seqnames: Utf8Builder,
    pub sources: Utf8Builder,
    pub features: Utf8Builder,
    pub starts: Int64Builder,
    pub ends: Int64Builder,
    pub scores: Int64Builder,
    pub strands: Utf8Builder,
    pub frames: Utf8Builder,
    pub attributes: AttrMapBuilder,
    /// The records appended so far, in order.
    pub records: Ghost<Seq<GffRecord>>,
}

impl GffBuilderSet {
    /// Every column holds exactly one entry per appended record, and the
    /// attribute map rows reproduce each record's entries in record order.
    pub open spec fn wf(&self) -> bool {
        &&& self.seqnames.data@.len() == self.records@.len()
        &&& self.sources.data@.len() == self.records@.len()
        &&& self.features.data@.len() == self.records@.len()
        &&& self.starts.data@.len() == self.records@.len()
        &&& self.ends.data@.len() == self.records@.len()
        &&& self.scores.data@.len() == self.records@.len()
        &&& self.strands.data@.len() == self.records@.len()
        &&& self.frames.data@.len() == self.records@.len()
        &&& self.attributes.wf()
        &&& self.attributes.spec_len() == self.records@.len()
        &&& forall|i: int|
            0 <= i < self.records@.len() ==> self.seqnames.data@[i] == Some(
                self.records@[i].seqname,
            )
        &&& forall|i: int|
            0 <= i < self.records@.len() ==> self.sources.data@[i] == self.records@[i].source
        &&& forall|i: int|
            0 <= i < self.records@.len() ==> self.features.data@[i] == Some(
                self.records@[i].feature,
            )
        &&& forall|i: int|
            0 <= i < self.records@.len() ==> self.starts.data@[i] == Some(self.records@[i].start)
        &&& forall|i: int|
            0 <= i < self.records@.len() ==> self.ends.data@[i] == Some(self.records@[i].end)
        &&& forall|i: int|
            0 <= i < self.records@.len() ==> self.scores.data@[i] == self.records@[i].score
        &&& forall|i: int|
            0 <= i < self.records@.len() ==> self.strands.data@[i] == Some(self.records@[i].strand)
        &&& forall|i: int|
            0 <= i < self.records@.len() ==> self.frames.data@[i] == self.records@[i].frame
        &&& forall|i: int|
            0 <= i < self.records@.len() ==> map_row_matches(
                self.attributes.offsets@,
                self.attributes.keys@,
                self.attributes.values@,
                i,
                self.records@[i].attribute@,
            )
    }

    /// A fresh, empty builder set.  `capacity_hint` is purely a performance
    /// hint.
    pub fn new(capacity_hint: usize) -> (r: GffBuilderSet)
        ensures
            r.wf(),
            r.records@.len() == 0,
    {
        GffBuilderSet {
            seqnames: Utf8Builder::new(capacity_hint),
            sources: Utf8Builder::new(capacity_hint),
            features: Utf8Builder::new(capacity_hint),
            starts: Int64Builder::new(capacity_hint),
            ends: Int64Builder::new(capacity_hint),
            scores: Int64Builder::new(capacity_hint),
            strands: Utf8Builder::new(capacity_hint),
            frames: Utf8Builder::new(capacity_hint),
            attributes: AttrMapBuilder::new(capacity_hint),
            records: Ghost(Seq::empty()),
        }
    }

    /// Number of records appended so far.
    pub fn len(&self) -> (r: usize)
        requires
            self.wf(),
        ensures
            r == self.records@.len(),
    {
        self.seqnames.len()
    }

    /// Appends one record: one value or explicit null to every plain column,
    /// and every attribute key then value, sealed as one map row.
    pub fn append(&mut self, rec: GffRecord)
        requires
            old(self).wf(),
        ensures
            final(self).wf(),
            final(self).records@ == old(self).records@.push(rec),
    {
        self.records = Ghost(self.records@.push(rec));
        self.seqnames.append_value(rec.seqname);
        self.sources.append_option(rec.source);
        self.features.append_value(rec.feature);
        self.starts.append_value(rec.start);
        self.ends.append_value(rec.end);
        self.scores.append_option(rec.score);
        self.strands.append_value(rec.strand);
        self.frames.append_option(rec.frame);
        let ghost pre_attrs = self.attributes;
        self.attributes.append_row(rec.attribute);
        proof {
            let pre = old(self);
            let n = pre.records@.len() as int;
            assert forall|i: int|
                0 <= i < self.records@.len() implies map_row_matches(
                self.attributes.offsets@,
                self.attributes.keys@,
                self.attributes.values@,
                i,
                self.records@[i].attribute@,
            ) by {
                if i < n {
                    assert(map_row_matches(
                        pre_attrs.offsets@,
                        pre_attrs.keys@,
                        pre_attrs.values@,
                        i,
                        pre.records@[i].attribute@,
                    ));
                    assert(pre_attrs.offsets@[i + 1] <= pre_attrs.keys@.len());
                }
            }
        }
    }

    /// Finishes every builder and binds the arrays to the GFF schema.  The
    /// assembler's checks are proved to pass.
    pub fn seal(self) -> (b: RecordBatch)
        requires
            self.wf(),
        ensures
            is_gff_batch(b, self.records@),
    {
        let ghost rows = self.records@;
        let schema = gff_schema();
        let mut columns: Vec<ColumnData> = Vec::new();
        columns.push(ColumnData::Utf8(self.seqnames.finish()));
        columns.push(ColumnData::Utf8(self.sources.finish()));
        columns.push(ColumnData::Utf8(self.features.finish()));
        columns.push(ColumnData::Int64(self.starts.finish()));
        columns.push(ColumnData::Int64(self.ends.finish()));
        columns.push(ColumnData::Int64(self.scores.finish()));
        columns.push(ColumnData::Utf8(self.strands.finish()));
        columns.push(ColumnData::Utf8(self.frames.finish()));
        columns.push(ColumnData::AttrMap(self.attributes.finish()));
        proof {
            assert(columns_conform(schema, columns@, rows.len() as int));
        }
        let b = match RecordBatch::try_new(schema, columns) {
            Ok(b) => b,
            Err(_) => unreached(),
        };
        proof {
            assert(b.columns@[0].spec_len() == b.nrows as int);
            assert(b.nrows == rows.len());
            assert(utf8_col_matches(
                b.columns@[0],
                Seq::new(rows.len(), |i: int| Some(rows[i].seqname)),
            ));
            assert(utf8_col_matches(b.columns@[1], Seq::new(rows.len(), |i: int| rows[i].source)));
            assert(utf8_col_matches(
                b.columns@[2],
                Seq::new(rows.len(), |i: int| Some(rows[i].feature)),
            ));
            assert(int64_col_matches(
                b.columns@[3],
                Seq::new(rows.len(), |i: int| Some(rows[i].start)),
            ));
            assert(int64_col_matches(b.columns@[4], Seq::new(rows.len(), |i: int| Some(rows[i].end))));
            assert(int64_col_matches(b.columns@[5], Seq::new(rows.len(), |i: int| rows[i].score)));
            assert(utf8_col_matches(
                b.columns@[6],
                Seq::new(rows.len(), |i: int| Some(rows[i].strand)),
            ));
            assert(utf8_col_matches(b.columns@[7], Seq::new(rows.len(), |i: int| rows[i].frame)));
            assert(map_col_matches(b.columns@[8], Seq::new(rows.len(), |i: int| rows[i].attribute@)));
        }
        b
    }
}

} // verus!
