//! Normalized record shapes, one per source format.
//!
//! A record is constructed from one source-native record, consumed by the
//! column builders of the current chunk, and never retained past that chunk.
//! Optional fields are explicit: an absent value is `None`, never an empty
//! placeholder.

use vstd::prelude::*;

verus! {

/// One FASTA record.
pub struct FastaRecord {
    pub id: String,
    pub description: Option<String>,
    pub sequence: String,
}

/// One FASTQ record.  `read_number` is assigned by the pipeline as a
/// conversion-local monotonic counter starting at 0, independent of any
/// ordinal present in the source.
pub struct FastqRecord {
    pub id: String,
    pub sequence: String,
    pub description: Option<String>,
    pub quality: String,
    pub read_number: Option<i64>,
}

/// One GFF record.  `attribute` is an ordered mapping: keys are unique
/// within a record and their insertion order is preserved, so it is kept as
/// a sequence of key/value entries rather than an associative container.
pub struct GffRecord {
    pub seqname: String,
    pub source: Option<String>,
    pub feature: String,
    pub start: i64,
    pub end: i64,
    pub score: Option<i64>,
    pub strand: String,
    pub frame: Option<String>,
    pub attribute: Vec<(String, Option<String>)>,
}

/// The given FASTQ record with its pipeline-assigned read number.
pub open spec fn with_read_number(r: FastqRecord, n: i64) -> FastqRecord {
    FastqRecord { read_number: Some(n), ..r }
}

} // verus!
