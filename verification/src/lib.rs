//! Conversion of sequential biological records (FASTA, FASTQ, GFF) into
//! schema-conformant columnar batches.
//!
//! Records stream in, are normalized into fixed typed shapes, grouped into
//! bounded chunks, turned into typed column arrays (including a nested
//! key/value map column for GFF attributes), assembled into immutable
//! batches, and handed in order to a sink that must be finalized exactly
//! once.  The record parsers and the on-disk columnar encoder are external
//! collaborators; the conversion logic here is verified.

pub mod batch;
pub mod builders;
pub mod chunker;
pub mod column;
pub mod error;
pub mod laws;
pub mod pipeline;
pub mod record;
pub mod schema;
pub mod sink;
