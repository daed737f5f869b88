use brrrr::batch::{ColumnData, RecordBatch};
use brrrr::builders::GffBuilderSet;
use brrrr::chunker::FastaChunker;
use brrrr::column::{AttrMapArray, AttrMapBuilder, Int64Builder, Utf8Array, Utf8Builder};
use brrrr::error::{ConversionError, ParseError};
use brrrr::record::{FastaRecord, GffRecord};
use brrrr::schema::{fasta_schema, fastq_schema, gff_schema, ColumnType};
use brrrr::sink::{ConversionConfig, OutputCompression, SinkWriter};

fn small_config() -> ConversionConfig {
    ConversionConfig {
        compression: OutputCompression::NONE,
        statistics_enabled: false,
        chunk_size: 2,
        builder_capacity_hint: 4,
    }
}

#[test]
fn finalize_once_then_rejected() {
    let mut sink = SinkWriter::open(fasta_schema(), small_config());
    assert!(sink.is_open());
    assert!(sink.finalize().is_ok());
    assert!(!sink.is_open());
    match sink.finalize() {
        Err(ConversionError::InvalidState) => {}
        _ => panic!("a second finalize must be rejected"),
    }
}

#[test]
fn write_after_finalize_rejected() {
    let mut sink = SinkWriter::open(fasta_schema(), small_config());
    let batch = RecordBatch::try_new(fasta_schema(), empty_fasta_columns()).unwrap();
    assert!(sink.write(batch).is_ok());
    assert_eq!(sink.batches_written(), 1);
    sink.finalize().unwrap();
    let late = RecordBatch::try_new(fasta_schema(), empty_fasta_columns()).unwrap();
    match sink.write(late) {
        Err(ConversionError::InvalidState) => {}
        _ => panic!("a write after finalize must be rejected"),
    }
}

#[test]
fn finalize_succeeds_after_zero_writes() {
    let mut sink = SinkWriter::open(gff_schema(), small_config());
    assert_eq!(sink.batches_written(), 0);
    assert!(sink.finalize().is_ok());
}

fn empty_fasta_columns() -> Vec<ColumnData> {
    vec![
        ColumnData::Utf8(Utf8Builder::new(1).finish()),
        ColumnData::Utf8(Utf8Builder::new(1).finish()),
        ColumnData::Utf8(Utf8Builder::new(1).finish()),
    ]
}

#[test]
fn assembler_rejects_missing_column() {
    let mut columns = empty_fasta_columns();
    columns.pop();
    match RecordBatch::try_new(fasta_schema(), columns) {
        Err(ConversionError::SchemaMismatch) => {}
        _ => panic!("a missing column must be rejected"),
    }
}

#[test]
fn assembler_rejects_unequal_lengths() {
    let mut ids = Utf8Builder::new(2);
    ids.append_value("a".to_string());
    let columns = vec![
        ColumnData::Utf8(ids.finish()),
        ColumnData::Utf8(Utf8Builder::new(1).finish()),
        ColumnData::Utf8(Utf8Builder::new(1).finish()),
    ];
    match RecordBatch::try_new(fasta_schema(), columns) {
        Err(ConversionError::SchemaMismatch) => {}
        _ => panic!("unequal column lengths must be rejected"),
    }
}

#[test]
fn assembler_rejects_type_mismatch() {
    let columns = vec![
        ColumnData::Int64(Int64Builder::new(1).finish()),
        ColumnData::Utf8(Utf8Builder::new(1).finish()),
        ColumnData::Utf8(Utf8Builder::new(1).finish()),
    ];
    match RecordBatch::try_new(fasta_schema(), columns) {
        Err(ConversionError::SchemaMismatch) => {}
        _ => panic!("a column of the wrong type must be rejected"),
    }
}

#[test]
fn assembler_rejects_null_in_non_nullable_column() {
    let mut ids = Utf8Builder::new(2);
    ids.append_null();
    let mut descs = Utf8Builder::new(2);
    descs.append_null();
    let mut seqs = Utf8Builder::new(2);
    seqs.append_value("A".to_string());
    let columns = vec![
        ColumnData::Utf8(ids.finish()),
        ColumnData::Utf8(descs.finish()),
        ColumnData::Utf8(seqs.finish()),
    ];
    match RecordBatch::try_new(fasta_schema(), columns) {
        Err(ConversionError::SchemaMismatch) => {}
        _ => panic!("an implicit null in a non-nullable column must be rejected"),
    }
}

#[test]
fn assembler_accepts_conforming_arrays() {
    let mut ids = Utf8Builder::new(2);
    ids.append_value("a".to_string());
    let mut descs = Utf8Builder::new(2);
    descs.append_null();
    let mut seqs = Utf8Builder::new(2);
    seqs.append_value("ACGT".to_string());
    let columns = vec![
        ColumnData::Utf8(ids.finish()),
        ColumnData::Utf8(descs.finish()),
        ColumnData::Utf8(seqs.finish()),
    ];
    let batch = RecordBatch::try_new(fasta_schema(), columns).unwrap();
    assert_eq!(batch.nrows, 1);
    assert_eq!(batch.num_rows(), 1);
}

#[test]
fn map_builder_offsets_and_flat_values() {
    let mut b = AttrMapBuilder::new(4);
    b.append_row(vec![
        ("a".to_string(), Some("1".to_string())),
        ("b".to_string(), None),
    ]);
    b.append_row(Vec::new());
    b.append_row(vec![("c".to_string(), Some("3".to_string()))]);
    assert_eq!(b.len(), 3);
    let a = b.finish();
    assert_eq!(a.offsets, vec![0, 2, 2, 3]);
    assert_eq!(a.len(), 3);
    assert_eq!(a.entry_count(0), 2);
    assert_eq!(a.entry_count(1), 0);
    assert_eq!(a.entry_count(2), 1);
    assert_eq!(a.key_at(0, 1), &"b".to_string());
    assert_eq!(a.value_at(0, 1), &None);
    assert_eq!(a.key_at(2, 0), &"c".to_string());
    assert_eq!(a.value_at(2, 0), &Some("3".to_string()));
    assert!(a.check_wf());
}

#[test]
fn map_array_check_rejects_bad_offsets() {
    let a = AttrMapArray {
        offsets: vec![0, 2, 1],
        keys: vec!["a".to_string(), "b".to_string()],
        values: vec![None, None],
    };
    assert!(!a.check_wf());
    let b = AttrMapArray {
        offsets: vec![0, 1],
        keys: vec!["a".to_string(), "b".to_string()],
        values: vec![None, None],
    };
    assert!(!b.check_wf());
}

#[test]
fn string_builder_appends_and_nulls() {
    let mut b = Utf8Builder::new(2);
    b.append_value("x".to_string());
    b.append_null();
    b.append_option(Some("y".to_string()));
    assert_eq!(b.len(), 3);
    let a: Utf8Array = b.finish();
    assert_eq!(a.len(), 3);
    assert_eq!(a.get(0), &Some("x".to_string()));
    assert_eq!(a.get(1), &None);
    assert_eq!(a.get(2), &Some("y".to_string()));
    assert!(a.has_null());
}

#[test]
fn chunker_emits_only_full_chunks_until_finish() {
    let mut c = FastaChunker::new(2, 2);
    let rec = |id: &str| FastaRecord {
        id: id.to_string(),
        description: None,
        sequence: "A".to_string(),
    };
    assert!(c.push(rec("a")).is_none());
    assert_eq!(c.buffered_len(), 1);
    let full = c.push(rec("b"));
    assert!(full.is_some());
    assert_eq!(full.unwrap().nrows, 2);
    assert_eq!(c.buffered_len(), 0);
    assert!(c.push(rec("c")).is_none());
    let last = c.finish();
    assert_eq!(last.unwrap().nrows, 1);
}

#[test]
fn chunker_finish_empty_yields_no_batch() {
    let c = FastaChunker::new(3, 2);
    assert!(c.finish().is_none());
}

#[test]
fn gff_builder_set_counts_records() {
    let mut set = GffBuilderSet::new(2);
    let rec = GffRecord {
        seqname: "chr1".to_string(),
        source: None,
        feature: "gene".to_string(),
        start: 1,
        end: 2,
        score: None,
        strand: "-".to_string(),
        frame: None,
        attribute: vec![("id".to_string(), Some("g1".to_string()))],
    };
    set.append(rec);
    assert_eq!(set.len(), 1);
    let batch = set.seal();
    assert_eq!(batch.nrows, 1);
    assert_eq!(batch.columns.len(), 9);
}

#[test]
fn declared_schemas_match_the_formats() {
    let fa = fasta_schema();
    assert_eq!(fa.fields.len(), 3);
    let fq = fastq_schema();
    assert_eq!(fq.fields.len(), 5);
    assert_eq!(fq.fields[4].name, "number");
    assert!(matches!(fq.fields[4].dtype, ColumnType::Int64));
    assert!(fq.fields[4].nullable);
    let gf = gff_schema();
    assert_eq!(gf.fields.len(), 9);
    assert_eq!(gf.fields[8].name, "attribute");
    assert!(matches!(gf.fields[8].dtype, ColumnType::MapUtf8));
    assert!(!gf.fields[8].nullable);
    assert!(gf.fields[5].nullable);
    assert!(!gf.fields[3].nullable);
}

#[test]
fn default_configuration_values() {
    let c = ConversionConfig::default();
    assert_eq!(c.chunk_size, 1 << 20);
    assert_eq!(c.builder_capacity_hint, 2048);
    assert!(c.statistics_enabled);
    assert!(matches!(c.compression, OutputCompression::STANDARD));
}

#[test]
fn error_kind_query() {
    let e = ConversionError::Parse(ParseError { message: "m".to_string() });
    assert!(e.is_parse());
    assert!(!ConversionError::SchemaMismatch.is_parse());
    assert!(!ConversionError::InvalidState.is_parse());
}
