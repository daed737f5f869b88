use brrrr::batch::ColumnData;
use brrrr::error::{ConversionError, ParseError};
use brrrr::pipeline::{convert_fasta_records, convert_fastq_records, convert_gff_records};
use brrrr::record::{FastaRecord, FastqRecord, GffRecord};
use brrrr::sink::{ConversionConfig, OutputCompression};

fn config(chunk_size: usize) -> ConversionConfig {
    ConversionConfig {
        compression: OutputCompression::NONE,
        statistics_enabled: false,
        chunk_size,
        builder_capacity_hint: 4,
    }
}

fn fasta(id: &str, desc: Option<&str>, seq: &str) -> FastaRecord {
    FastaRecord {
        id: id.to_string(),
        description: desc.map(|d| d.to_string()),
        sequence: seq.to_string(),
    }
}

fn fastq(id: &str, seq: &str, qual: &str) -> FastqRecord {
    FastqRecord {
        id: id.to_string(),
        sequence: seq.to_string(),
        description: None,
        quality: qual.to_string(),
        read_number: None,
    }
}

fn gff(seqname: &str, feature: &str, start: i64, end: i64) -> GffRecord {
    GffRecord {
        seqname: seqname.to_string(),
        source: None,
        feature: feature.to_string(),
        start,
        end,
        score: None,
        strand: "+".to_string(),
        frame: None,
        attribute: Vec::new(),
    }
}

fn utf8_column(col: &ColumnData) -> &Vec<Option<String>> {
    match col {
        ColumnData::Utf8(a) => &a.data,
        _ => panic!("expected a string column"),
    }
}

fn int64_column(col: &ColumnData) -> &Vec<Option<i64>> {
    match col {
        ColumnData::Int64(a) => &a.data,
        _ => panic!("expected an integer column"),
    }
}

#[test]
fn row_count_parity_across_batches() {
    let items: Vec<Result<FastaRecord, ParseError>> = (0..5)
        .map(|i| Ok(fasta(&format!("id{}", i), None, "ACGT")))
        .collect();
    let batches = convert_fasta_records(items, config(2)).unwrap();
    let total: usize = batches.iter().map(|b| b.nrows).sum();
    assert_eq!(total, 5);
    for b in &batches {
        for col in &b.columns {
            assert_eq!(col.len(), b.nrows);
        }
    }
}

#[test]
fn order_preserved_within_and_across_chunks() {
    let items: Vec<Result<FastaRecord, ParseError>> = (0..7)
        .map(|i| Ok(fasta(&format!("id{}", i), None, "A")))
        .collect();
    let batches = convert_fasta_records(items, config(3)).unwrap();
    let mut seen: Vec<String> = Vec::new();
    for b in &batches {
        for v in utf8_column(&b.columns[0]) {
            seen.push(v.clone().unwrap());
        }
    }
    let expected: Vec<String> = (0..7).map(|i| format!("id{}", i)).collect();
    assert_eq!(seen, expected);
}

#[test]
fn chunk_boundary_partial_final_batch() {
    // 2 * 3 + 1 records with chunk size 3: two full batches and one of 1
    let items: Vec<Result<FastaRecord, ParseError>> =
        (0..7).map(|i| Ok(fasta(&format!("r{}", i), None, "A"))).collect();
    let batches = convert_fasta_records(items, config(3)).unwrap();
    assert_eq!(batches.len(), 3);
    assert_eq!(batches[0].nrows, 3);
    assert_eq!(batches[1].nrows, 3);
    assert_eq!(batches[2].nrows, 1);
}

#[test]
fn chunk_boundary_exact_multiple_no_empty_batch() {
    let items: Vec<Result<FastaRecord, ParseError>> =
        (0..6).map(|i| Ok(fasta(&format!("r{}", i), None, "A"))).collect();
    let batches = convert_fasta_records(items, config(3)).unwrap();
    assert_eq!(batches.len(), 2);
    assert!(batches.iter().all(|b| b.nrows == 3));
}

#[test]
fn absent_optional_field_becomes_null() {
    let items: Vec<Result<FastaRecord, ParseError>> = vec![
        Ok(fasta("a", Some("described"), "ACGT")),
        Ok(fasta("b", None, "TTTT")),
    ];
    let batches = convert_fasta_records(items, config(10)).unwrap();
    assert_eq!(batches.len(), 1);
    let descriptions = utf8_column(&batches[0].columns[1]);
    assert_eq!(descriptions[0], Some("described".to_string()));
    assert_eq!(descriptions[1], None);
}

#[test]
fn gff_map_fidelity_order_and_optional_values() {
    let mut rec = gff("chr1", "gene", 10, 20);
    rec.attribute = vec![
        ("k1".to_string(), Some("v1".to_string())),
        ("k2".to_string(), None),
        ("k3".to_string(), Some("v3".to_string())),
    ];
    let items: Vec<Result<GffRecord, ParseError>> = vec![Ok(rec)];
    let batches = convert_gff_records(items, config(8)).unwrap();
    assert_eq!(batches.len(), 1);
    match &batches[0].columns[8] {
        ColumnData::AttrMap(a) => {
            assert_eq!(a.offsets, vec![0, 3]);
            assert_eq!(a.keys, vec!["k1".to_string(), "k2".to_string(), "k3".to_string()]);
            assert_eq!(
                a.values,
                vec![Some("v1".to_string()), None, Some("v3".to_string())]
            );
        }
        _ => panic!("expected the attribute map column"),
    }
}

#[test]
fn gff_plain_columns_round_trip() {
    let mut rec = gff("chr2", "exon", 5, 9);
    rec.source = Some("annotator".to_string());
    rec.score = Some(42);
    rec.frame = Some("0".to_string());
    let items: Vec<Result<GffRecord, ParseError>> = vec![Ok(rec)];
    let batches = convert_gff_records(items, config(4)).unwrap();
    let b = &batches[0];
    assert_eq!(utf8_column(&b.columns[0])[0], Some("chr2".to_string()));
    assert_eq!(utf8_column(&b.columns[1])[0], Some("annotator".to_string()));
    assert_eq!(utf8_column(&b.columns[2])[0], Some("exon".to_string()));
    assert_eq!(int64_column(&b.columns[3])[0], Some(5));
    assert_eq!(int64_column(&b.columns[4])[0], Some(9));
    assert_eq!(int64_column(&b.columns[5])[0], Some(42));
    assert_eq!(utf8_column(&b.columns[6])[0], Some("+".to_string()));
    assert_eq!(utf8_column(&b.columns[7])[0], Some("0".to_string()));
}

#[test]
fn fail_fast_on_third_malformed_record() {
    let items: Vec<Result<FastqRecord, ParseError>> = vec![
        Ok(fastq("r0", "AC", "!!")),
        Ok(fastq("r1", "GT", "!!")),
        Err(ParseError { message: "truncated record".to_string() }),
        Ok(fastq("r3", "CC", "!!")),
    ];
    match convert_fastq_records(items, config(2)) {
        Err(ConversionError::Parse(p)) => assert_eq!(p.message, "truncated record"),
        _ => panic!("expected the parse error to surface"),
    }
}

#[test]
fn parse_error_surfaces_for_gff_and_fasta() {
    let gff_items: Vec<Result<GffRecord, ParseError>> =
        vec![Err(ParseError { message: "bad line".to_string() })];
    match convert_gff_records(gff_items, config(2)) {
        Err(ConversionError::Parse(p)) => assert_eq!(p.message, "bad line"),
        _ => panic!("expected the parse error to surface"),
    }
    let fasta_items: Vec<Result<FastaRecord, ParseError>> = vec![
        Ok(fasta("ok", None, "A")),
        Err(ParseError { message: "no header".to_string() }),
    ];
    match convert_fasta_records(fasta_items, config(2)) {
        Err(ConversionError::Parse(p)) => assert_eq!(p.message, "no header"),
        _ => panic!("expected the parse error to surface"),
    }
}

#[test]
fn empty_input_yields_zero_batches() {
    let items: Vec<Result<FastaRecord, ParseError>> = Vec::new();
    let batches = convert_fasta_records(items, config(4)).unwrap();
    assert!(batches.is_empty());
    let gff_items: Vec<Result<GffRecord, ParseError>> = Vec::new();
    let gff_batches = convert_gff_records(gff_items, config(4)).unwrap();
    assert!(gff_batches.is_empty());
}

#[test]
fn fastq_read_numbers_monotonic_across_chunks() {
    let items: Vec<Result<FastqRecord, ParseError>> = (0..5)
        .map(|i| Ok(fastq(&format!("r{}", i), "AC", "!!")))
        .collect();
    let batches = convert_fastq_records(items, config(2)).unwrap();
    assert_eq!(batches.len(), 3);
    let mut numbers: Vec<i64> = Vec::new();
    for b in &batches {
        for v in int64_column(&b.columns[4]) {
            numbers.push(v.unwrap());
        }
    }
    assert_eq!(numbers, vec![0, 1, 2, 3, 4]);
}

#[test]
fn fastq_columns_round_trip() {
    let mut rec = fastq("read1", "ACGT", "IIII");
    rec.description = Some("lane 3".to_string());
    // any read number present in the source is ignored by the pipeline
    rec.read_number = Some(99);
    let items: Vec<Result<FastqRecord, ParseError>> = vec![Ok(rec)];
    let batches = convert_fastq_records(items, config(4)).unwrap();
    let b = &batches[0];
    assert_eq!(b.nrows, 1);
    assert_eq!(utf8_column(&b.columns[0])[0], Some("read1".to_string()));
    assert_eq!(utf8_column(&b.columns[1])[0], Some("ACGT".to_string()));
    assert_eq!(utf8_column(&b.columns[2])[0], Some("lane 3".to_string()));
    assert_eq!(utf8_column(&b.columns[3])[0], Some("IIII".to_string()));
    assert_eq!(int64_column(&b.columns[4])[0], Some(0));
}

#[test]
fn batches_carry_their_schema() {
    let items: Vec<Result<FastaRecord, ParseError>> = vec![Ok(fasta("a", None, "A"))];
    let batches = convert_fasta_records(items, config(1)).unwrap();
    let fields = &batches[0].schema.fields;
    assert_eq!(fields.len(), 3);
    assert_eq!(fields[0].name, "id");
    assert!(!fields[0].nullable);
    assert_eq!(fields[1].name, "description");
    assert!(fields[1].nullable);
    assert_eq!(fields[2].name, "sequence");
    assert!(!fields[2].nullable);
}
