//! The end-to-end conversion drivers: decode results in, ordered batches
//! out, sink finalized exactly once.
//!
//! A driver consumes a fully materialized sequence of decode results.  (A
//! caller streaming from an unbounded source drives a chunk accumulator and a
//! sink writer directly, record by record, with the same contracts.)  The
//! first decode error aborts the conversion: it is surfaced unchanged, and no
//! record after the failure point is processed.

use vstd::prelude::*;
use vstd::arithmetic::div_mod::lemma_fundamental_div_mod_converse;
use vstd::arithmetic::mul::lemma_mul_inequality;
use vstd::pervasive::unreached;

use crate::batch::RecordBatch;
use crate::builders::{is_fasta_batch, is_fastq_batch, is_gff_batch};
use crate::chunker::{chunk_count, chunk_rows, FastaChunker, FastqChunker, GffChunker};
use crate::error::{ConversionError, ParseError};
use crate::record::{with_read_number, FastaRecord, FastqRecord, GffRecord};
use crate::schema::{fasta_schema, fastq_schema, gff_schema};
use crate::sink::{ConversionConfig, SinkState, SinkWriter};

verus! {

/// The decoded records of a fully successful input, in input order.
pub open spec fn gff_records_of(items: Seq<Result<GffRecord, ParseError>>) -> Seq<GffRecord> {
    Seq::new(items.len(), |k: int| items[k]->Ok_0)
}

/// The decoded records of a fully successful input, in input order.
pub open spec fn fasta_records_of(items: Seq<Result<FastaRecord, ParseError>>) -> Seq<
    FastaRecord,
> {
    Seq::new(items.len(), |k: int| items[k]->Ok_0)
}

/// The decoded records of a fully successful input, in input order, each
/// carrying its pipeline-assigned read number.
pub open spec fn fastq_records_of(items: Seq<Result<FastqRecord, ParseError>>) -> Seq<
    FastqRecord,
> {
    Seq::new(items.len(), |k: int| with_read_number(items[k]->Ok_0, k as i64))
}

/// Whether position `j` holds the first decode error of the input.
pub open spec fn first_parse_error_at<T>(items: Seq<Result<T, ParseError>>, j: int) -> bool {
    &&& 0 <= j < items.len()
    &&& items[j] is Err
    &&& forall|k: int| 0 <= k < j ==> items[k] is Ok
}

/// Converts a sequence of GFF decode results into schema-conformant batches:
/// chunk `b` of the successfully decoded records becomes batch `b`, in input
/// order, and the sink accepts them in that order and is finalized exactly
/// once.  The first decode error aborts the conversion and is surfaced
/// unchanged.
#[verifier::loop_isolation(false)]
pub fn convert_gff_records(
    items: Vec<Result<GffRecord, ParseError>>,
    config: ConversionConfig,
) -> (r: Result<Vec<RecordBatch>, ConversionError>)
    requires
        config.wf(),
    ensures
        match r {
            Ok(batches) => {
                &&& forall|k: int| 0 <= k < items@.len() ==> items@[k] is Ok
                &&& batches@.len() == chunk_count(
                    items@.len() as int,
                    config.chunk_size as int,
                )
                &&& forall|b: int|
                    0 <= b < batches@.len() ==> is_gff_batch(
                        batches@[b],
                        chunk_rows(gff_records_of(items@), config.chunk_size as int, b),
                    )
            },
            Err(e) => exists|j: int|
                first_parse_error_at(items@, j) && e == ConversionError::Parse(
                    items@[j]->Err_0,
                ),
        },
{
    let ghost items0 = items@;
    let ghost cs = config.chunk_size as int;
    let _input_len = items.len();
    let mut items = items;
    let mut chunker = GffChunker::new(config.chunk_size, config.builder_capacity_hint);
    let mut sink = SinkWriter::open(gff_schema(), config);
    let mut batches: Vec<RecordBatch> = Vec::new();
    proof {
        assert(items0.subrange(0, items0.len() as int) =~= items0);
        assert(sink.written@ =~= batches@);
    }
    while items.len() > 0
        invariant
            cs >= 1,
            items0.len() <= usize::MAX,
            items@.len() <= items0.len(),
            items@ == items0.subrange(items0.len() - items@.len(), items0.len() as int),
            forall|k: int| 0 <= k < items0.len() - items@.len() ==> items0[k] is Ok,
            chunker.wf(),
            chunker.chunk_size == cs,
            chunker.history@.len() == items0.len() - items@.len(),
            forall|k: int|
                0 <= k < chunker.history@.len() ==> chunker.history@[k] == items0[k]->Ok_0,
            sink.wf(),
            sink.state == SinkState::Open,
            sink.written@ == batches@,
            batches@.len() == chunker.emitted@,
            forall|b: int|
                0 <= b < batches@.len() ==> is_gff_batch(
                    batches@[b],
                    Seq::new(cs as nat, |t: int| items0[b * cs + t]->Ok_0),
                ),
        decreases items@.len(),
    {
        let ghost p = items0.len() - items@.len();
        let item = items.remove(0);
        proof {
            assert(items0.subrange(p, items0.len() as int)[0] == items0[p]);
            assert(items@ =~= items0.subrange(p + 1, items0.len() as int));
        }
        match item {
            Ok(rec) => {
                let ghost pre = chunker;
                let maybe = chunker.push(rec);
                match maybe {
                    Some(batch) => {
                        proof {
                            let e = pre.emitted@;
                            assert(pre.buffered().len() + 1 == cs);
                            assert(pre.history@.len() == e * cs + cs - 1);
                            assert forall|t: int|
                                0 <= t < cs implies pre.buffered().push(rec)[t] == items0[e * cs
                                + t]->Ok_0 by {
                                if t < cs - 1 {
                                    assert(pre.buffered()[t] == pre.history@[e * cs + t]);
                                    assert(pre.history@[e * cs + t] == items0[e * cs + t]->Ok_0);
                                } else {
                                    assert(e * cs + t == p);
                                    assert(rec == items0[p]->Ok_0);
                                }
                            }
                            assert(pre.buffered().push(rec) =~= Seq::new(
                                cs as nat,
                                |t: int| items0[e * cs + t]->Ok_0,
                            ));
                            assert(sink.batches_written < usize::MAX) by {
                                assert(batches@.len() == e);
                                assert(e * cs >= e * 1) by (nonlinear_arith)
                                    requires cs >= 1 && e >= 0;
                                assert(e <= pre.history@.len());
                            }
                        }
                        let accepted = match sink.write(batch) {
                            Ok(bb) => bb,
                            Err(_) => unreached(),
                        };
                        batches.push(accepted);
                    },
                    None => {},
                }
            },
            Err(e) => {
                proof {
                    assert(first_parse_error_at(items0, p));
                }
                return Err(ConversionError::Parse(e));
            },
        }
    }
    let ghost n = items0.len() as int;
    let ghost k = chunker.emitted@;
    let ghost rem = chunker.buffered().len() as int;
    proof {
        assert(n == k * cs + rem);
        lemma_fundamental_div_mod_converse(n, cs, k, rem);
        assert(gff_records_of(items0) =~= chunker.history@);
    }
    match chunker.finish() {
        Some(batch) => {
            proof {
                assert(chunk_count(n, cs) == k + 1);
                assert((k + 1) * cs == k * cs + cs) by (nonlinear_arith);
                assert(chunker.buffered() =~= chunk_rows(gff_records_of(items0), cs, k));
                assert(sink.batches_written < usize::MAX) by {
                    assert(k * cs >= k * 1) by (nonlinear_arith)
                        requires cs >= 1 && k >= 0;
                }
            }
            let accepted = match sink.write(batch) {
                Ok(bb) => bb,
                Err(_) => unreached(),
            };
            batches.push(accepted);
        },
        None => {
            proof {
                assert(chunk_count(n, cs) == k);
            }
        },
    }
    match sink.finalize() {
        Ok(_) => {},
        Err(_) => unreached(),
    }
    proof {
        assert forall|b: int|
            0 <= b < batches@.len() implies is_gff_batch(
            batches@[b],
            chunk_rows(gff_records_of(items0), cs, b),
        ) by {
            if b < k {
                lemma_mul_inequality(b + 1, k, cs);
                assert((b + 1) * cs == b * cs + cs) by (nonlinear_arith);
                assert(b * cs >= 0) by (nonlinear_arith)
                    requires b >= 0 && cs >= 1;
                assert(chunk_rows(gff_records_of(items0), cs, b) =~= Seq::new(
                    cs as nat,
                    |t: int| items0[b * cs + t]->Ok_0,
                ));
            }
        }
    }
    Ok(batches)
}

/// Converts a sequence of FASTA decode results into schema-conformant
/// batches: chunk `b` of the successfully decoded records becomes batch `b`,
/// in input order, and the sink accepts them in that order and is finalized
/// exactly once.  The first decode error aborts the conversion and is
/// surfaced unchanged.
#[verifier::loop_isolation(false)]
pub fn convert_fasta_records(
    items: Vec<Result<FastaRecord, ParseError>>,
    config: ConversionConfig,
) -> (r: Result<Vec<RecordBatch>, ConversionError>)
    requires
        config.wf(),
    ensures
        match r {
            Ok(batches) => {
                &&& forall|k: int| 0 <= k < items@.len() ==> items@[k] is Ok
                &&& batches@.len() == chunk_count(
                    items@.len() as int,
                    config.chunk_size as int,
                )
                &&& forall|b: int|
                    0 <= b < batches@.len() ==> is_fasta_batch(
                        batches@[b],
                        chunk_rows(fasta_records_of(items@), config.chunk_size as int, b),
                    )
            },
            Err(e) => exists|j: int|
                first_parse_error_at(items@, j) && e == ConversionError::Parse(
                    items@[j]->Err_0,
                ),
        },
{
    let ghost items0 = items@;
    let ghost cs = config.chunk_size as int;
    let _input_len = items.len();
    let mut items = items;
    let mut chunker = FastaChunker::new(config.chunk_size, config.builder_capacity_hint);
    let mut sink = SinkWriter::open(fasta_schema(), config);
    let mut batches: Vec<RecordBatch> = Vec::new();
    proof {
        assert(items0.subrange(0, items0.len() as int) =~= items0);
        assert(sink.written@ =~= batches@);
    }
    while items.len() > 0
        invariant
            cs >= 1,
            items0.len() <= usize::MAX,
            items@.len() <= items0.len(),
            items@ == items0.subrange(items0.len() - items@.len(), items0.len() as int),
            forall|k: int| 0 <= k < items0.len() - items@.len() ==> items0[k] is Ok,
            chunker.wf(),
            chunker.chunk_size == cs,
            chunker.history@.len() == items0.len() - items@.len(),
            forall|k: int|
                0 <= k < chunker.history@.len() ==> chunker.history@[k] == items0[k]->Ok_0,
            sink.wf(),
            sink.state == SinkState::Open,
            sink.written@ == batches@,
            batches@.len() == chunker.emitted@,
            forall|b: int|
                0 <= b < batches@.len() ==> is_fasta_batch(
                    batches@[b],
                    Seq::new(cs as nat, |t: int| items0[b * cs + t]->Ok_0),
                ),
        decreases items@.len(),
    {
        let ghost p = items0.len() - items@.len();
        let item = items.remove(0);
        proof {
            assert(items0.subrange(p, items0.len() as int)[0] == items0[p]);
            assert(items@ =~= items0.subrange(p + 1, items0.len() as int));
        }
        match item {
            Ok(rec) => {
                let ghost pre = chunker;
                let maybe = chunker.push(rec);
                match maybe {
                    Some(batch) => {
                        proof {
                            let e = pre.emitted@;
                            assert(pre.buffered().len() + 1 == cs);
                            assert(pre.history@.len() == e * cs + cs - 1);
                            assert forall|t: int|
                                0 <= t < cs implies pre.buffered().push(rec)[t] == items0[e * cs
                                + t]->Ok_0 by {
                                if t < cs - 1 {
                                    assert(pre.buffered()[t] == pre.history@[e * cs + t]);
                                    assert(pre.history@[e * cs + t] == items0[e * cs + t]->Ok_0);
                                } else {
                                    assert(e * cs + t == p);
                                    assert(rec == items0[p]->Ok_0);
                                }
                            }
                            assert(pre.buffered().push(rec) =~= Seq::new(
                                cs as nat,
                                |t: int| items0[e * cs + t]->Ok_0,
                            ));
                            assert(sink.batches_written < usize::MAX) by {
                                assert(batches@.len() == e);
                                assert(e * cs >= e * 1) by (nonlinear_arith)
                                    requires cs >= 1 && e >= 0;
                                assert(e <= pre.history@.len());
                            }
                        }
                        let accepted = match sink.write(batch) {
                            Ok(bb) => bb,
                            Err(_) => unreached(),
                        };
                        batches.push(accepted);
                    },
                    None => {},
                }
            },
            Err(e) => {
                proof {
                    assert(first_parse_error_at(items0, p));
                }
                return Err(ConversionError::Parse(e));
            },
        }
    }
    let ghost n = items0.len() as int;
    let ghost k = chunker.emitted@;
    let ghost rem = chunker.buffered().len() as int;
    proof {
        assert(n == k * cs + rem);
        lemma_fundamental_div_mod_converse(n, cs, k, rem);
        assert(fasta_records_of(items0) =~= chunker.history@);
    }
    match chunker.finish() {
        Some(batch) => {
            proof {
                assert(chunk_count(n, cs) == k + 1);
                assert((k + 1) * cs == k * cs + cs) by (nonlinear_arith);
                assert(chunker.buffered() =~= chunk_rows(fasta_records_of(items0), cs, k));
                assert(sink.batches_written < usize::MAX) by {
                    assert(k * cs >= k * 1) by (nonlinear_arith)
                        requires cs >= 1 && k >= 0;
                }
            }
            let accepted = match sink.write(batch) {
                Ok(bb) => bb,
                Err(_) => unreached(),
            };
            batches.push(accepted);
        },
        None => {
            proof {
                assert(chunk_count(n, cs) == k);
            }
        },
    }
    match sink.finalize() {
        Ok(_) => {},
        Err(_) => unreached(),
    }
    proof {
        assert forall|b: int|
            0 <= b < batches@.len() implies is_fasta_batch(
            batches@[b],
            chunk_rows(fasta_records_of(items0), cs, b),
        ) by {
            if b < k {
                lemma_mul_inequality(b + 1, k, cs);
                assert((b + 1) * cs == b * cs + cs) by (nonlinear_arith);
                assert(b * cs >= 0) by (nonlinear_arith)
                    requires b >= 0 && cs >= 1;
                assert(chunk_rows(fasta_records_of(items0), cs, b) =~= Seq::new(
                    cs as nat,
                    |t: int| items0[b * cs + t]->Ok_0,
                ));
            }
        }
    }
    Ok(batches)
}

/// Converts a sequence of FASTQ decode results into schema-conformant
/// batches, assigning each decoded record its pipeline-local read number (0,
/// 1, 2, ... in input order, monotonic across chunk boundaries): chunk `b` of
/// the numbered records becomes batch `b`, in input order, and the sink
/// accepts them in that order and is finalized exactly once.  The first
/// decode error aborts the conversion and is surfaced unchanged.
#[verifier::loop_isolation(false)]
pub fn convert_fastq_records(
    items: Vec<Result<FastqRecord, ParseError>>,
    config: ConversionConfig,
) -> (r: Result<Vec<RecordBatch>, ConversionError>)
    requires
        config.wf(),
        items@.len() <= i64::MAX,
    ensures
        match r {
            Ok(batches) => {
                &&& forall|k: int| 0 <= k < items@.len() ==> items@[k] is Ok
                &&& batches@.len() == chunk_count(
                    items@.len() as int,
                    config.chunk_size as int,
                )
                &&& forall|b: int|
                    0 <= b < batches@.len() ==> is_fastq_batch(
                        batches@[b],
                        chunk_rows(fastq_records_of(items@), config.chunk_size as int, b),
                    )
            },
            Err(e) => exists|j: int|
                first_parse_error_at(items@, j) && e == ConversionError::Parse(
                    items@[j]->Err_0,
                ),
        },
{
    let ghost items0 = items@;
    let ghost cs = config.chunk_size as int;
    let _input_len = items.len();
    let mut items = items;
    let mut chunker = FastqChunker::new(config.chunk_size, config.builder_capacity_hint);
    let mut sink = SinkWriter::open(fastq_schema(), config);
    let mut batches: Vec<RecordBatch> = Vec::new();
    proof {
        assert(items0.subrange(0, items0.len() as int) =~= items0);
        assert(sink.written@ =~= batches@);
    }
    while items.len() > 0
        invariant
            cs >= 1,
            items0.len() <= usize::MAX,
            items0.len() <= i64::MAX,
            items@.len() <= items0.len(),
            items@ == items0.subrange(items0.len() - items@.len(), items0.len() as int),
            forall|k: int| 0 <= k < items0.len() - items@.len() ==> items0[k] is Ok,
            chunker.wf(),
            chunker.chunk_size == cs,
            chunker.history@.len() == items0.len() - items@.len(),
            forall|k: int|
                0 <= k < chunker.history@.len() ==> chunker.history@[k] == with_read_number(
                    items0[k]->Ok_0,
                    k as i64,
                ),
            sink.wf(),
            sink.state == SinkState::Open,
            sink.written@ == batches@,
            batches@.len() == chunker.emitted@,
            forall|b: int|
                0 <= b < batches@.len() ==> is_fastq_batch(
                    batches@[b],
                    Seq::new(
                        cs as nat,
                        |t: int| with_read_number(items0[b * cs + t]->Ok_0, (b * cs + t) as i64),
                    ),
                ),
        decreases items@.len(),
    {
        let ghost p = items0.len() - items@.len();
        let item = items.remove(0);
        proof {
            assert(items0.subrange(p, items0.len() as int)[0] == items0[p]);
            assert(items@ =~= items0.subrange(p + 1, items0.len() as int));
        }
        match item {
            Ok(rec) => {
                let ghost pre = chunker;
                proof {
                    assert(pre.next_read_number == p);
                    assert(pre.next_read_number < i64::MAX);
                }
                let maybe = chunker.push(rec);
                match maybe {
                    Some(batch) => {
                        proof {
                            let e = pre.emitted@;
                            assert(pre.buffered().len() + 1 == cs);
                            assert(pre.history@.len() == e * cs + cs - 1);
                            let numbered = with_read_number(rec, pre.next_read_number);
                            assert forall|t: int|
                                0 <= t < cs implies pre.buffered().push(numbered)[t]
                                == with_read_number(items0[e * cs + t]->Ok_0, (e * cs + t) as i64)
                                by {
                                if t < cs - 1 {
                                    assert(pre.buffered()[t] == pre.history@[e * cs + t]);
                                    assert(pre.history@[e * cs + t] == with_read_number(
                                        items0[e * cs + t]->Ok_0,
                                        (e * cs + t) as i64,
                                    ));
                                } else {
                                    assert(e * cs + t == p);
                                    assert(rec == items0[p]->Ok_0);
                                }
                            }
                            assert(pre.buffered().push(numbered) =~= Seq::new(
                                cs as nat,
                                |t: int|
                                    with_read_number(
                                        items0[e * cs + t]->Ok_0,
                                        (e * cs + t) as i64,
                                    ),
                            ));
                            assert(sink.batches_written < usize::MAX) by {
                                assert(batches@.len() == e);
                                assert(e * cs >= e * 1) by (nonlinear_arith)
                                    requires cs >= 1 && e >= 0;
                                assert(e <= pre.history@.len());
                            }
                        }
                        let accepted = match sink.write(batch) {
                            Ok(bb) => bb,
                            Err(_) => unreached(),
                        };
                        batches.push(accepted);
                    },
                    None => {},
                }
            },
            Err(e) => {
                proof {
                    assert(first_parse_error_at(items0, p));
                }
                return Err(ConversionError::Parse(e));
            },
        }
    }
    let ghost n = items0.len() as int;
    let ghost k = chunker.emitted@;
    let ghost rem = chunker.buffered().len() as int;
    proof {
        assert(n == k * cs + rem);
        lemma_fundamental_div_mod_converse(n, cs, k, rem);
        assert(fastq_records_of(items0) =~= chunker.history@);
    }
    match chunker.finish() {
        Some(batch) => {
            proof {
                assert(chunk_count(n, cs) == k + 1);
                assert((k + 1) * cs == k * cs + cs) by (nonlinear_arith);
                assert(chunker.buffered() =~= chunk_rows(fastq_records_of(items0), cs, k));
                assert(sink.batches_written < usize::MAX) by {
                    assert(k * cs >= k * 1) by (nonlinear_arith)
                        requires cs >= 1 && k >= 0;
                }
            }
            let accepted = match sink.write(batch) {
                Ok(bb) => bb,
                Err(_) => unreached(),
            };
            batches.push(accepted);
        },
        None => {
            proof {
                assert(chunk_count(n, cs) == k);
            }
        },
    }
    match sink.finalize() {
        Ok(_) => {},
        Err(_) => unreached(),
    }
    proof {
        assert forall|b: int|
            0 <= b < batches@.len() implies is_fastq_batch(
            batches@[b],
            chunk_rows(fastq_records_of(items0), cs, b),
        ) by {
            if b < k {
                lemma_mul_inequality(b + 1, k, cs);
                assert((b + 1) * cs == b * cs + cs) by (nonlinear_arith);
                assert(b * cs >= 0) by (nonlinear_arith)
                    requires b >= 0 && cs >= 1;
                assert(chunk_rows(fastq_records_of(items0), cs, b) =~= Seq::new(
                    cs as nat,
                    |t: int| with_read_number(items0[b * cs + t]->Ok_0, (b * cs + t) as i64),
                ));
            }
        }
    }
    Ok(batches)
}

} // verus!
