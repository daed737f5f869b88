//! General properties of the conversion, stated and proved once over the
//! contracts of the pipeline: row-count parity, order preservation, chunk
//! boundary correctness, map fidelity, and the empty-input behaviour.

use vstd::prelude::*;
use vstd::arithmetic::div_mod::{lemma_fundamental_div_mod, lemma_fundamental_div_mod_converse};
use vstd::arithmetic::mul::{lemma_mul_inequality, lemma_mul_inequality_converse};

use crate::batch::{ColumnData, RecordBatch};
use crate::builders::is_gff_batch;
use crate::chunker::{chunk_count, chunk_rows};
use crate::column::map_row_matches;
use crate::record::GffRecord;

verus! {

/// Sum of the row counts of a sequence of batches.
pub open spec fn total_rows(batches: Seq<RecordBatch>) -> int
    decreases batches.len(),
{
    if batches.len() == 0 {
        0
    } else {
        total_rows(batches.drop_last()) + batches.last().nrows
    }
}

/// Row-count parity within one batch: every column of a schema-conformant
/// batch has exactly the batch's row count.
pub proof fn lemma_column_parity(b: RecordBatch)
    requires
        b.wf(),
    ensures
        forall|i: int| 0 <= i < b.columns@.len() ==> b.columns@[i].spec_len() == b.nrows,
{
}

/// Length of chunk `b` is `cs` for every chunk before the last, and whatever
/// is left over for the last.
proof fn lemma_chunk_rows_len<T>(records: Seq<T>, cs: int, b: int)
    requires
        cs >= 1,
        0 <= b,
        b * cs <= records.len(),
    ensures
        (b + 1) * cs <= records.len() ==> chunk_rows(records, cs, b).len() == cs,
        (b + 1) * cs > records.len() ==> chunk_rows(records, cs, b).len() == records.len() - b
            * cs,
{
    assert((b + 1) * cs == b * cs + cs) by (nonlinear_arith);
    assert(b * cs >= 0) by (nonlinear_arith)
        requires b >= 0 && cs >= 1;
}

/// Row-count parity across a conversion, generalized to any leading run of
/// `m` batches: their row counts sum to `m * cs`, capped at the input length.
proof fn lemma_partial_row_sum<T>(batches: Seq<RecordBatch>, records: Seq<T>, cs: int, m: int)
    requires
        cs >= 1,
        0 <= m,
        m <= chunk_count(records.len() as int, cs),
        batches.len() == m,
        forall|b: int|
            0 <= b < m ==> batches[b].nrows == chunk_rows(records, cs, b).len(),
    ensures
        total_rows(batches) == if m * cs <= records.len() {
            m * cs
        } else {
            records.len() as int
        },
    decreases m,
{
    let n = records.len() as int;
    let q = n / cs;
    let r = n % cs;
    lemma_fundamental_div_mod(n, cs);
    assert(0 <= r < cs);
    if m == 0 {
        assert(m * cs == 0) by (nonlinear_arith)
            requires m == 0;
    } else {
        let prefix = batches.drop_last();
        assert(forall|b: int|
            0 <= b < m - 1 ==> prefix[b].nrows == chunk_rows(records, cs, b).len());
        lemma_partial_row_sum(prefix, records, cs, m - 1);
        // chunks before the count's end start within the input
        assert(m - 1 <= q) by {
            if r == 0 {
                assert(chunk_count(n, cs) == q);
            } else {
                assert(chunk_count(n, cs) == q + 1);
            }
        }
        lemma_mul_inequality(m - 1, q, cs);
        assert(q * cs <= n);
        assert((m - 1) * cs <= n);
        assert(m * cs == (m - 1) * cs + cs) by (nonlinear_arith);
        lemma_chunk_rows_len(records, cs, m - 1);
        assert(batches.last() == batches[m - 1]);
        if m * cs <= n {
            assert(total_rows(batches) == (m - 1) * cs + cs);
        } else {
            assert(batches[m - 1].nrows == n - (m - 1) * cs);
        }
    }
}

/// Row-count parity across a conversion: the row counts of the emitted
/// batches — one per chunk, as the drivers ensure — sum to exactly the number
/// of successfully decoded input records.
pub proof fn lemma_row_count_parity<T>(batches: Seq<RecordBatch>, records: Seq<T>, cs: int)
    requires
        cs >= 1,
        batches.len() == chunk_count(records.len() as int, cs),
        forall|b: int|
            0 <= b < batches.len() ==> batches[b].nrows == chunk_rows(records, cs, b).len(),
    ensures
        total_rows(batches) == records.len(),
{
    let n = records.len() as int;
    let q = n / cs;
    let r = n % cs;
    lemma_fundamental_div_mod(n, cs);
    assert(0 <= r < cs);
    let m = chunk_count(n, cs);
    assert(m >= 0);
    lemma_partial_row_sum(batches, records, cs, m);
    if r == 0 {
        assert(m == q);
        assert(m * cs == n);
    } else {
        assert(m == q + 1);
        assert((q + 1) * cs == q * cs + cs) by (nonlinear_arith);
        assert(m * cs > n);
    }
}

/// Order preservation: the record at input position `j` appears as row
/// `j % cs` of batch `j / cs`, so the emission order equals the input order,
/// within and across chunks.
pub proof fn lemma_order_preservation<T>(records: Seq<T>, cs: int, j: int)
    requires
        cs >= 1,
        0 <= j < records.len(),
    ensures
        0 <= j / cs < chunk_count(records.len() as int, cs),
        0 <= j % cs < chunk_rows(records, cs, j / cs).len(),
        chunk_rows(records, cs, j / cs)[j % cs] == records[j],
{
    let n = records.len() as int;
    let b = j / cs;
    let o = j % cs;
    lemma_fundamental_div_mod(j, cs);
    assert(0 <= o < cs);
    assert(b >= 0) by {
        if b < 0 {
            assert(b * cs <= (-1) * cs) by (nonlinear_arith)
                requires b <= -1 && cs >= 1;
            assert(j < 0);
        }
    }
    assert(j == b * cs + o);
    assert(b * cs <= j);
    assert((b + 1) * cs == b * cs + cs) by (nonlinear_arith);
    assert(j < (b + 1) * cs);
    let q = n / cs;
    let r = n % cs;
    lemma_fundamental_div_mod(n, cs);
    assert(0 <= r < cs);
    // the batch index lies below the chunk count
    if r == 0 {
        assert(b * cs < n);
        assert(n == cs * q + r);
        assert(n == q * cs) by (nonlinear_arith)
            requires n == cs * q + r && r == 0;
        assert(b < q) by {
            if b >= q {
                lemma_mul_inequality(q, b, cs);
            }
        }
        assert(chunk_count(n, cs) == q);
    } else {
        assert(n == q * cs + r);
        assert(b <= q) by {
            if b > q {
                lemma_mul_inequality(q + 1, b, cs);
                assert((q + 1) * cs == q * cs + cs) by (nonlinear_arith);
            }
        }
        assert(chunk_count(n, cs) == q + 1);
    }
    // the record sits inside its chunk
    assert(b * cs <= records.len());
    lemma_chunk_rows_len(records, cs, b);
    if (b + 1) * cs <= n {
        assert(chunk_rows(records, cs, b)[o] == records[b * cs + o]);
    } else {
        assert(chunk_rows(records, cs, b)[o] == records[b * cs + o]);
    }
}

/// Chunk boundary correctness: an input of exactly `k * cs + r` records
/// (`0 <= r < cs`) yields `k` full batches of `cs` rows, plus one final batch
/// of `r` rows when `r > 0` and no trailing empty batch when `r == 0`; every
/// emitted chunk is non-empty.
pub proof fn lemma_chunk_boundaries<T>(records: Seq<T>, cs: int, k: int, r: int)
    requires
        cs >= 1,
        k >= 0,
        0 <= r < cs,
        records.len() == k * cs + r,
    ensures
        chunk_count(records.len() as int, cs) == if r == 0 {
            k
        } else {
            k + 1
        },
        forall|b: int| 0 <= b < k ==> chunk_rows(records, cs, b).len() == cs,
        r > 0 ==> chunk_rows(records, cs, k).len() == r,
        forall|b: int|
            0 <= b < chunk_count(records.len() as int, cs) ==> chunk_rows(
                records,
                cs,
                b,
            ).len() > 0,
{
    let n = records.len() as int;
    lemma_fundamental_div_mod_converse(n, cs, k, r);
    assert forall|b: int| 0 <= b < k implies chunk_rows(records, cs, b).len() == cs by {
        lemma_mul_inequality(b + 1, k, cs);
        assert(k * cs <= n);
        assert(b * cs <= (b + 1) * cs) by (nonlinear_arith)
            requires b >= 0 && cs >= 1;
        lemma_chunk_rows_len(records, cs, b);
    }
    if r > 0 {
        assert(k * cs <= n);
        assert((k + 1) * cs == k * cs + cs) by (nonlinear_arith);
        lemma_chunk_rows_len(records, cs, k);
    }
}

/// Empty input: zero records yield zero batches (and the drivers still
/// finalize the sink successfully).
pub proof fn lemma_empty_input(cs: int)
    requires
        cs >= 1,
    ensures
        chunk_count(0, cs) == 0,
{
}

/// Map fidelity: in a GFF batch, the attribute column of row `i` reproduces
/// exactly the keys of record `i`, in the record's own order, each with its
/// optional value.
pub proof fn lemma_map_fidelity(b: RecordBatch, rows: Seq<GffRecord>, i: int)
    requires
        is_gff_batch(b, rows),
        0 <= i < rows.len(),
    ensures
        b.columns@[8] matches ColumnData::AttrMap(a) && map_row_matches(
            a.offsets@,
            a.keys@,
            a.values@,
            i,
            rows[i].attribute@,
        ),
{
    assert(Seq::new(rows.len(), |t: int| rows[t].attribute@)[i] == rows[i].attribute@);
}

} // verus!
