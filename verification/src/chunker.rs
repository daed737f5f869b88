//! Chunk accumulation: grouping the record stream into ordered chunks of at
//! most `chunk_size` records, preserving input order within and across
//! chunks.
//!
//! An accumulator is driven one record at a time and never buffers more than
//! one chunk: when the buffered chunk reaches `chunk_size` it is sealed into
//! a batch on the spot and the builders are replaced by fresh ones.  The
//! final, possibly shorter, chunk is sealed by `finish`; an empty final chunk
//! yields no batch.
//!
//! For FASTQ, the accumulator also performs the record-model side effect of
//! assigning `read_number`: a conversion-local monotonic counter starting at
//! 0, never reset between chunks.

use vstd::prelude::*;

use crate::batch::RecordBatch;
use crate::builders::{
    is_fasta_batch, is_fastq_batch, is_gff_batch, FastaBuilderSet, FastqBuilderSet, GffBuilderSet,
};
use crate::record::{with_read_number, FastaRecord, FastqRecord, GffRecord};

verus! {

/// Number of chunks a conversion of `n` records emits with chunk size `cs`:
/// every full chunk, plus the final partial chunk if one is left over.
pub open spec fn chunk_count(n: int, cs: int) -> int {
    if n % cs == 0 {
        n / cs
    } else {
        n / cs + 1
    }
}

/// The records of chunk `b` of a conversion of `records` with chunk size
/// `cs`: the `b`-th group of `cs` consecutive records, shorter at the end of
/// the input.
pub open spec fn chunk_rows<T>(records: Seq<T>, cs: int, b: int) -> Seq<T> {
    records.subrange(
        b * cs,
        if (b + 1) * cs <= records.len() {
            (b + 1) * cs
        } else {
            records.len() as int
        },
    )
}

/// The FASTA chunk accumulator.
pub struct FastaChunker {
    pub chunk_size: usize,
    pub capacity_hint: usize,
    pub builders: FastaBuilderSet,
    /// Number of full chunks sealed so far.
    pub emitted: Ghost<int>,
    /// Every record pushed so far, in order.
    pub history: Ghost<Seq<FastaRecord>>,
}

impl FastaChunker {
    /// The records of the (single) buffered, not yet sealed chunk.
    pub open spec fn buffered(&self) -> Seq<FastaRecord> {
        self.builders.records@
    }

    /// The buffered chunk is strictly shorter than `chunk_size`, and the
    /// history is exactly the emitted full chunks followed by the buffered
    /// records.
    pub open spec fn wf(&self) -> bool {
        &&& self.builders.wf()
        &&& self.chunk_size >= 1
        &&& self.emitted@ >= 0
        &&& self.buffered().len() < self.chunk_size
        &&& self.history@.len() == self.emitted@ * self.chunk_size + self.buffered().len()
        &&& self.buffered() == self.history@.subrange(
            self.emitted@ * self.chunk_size,
            self.history@.len() as int,
        )
    }

    /// A fresh accumulator.  `capacity_hint` is purely a performance hint.
    pub fn new(chunk_size: usize, capacity_hint: usize) -> (r: FastaChunker)
        requires
            chunk_size >= 1,
        ensures
            r.wf(),
            r.chunk_size == chunk_size,
            r.emitted@ == 0,
            r.history@.len() == 0,
    {
        let r = FastaChunker {
            chunk_size,
            capacity_hint,
            builders: FastaBuilderSet::new(capacity_hint),
            emitted: Ghost(0),
            history: Ghost(Seq::empty()),
        };
        proof {
            assert(r.buffered() =~= r.history@.subrange(0, 0));
        }
        r
    }

    /// Number of records of the buffered chunk.
    pub fn buffered_len(&self) -> (r: usize)
        requires
            self.wf(),
        ensures
            r == self.buffered().len(),
    {
        self.builders.len()
    }

    /// Consumes one record, in input order.  When the record completes a full
    /// chunk, that chunk is sealed into a batch and returned; otherwise the
    /// record is only buffered.
    pub fn push(&mut self, rec: FastaRecord) -> (r: Option<RecordBatch>)
        requires
            old(self).wf(),
        ensures
            final(self).wf(),
            final(self).chunk_size == old(self).chunk_size,
            final(self).capacity_hint == old(self).capacity_hint,
            final(self).history@ == old(self).history@.push(rec),
            if old(self).buffered().len() + 1 == old(self).chunk_size {
                &&& r matches Some(b) && is_fasta_batch(b, old(self).buffered().push(rec))
                &&& final(self).emitted@ == old(self).emitted@ + 1
                &&& final(self).buffered().len() == 0
            } else {
                &&& r is None
                &&& final(self).emitted@ == old(self).emitted@
                &&& final(self).buffered() == old(self).buffered().push(rec)
            },
    {
        self.history = Ghost(self.history@.push(rec));
        self.builders.append(rec);
        proof {
            assert(self.buffered() =~= self.history@.subrange(
                self.emitted@ * self.chunk_size,
                self.history@.len() as int,
            ));
        }
        if self.builders.len() == self.chunk_size {
            let mut full = FastaBuilderSet::new(self.capacity_hint);
            core::mem::swap(&mut self.builders, &mut full);
            self.emitted = Ghost(self.emitted@ + 1);
            proof {
                assert(self.emitted@ * self.chunk_size == (self.emitted@ - 1) * self.chunk_size
                    + self.chunk_size) by (nonlinear_arith);
                assert(self.buffered() =~= self.history@.subrange(
                    self.emitted@ * self.chunk_size,
                    self.history@.len() as int,
                ));
            }
            Some(full.seal())
        } else {
            None
        }
    }

    /// Seals the final partial chunk, if it is not empty.  The accumulator is
    /// consumed: it is driven once over the full input.
    pub fn finish(self) -> (r: Option<RecordBatch>)
        requires
            self.wf(),
        ensures
            match r {
                Some(b) => self.buffered().len() > 0 && is_fasta_batch(b, self.buffered()),
                None => self.buffered().len() == 0,
            },
    {
        if self.builders.len() > 0 {
            Some(self.builders.seal())
        } else {
            None
        }
    }
}

/// The FASTQ chunk accumulator; also assigns `read_number`.
pub struct FastqChunker {
    pub chunk_size: usize,
    pub capacity_hint: usize,
    pub builders: FastqBuilderSet,
    /// The read number the next record receives; equals the number of records
    /// consumed, so it is monotonic across the whole conversion.
    pub next_read_number: i64,
    /// Number of full chunks sealed so far.
    pub emitted: Ghost<int>,
    /// Every record pushed so far, with its assigned read number, in order.
    pub history: Ghost<Seq<FastqRecord>>,
}

impl FastqChunker {
    /// The records of the (single) buffered, not yet sealed chunk.
    pub open spec fn buffered(&self) -> Seq<FastqRecord> {
        self.builders.records@
    }

    /// As for FASTA, plus: the read-number counter equals the number of
    /// records consumed.
    pub open spec fn wf(&self) -> bool {
        &&& self.builders.wf()
        &&& self.chunk_size >= 1
        &&& self.emitted@ >= 0
        &&& self.buffered().len() < self.chunk_size
        &&& self.history@.len() == self.emitted@ * self.chunk_size + self.buffered().len()
        &&& self.buffered() == self.history@.subrange(
            self.emitted@ * self.chunk_size,
            self.history@.len() as int,
        )
        &&& self.next_read_number == self.history@.len()
    }

    /// A fresh accumulator.  `capacity_hint` is purely a performance hint.
    pub fn new(chunk_size: usize, capacity_hint: usize) -> (r: FastqChunker)
        requires
            chunk_size >= 1,
        ensures
            r.wf(),
            r.chunk_size == chunk_size,
            r.emitted@ == 0,
            r.history@.len() == 0,
    {
        let r = FastqChunker {
            chunk_size,
            capacity_hint,
            builders: FastqBuilderSet::new(capacity_hint),
            next_read_number: 0,
            emitted: Ghost(0),
            history: Ghost(Seq::empty()),
        };
        proof {
            assert(r.buffered() =~= r.history@.subrange(0, 0));
        }
        r
    }

    /// Number of records of the buffered chunk.
    pub fn buffered_len(&self) -> (r: usize)
        requires
            self.wf(),
        ensures
            r == self.buffered().len(),
    {
        self.builders.len()
    }

    /// The read number the next record receives.
    pub fn next_read_number(&self) -> (r: i64)
        ensures
            r == self.next_read_number,
    {
        self.next_read_number
    }

    /// Consumes one record, in input order, assigning it the next read
    /// number (any read number already present is overwritten: the counter is
    /// pipeline-local, independent of the source).  When the record completes
    /// a full chunk, that chunk is sealed into a batch and returned.
    pub fn push(&mut self, rec: FastqRecord) -> (r: Option<RecordBatch>)
        requires
            old(self).wf(),
            old(self).next_read_number < i64::MAX,
        ensures
            final(self).wf(),
            final(self).chunk_size == old(self).chunk_size,
            final(self).capacity_hint == old(self).capacity_hint,
            final(self).history@ == old(self).history@.push(
                with_read_number(rec, old(self).next_read_number),
            ),
            if old(self).buffered().len() + 1 == old(self).chunk_size {
                &&& r matches Some(b) && is_fastq_batch(
                    b,
                    old(self).buffered().push(with_read_number(rec, old(self).next_read_number)),
                )
                &&& final(self).emitted@ == old(self).emitted@ + 1
                &&& final(self).buffered().len() == 0
            } else {
                &&& r is None
                &&& final(self).emitted@ == old(self).emitted@
                &&& final(self).buffered() == old(self).buffered().push(
                    with_read_number(rec, old(self).next_read_number),
                )
            },
    {
        let mut rec = rec;
        rec.read_number = Some(self.next_read_number);
        self.next_read_number = self.next_read_number + 1;
        self.history = Ghost(self.history@.push(rec));
        self.builders.append(rec);
        proof {
            assert(self.buffered() =~= self.history@.subrange(
                self.emitted@ * self.chunk_size,
                self.history@.len() as int,
            ));
        }
        if self.builders.len() == self.chunk_size {
            let mut full = FastqBuilderSet::new(self.capacity_hint);
            core::mem::swap(&mut self.builders, &mut full);
            self.emitted = Ghost(self.emitted@ + 1);
            proof {
                assert(self.emitted@ * self.chunk_size == (self.emitted@ - 1) * self.chunk_size
                    + self.chunk_size) by (nonlinear_arith);
                assert(self.buffered() =~= self.history@.subrange(
                    self.emitted@ * self.chunk_size,
                    self.history@.len() as int,
                ));
            }
            Some(full.seal())
        } else {
            None
        }
    }

    /// Seals the final partial chunk, if it is not empty.
    pub fn finish(self) -> (r: Option<RecordBatch>)
        requires
            self.wf(),
        ensures
            match r {
                Some(b) => self.buffered().len() > 0 && is_fastq_batch(b, self.buffered()),
                None => self.buffered().len() == 0,
            },
    {
        if self.builders.len() > 0 {
            Some(self.builders.seal())
        } else {
            None
        }
    }
}

/// The GFF chunk accumulator.
pub struct GffChunker {
    pub chunk_size: usize,
    pub capacity_hint: usize,
    pub builders: GffBuilderSet,
    /// Number of full chunks sealed so far.
    pub emitted: Ghost<int>,
    /// Every record pushed so far, in order.
    pub history: Ghost<Seq<GffRecord>>,
}

impl GffChunker {
    /// The records of the (single) buffered, not yet sealed chunk.
    pub open spec fn buffered(&self) -> Seq<GffRecord> {
        self.builders.records@
    }

    /// The buffered chunk is strictly shorter than `chunk_size`, and the
    /// history is exactly the emitted full chunks followed by the buffered
    /// records.
    pub open spec fn wf(&self) -> bool {
        &&& self.builders.wf()
        &&& self.chunk_size >= 1
        &&& self.emitted@ >= 0
        &&& self.buffered().len() < self.chunk_size
        &&& self.history@.len() == self.emitted@ * self.chunk_size + self.buffered().len()
        &&& self.buffered() == self.history@.subrange(
            self.emitted@ * self.chunk_size,
            self.history@.len() as int,
        )
    }

    /// A fresh accumulator.  `capacity_hint` is purely a performance hint.
    pub fn new(chunk_size: usize, capacity_hint: usize) -> (r: GffChunker)
        requires
            chunk_size >= 1,
        ensures
            r.wf(),
            r.chunk_size == chunk_size,
            r.emitted@ == 0,
            r.history@.len() == 0,
    {
        let r = GffChunker {
            chunk_size,
            capacity_hint,
            builders: GffBuilderSet::new(capacity_hint),
            emitted: Ghost(0),
            history: Ghost(Seq::empty()),
        };
        proof {
            assert(r.buffered() =~= r.history@.subrange(0, 0));
        }
        r
    }

    /// Number of records of the buffered chunk.
    pub fn buffered_len(&self) -> (r: usize)
        requires
            self.wf(),
        ensures
            r == self.buffered().len(),
    {
        self.builders.len()
    }

    /// Consumes one record, in input order.  When the record completes a full
    /// chunk, that chunk is sealed into a batch and returned; otherwise the
    /// record is only buffered.
    pub fn push(&mut self, rec: GffRecord) -> (r: Option<RecordBatch>)
        requires
            old(self).wf(),
        ensures
            final(self).wf(),
            final(self).chunk_size == old(self).chunk_size,
            final(self).capacity_hint == old(self).capacity_hint,
            final(self).history@ == old(self).history@.push(rec),
            if old(self).buffered().len() + 1 == old(self).chunk_size {
                &&& r matches Some(b) && is_gff_batch(b, old(self).buffered().push(rec))
                &&& final(self).emitted@ == old(self).emitted@ + 1
                &&& final(self).buffered().len() == 0
            } else {
                &&& r is None
                &&& final(self).emitted@ == old(self).emitted@
                &&& final(self).buffered() == old(self).buffered().push(rec)
            },
    {
        self.history = Ghost(self.history@.push(rec));
        self.builders.append(rec);
        proof {
            assert(self.buffered() =~= self.history@.subrange(
                self.emitted@ * self.chunk_size,
                self.history@.len() as int,
            ));
        }
        if self.builders.len() == self.chunk_size {
            let mut full = GffBuilderSet::new(self.capacity_hint);
            core::mem::swap(&mut self.builders, &mut full);
            self.emitted = Ghost(self.emitted@ + 1);
            proof {
                assert(self.emitted@ * self.chunk_size == (self.emitted@ - 1) * self.chunk_size
                    + self.chunk_size) by (nonlinear_arith);
                assert(self.buffered() =~= self.history@.subrange(
                    self.emitted@ * self.chunk_size,
                    self.history@.len() as int,
                ));
            }
            Some(full.seal())
        } else {
            None
        }
    }

    /// Seals the final partial chunk, if it is not empty.
    pub fn finish(self) -> (r: Option<RecordBatch>)
        requires
            self.wf(),
        ensures
            match r {
                Some(b) => self.buffered().len() > 0 && is_gff_batch(b, self.buffered()),
                None => self.buffered().len() == 0,
            },
    {
        if self.builders.len() > 0 {
            Some(self.builders.seal())
        } else {
            None
        }
    }
}

} // verus!
