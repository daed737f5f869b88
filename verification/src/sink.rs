//! The sink writer: the ordered, append-only destination of the batches.
//!
//! A writer is opened by binding a schema and a configuration, accepts an
//! ordered sequence of batches while `Open`, and is closed by an explicit
//! `finalize` that must run exactly once — including when the source produced
//! zero batches.  Writing after `Closed`, or closing twice, is a programmer
//! error and is rejected with `InvalidState`.  The writer decides; the actual
//! encoding of an accepted batch onto the output resource is its caller's
//! I/O.

use vstd::prelude::*;

use crate::batch::RecordBatch;
use crate::error::ConversionError;
use crate::schema::Schema;

verus! {

/// The compression of an input record stream.
#[derive(Debug, Copy, Clone)]
pub enum BioFileCompression {
    UNCOMPRESSED,
    GZIP,
}

/// The compression of the columnar output.
#[derive(Debug, Copy, Clone, PartialEq, Eq, Structural)]
pub enum OutputCompression {
    /// No compression.
    NONE,
    /// A standard general-purpose compressor.
    STANDARD,
}

/// Conversion configuration.
#[derive(Copy, Clone)]
pub struct ConversionConfig {
    /// Output compression.
    pub compression: OutputCompression,
    /// Whether column statistics are recorded in the output.
    pub statistics_enabled: bool,
    /// Number of records per chunk.
    pub chunk_size: usize,
    /// Initial capacity of each column builder: purely a performance hint.
    pub builder_capacity_hint: usize,
}

impl ConversionConfig {
    /// Both sizes must be positive.
    pub open spec fn wf(&self) -> bool {
        &&& self.chunk_size >= 1
        &&& self.builder_capacity_hint >= 1
    }
}

impl Default for ConversionConfig {
    /// The default configuration: standard compression with statistics, 2^20
    /// records per chunk, builders starting at 2048 entries.
    fn default() -> (r: ConversionConfig)
        ensures
            r.wf(),
            r.compression == OutputCompression::STANDARD,
            r.statistics_enabled == true,
            r.chunk_size == 0x100000,
            r.builder_capacity_hint == 2048,
    {
        ConversionConfig {
            compression: OutputCompression::STANDARD,
            statistics_enabled: true,
            chunk_size: 0x100000,
            builder_capacity_hint: 2048,
        }
    }
}

/// The two reachable states of a sink writer.  A writer only exists bound to
/// its output, so `Open` is entered at construction.
#[derive(Copy, Clone, PartialEq, Eq, Structural)]
pub enum SinkState {
    Open,
    Closed,
}

/// The sink writer.  It owns the output binding (schema and configuration)
/// for the whole conversion and accepts batches strictly in input order.
pub struct SinkWriter {
    pub state: SinkState,
    pub schema: Schema,
    pub config: ConversionConfig,
    /// Number of batches accepted so far.
    pub batches_written: usize,
    /// The accepted batches, in acceptance order.
    pub written: Ghost<Seq<RecordBatch>>,
}

impl SinkWriter {
    /// The exec batch count matches the accepted sequence.
    pub open spec fn wf(&self) -> bool {
        self.batches_written == self.written@.len()
    }

    /// Opens a writer: binds the output to a schema and a configuration and
    /// enters the `Open` state.
    pub fn open(schema: Schema, config: ConversionConfig) -> (r: SinkWriter)
        ensures
            r.wf(),
            r.state == SinkState::Open,
            r.schema == schema,
            r.config == config,
            r.written@.len() == 0,
    {
        SinkWriter {
            state: SinkState::Open,
            schema,
            config,
            batches_written: 0,
            written: Ghost(Seq::empty()),
        }
    }

    /// Number of batches accepted so far.
    pub fn batches_written(&self) -> (r: usize)
        ensures
            r == self.batches_written,
            self.wf() ==> r == self.written@.len(),
    {
        self.batches_written
    }

    /// Whether the writer is still open.
    pub fn is_open(&self) -> (r: bool)
        ensures
            r == (self.state == SinkState::Open),
    {
        match self.state {
            SinkState::Open => true,
            SinkState::Closed => false,
        }
    }

    /// Accepts the next batch while `Open` and hands it back for encoding;
    /// rejected with `InvalidState`, changing nothing, once the writer is
    /// `Closed`.
    pub fn write(&mut self, batch: RecordBatch) -> (r: Result<RecordBatch, ConversionError>)
        requires
            old(self).wf(),
            old(self).batches_written < usize::MAX,
        ensures
            final(self).wf(),
            final(self).schema == old(self).schema,
            final(self).config == old(self).config,
            final(self).state == old(self).state,
            match r {
                Ok(b) => {
                    &&& old(self).state == SinkState::Open
                    &&& b == batch
                    &&& final(self).written@ == old(self).written@.push(batch)
                },
                Err(e) => {
                    &&& old(self).state == SinkState::Closed
                    &&& e is InvalidState
                    &&& *final(self) == *old(self)
                },
            },
    {
        match self.state {
            SinkState::Open => {
                self.written = Ghost(self.written@.push(batch));
                self.batches_written = self.batches_written + 1;
                Ok(batch)
            },
            SinkState::Closed => Err(ConversionError::InvalidState),
        }
    }

    /// Flushes buffered metadata and enters `Closed`.  Must run exactly once:
    /// succeeds from `Open` — also after zero writes — and is rejected with
    /// `InvalidState`, changing nothing, when the writer is already `Closed`.
    pub fn finalize(&mut self) -> (r: Result<(), ConversionError>)
        ensures
            final(self).wf() == old(self).wf(),
            final(self).schema == old(self).schema,
            final(self).config == old(self).config,
            final(self).written@ == old(self).written@,
            match r {
                Ok(_) => {
                    &&& old(self).state == SinkState::Open
                    &&& final(self).state == SinkState::Closed
                },
                Err(e) => {
                    &&& old(self).state == SinkState::Closed
                    &&& e is InvalidState
                    &&& *final(self) == *old(self)
                },
            },
    {
        match self.state {
            SinkState::Open => {
                self.state = SinkState::Closed;
                Ok(())
            },
            SinkState::Closed => Err(ConversionError::InvalidState),
        }
    }
}

} // verus!
