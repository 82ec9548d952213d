//! The row loop as a state machine: what to do with each row that was read.

use vstd::prelude::*;
use crate::error::MergeError;
use crate::header::{get_out_header, out_header, Header};
use crate::merge::{all_positioned, current_records, join_vcf_records, merged_record};
use crate::reader::{FileReader, FileReaderView, ReadOutcome, ReadOutcomeView};
use crate::record::Record;
use crate::sync::{
    advanced, lemma_rows_read_all, read_one_line_from_every_file, result_view, row_result,
    rows_read,
};

verus! {

/// Where a merge run stands.
#[derive(Clone, Copy, Debug, PartialEq, Eq, Structural)]
pub enum Phase {
    /// The sources are known; the header has not been built.
    Init,
    /// Waiting for the outcomes of the next row.
    Reading,
    /// Every source produced a record for the current row; the merged
    /// record has not been taken yet.
    Emitting,
    /// The sources ended together. Terminal.
    Done,
    /// The run failed. Terminal.
    Failed,
}

/// A merge run over a fixed list of sources.
#[derive(Debug)]
pub struct MergeDriver {
    readers: Vec<FileReader>,
    row: usize,
    serial: bool,
    check: bool,
    phase: Phase,
}

/// The mathematical value of a [`MergeDriver`].
pub struct MergeDriverView {
    /// The sources, in source order.
    pub readers: Seq<FileReaderView>,
    /// The number of the row that is read or emitted next, counted from 1.
    pub row: usize,
    /// Whether the check walks the sources one at a time.
    pub serial: bool,
    /// Whether rows are checked for describing one variant.
    pub check: bool,
    /// Where the run stands.
    pub phase: Phase,
}

/// The phase that follows `Reading` for a row that came to `result`.
pub open spec fn phase_after<E>(result: Result<bool, E>) -> Phase {
    match result {
        Ok(true) => Phase::Emitting,
        Ok(false) => Phase::Done,
        Err(_) => Phase::Failed,
    }
}

impl MergeDriverView {
    /// What holds of every run: there is a source, rows are counted from 1,
    /// and while a row waits to be emitted every source is positioned at a
    /// record.
    pub open spec fn wf(self) -> bool {
        &&& self.readers.len() >= 1
        &&& self.row >= 1
        &&& self.phase == Phase::Emitting ==> all_positioned(self.readers)
    }

    /// The run after the header was built.
    pub open spec fn started(self) -> MergeDriverView {
        MergeDriverView { phase: Phase::Reading, ..self }
    }

    /// The run after the outcomes of one row were taken in.
    pub open spec fn advanced(self, outcomes: Seq<ReadOutcomeView>) -> MergeDriverView {
        MergeDriverView {
            readers: advanced(self.readers, outcomes),
            phase: phase_after(row_result(self.readers, outcomes, self.row, self.check)),
            ..self
        }
    }

    /// The run after the merged record of the current row was taken: the
    /// row is counted and the run reads again. The sources keep their
    /// records until the next read.
    pub open spec fn emitted(self) -> MergeDriverView {
        MergeDriverView { row: (self.row + 1) as usize, phase: Phase::Reading, ..self }
    }
}

impl View for MergeDriver {
    type V = MergeDriverView;

    closed spec fn view(&self) -> MergeDriverView {
        MergeDriverView {
            readers: self.readers.deep_view(),
            row: self.row,
            serial: self.serial,
            check: self.check,
            phase: self.phase,
        }
    }
}

impl MergeDriver {
    /// A run over the given sources, before anything was read. Rows are
    /// counted from 1.
    pub fn new(readers: Vec<FileReader>, serial: bool, check: bool) -> (driver: MergeDriver)
        requires
            readers.len() >= 1,
        ensures
            driver@.wf(),
            driver@ == (MergeDriverView {
                readers: readers.deep_view(),
                row: 1,
                serial,
                check,
                phase: Phase::Init,
            }),
    {
        MergeDriver { readers, row: 1, serial, check, phase: Phase::Init }
    }

    /// Where the run stands.
    pub fn phase(&self) -> (phase: Phase)
        ensures
            phase == self@.phase,
    {
        self.phase
    }

    /// The number of the row that is read or emitted next.
    pub fn row(&self) -> (row: usize)
        ensures
            row == self@.row,
    {
        self.row
    }

    /// The number of sources.
    pub fn source_count(&self) -> (count: usize)
        ensures
            count == self@.readers.len(),
    {
        self.readers.len()
    }

    /// The sources, in source order.
    pub fn readers(&self) -> (readers: &Vec<FileReader>)
        ensures
            readers.deep_view() == self@.readers,
    {
        &self.readers
    }

    /// Builds the header of the output and goes on to reading.
    pub fn start(&mut self) -> (header: Header)
        requires
            old(self)@.wf(),
            old(self)@.phase == Phase::Init,
        ensures
            final(self)@.wf(),
            header@ == out_header(old(self)@.readers),
            final(self)@ == old(self)@.started(),
    {
        let header = get_out_header(&self.readers);
        self.phase = Phase::Reading;
        header
    }

    /// Takes in the outcomes of the reads of one row, one per source in
    /// source order, and says what the row comes to: `Ok(true)` where the
    /// merged record is to be emitted, `Ok(false)` where the run is done.
    pub fn advance(&mut self, outcomes: Vec<ReadOutcome>) -> (result: Result<bool, MergeError>)
        requires
            old(self)@.wf(),
            old(self)@.phase == Phase::Reading,
            outcomes.len() == old(self)@.readers.len(),
        ensures
            final(self)@.wf(),
            result_view(result) == row_result(
                old(self)@.readers,
                outcomes.deep_view(),
                old(self)@.row,
                old(self)@.check,
            ),
            final(self)@ == old(self)@.advanced(outcomes.deep_view()),
    {
        let ghost before = self.readers.deep_view();
        let ghost outs = outcomes.deep_view();
        let result = read_one_line_from_every_file(
            &mut self.readers,
            outcomes,
            self.row,
            self.serial,
            self.check,
        );
        proof {
            if result_view(result) == Ok::<bool, crate::error::MergeErrorView>(true) {
                lemma_rows_read_all(outs);
                assert(rows_read(outs) == before.len());
                assert forall|i: int| 0 <= i < before.len() implies (#[trigger] advanced(
                    before,
                    outs,
                )[i]).record is Some by {
                    assert(outs[i] is Row);
                }
            }
        }
        self.phase = match &result {
            Ok(true) => Phase::Emitting,
            Ok(false) => Phase::Done,
            Err(_) => Phase::Failed,
        };
        result
    }

    /// Hands out the merged record of the current row, counts the row and
    /// goes back to reading. The sources stay positioned at the records of
    /// the row.
    pub fn emit(&mut self) -> (record: Record)
        requires
            old(self)@.wf(),
            old(self)@.phase == Phase::Emitting,
            old(self)@.row < usize::MAX,
        ensures
            final(self)@.wf(),
            record@ == merged_record(current_records(old(self)@.readers)),
            final(self)@ == old(self)@.emitted(),
    {
        self.phase = Phase::Reading;
        let record = join_vcf_records(&mut self.readers);
        self.row = self.row + 1;
        record
    }
}

} // verus!
