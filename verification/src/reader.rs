//! One input source: its header metadata and the record it is positioned at.

use vstd::prelude::*;
use crate::error::{MergeError, MergeErrorView};
use crate::record::{same_variant, Record, RecordView};

verus! {

/// What one attempt to read the next record of a source produced.
#[derive(Clone, Debug, PartialEq, Eq)]
pub enum ReadOutcome {
    /// The source had another record.
    Row(Record),
    /// The source ended cleanly.
    End,
    /// The read failed: a malformed record or a broken stream.
    Failed,
}

/// The mathematical value of a [`ReadOutcome`].
pub enum ReadOutcomeView {
    Row(RecordView),
    End,
    Failed,
}

impl View for ReadOutcome {
    type V = ReadOutcomeView;

    open spec fn view(&self) -> ReadOutcomeView {
        match self {
            ReadOutcome::Row(record) => ReadOutcomeView::Row(record@),
            ReadOutcome::End => ReadOutcomeView::End,
            ReadOutcome::Failed => ReadOutcomeView::Failed,
        }
    }
}

impl ReadOutcomeView {
    /// The record a source is positioned at after this outcome.
    pub open spec fn record(self) -> Option<RecordView> {
        match self {
            ReadOutcomeView::Row(record) => Some(record),
            _ => None,
        }
    }

    /// How many records this outcome adds to a row: 1 for a record, else 0.
    pub open spec fn count(self) -> nat {
        if self is Row {
            1
        } else {
            0
        }
    }
}

/// One input source.
#[derive(Debug)]
pub struct FileReader {
    filename: String,
    header_lines: Vec<Vec<u8>>,
    samples: Vec<Vec<u8>>,
    vcf_record: Option<Record>,
}

/// The mathematical value of a [`FileReader`].
pub struct FileReaderView {
    /// The identifier of the source.
    pub filename: Seq<char>,
    /// The annotation lines of its header, in file order.
    pub header_lines: Seq<Seq<u8>>,
    /// The sample identifiers its header declares, in column order.
    pub samples: Seq<Seq<u8>>,
    /// The record it is positioned at; `None` before the first read, after
    /// its end and after a failed read.
    pub record: Option<RecordView>,
}

impl FileReaderView {
    /// The source after an attempt to read with the given outcome: only the
    /// current record changes.
    pub open spec fn after(self, outcome: ReadOutcomeView) -> FileReaderView {
        FileReaderView { record: outcome.record(), ..self }
    }

    /// What `load_next` reports for the given outcome.
    pub open spec fn load_result(self, outcome: ReadOutcomeView) -> Result<usize, MergeErrorView> {
        match outcome {
            ReadOutcomeView::Row(_) => Ok(1),
            ReadOutcomeView::End => Ok(0),
            ReadOutcomeView::Failed => Err(MergeErrorView::ReadFailure { source: self.filename }),
        }
    }

    /// Whether this source is positioned at a record that describes the same
    /// variant as the record `origin` is positioned at.
    pub open spec fn agrees_with(self, origin: FileReaderView) -> bool {
        match (origin.record, self.record) {
            (Some(a), Some(b)) => same_variant(a, b),
            _ => false,
        }
    }
}

impl DeepView for ReadOutcome {
    type V = ReadOutcomeView;

    open spec fn deep_view(&self) -> ReadOutcomeView {
        self@
    }
}

impl DeepView for FileReader {
    type V = FileReaderView;

    open spec fn deep_view(&self) -> FileReaderView {
        self@
    }
}

impl View for FileReader {
    type V = FileReaderView;

    closed spec fn view(&self) -> FileReaderView {
        FileReaderView {
            filename: self.filename@,
            header_lines: self.header_lines.deep_view(),
            samples: self.samples.deep_view(),
            record: match self.vcf_record {
                Some(record) => Some(record@),
                None => None,
            },
        }
    }
}

impl FileReader {
    /// A source that has not been read from yet.
    pub fn new(filename: &str, header_lines: Vec<Vec<u8>>, samples: Vec<Vec<u8>>) -> (reader:
        FileReader)
        ensures
            reader@ == (FileReaderView {
                filename: filename@,
                header_lines: header_lines.deep_view(),
                samples: samples.deep_view(),
                record: None,
            }),
    {
        FileReader { filename: filename.to_owned(), header_lines, samples, vcf_record: None }
    }

    /// Takes in the outcome of one read. A record becomes the current record
    /// and counts 1; a clean end counts 0; a failed read is an error that
    /// names this source. Without a record the source has no current record.
    pub fn load_next(&mut self, outcome: ReadOutcome) -> (read: Result<usize, MergeError>)
        ensures
            final(self)@ == old(self)@.after(outcome@),
            read is Ok <==> !(outcome@ is Failed),
            match read {
                Ok(count) => Ok::<usize, MergeErrorView>(count) == old(self)@.load_result(
                    outcome@,
                ),
                Err(error) => Err::<usize, MergeErrorView>(error@) == old(self)@.load_result(
                    outcome@,
                ),
            },
    {
        match outcome {
            ReadOutcome::Row(record) => {
                self.vcf_record = Some(record);
                Ok(1)
            },
            ReadOutcome::End => {
                self.vcf_record = None;
                Ok(0)
            },
            ReadOutcome::Failed => {
                self.vcf_record = None;
                Err(MergeError::ReadFailure { source: self.filename.clone() })
            },
        }
    }

    /// Whether this source and `origin` are both positioned at a record and
    /// the two records describe the same variant.
    pub fn check_meta(&self, origin: &Self) -> (same: bool)
        ensures
            same == self@.agrees_with(origin@),
    {
        match (&origin.vcf_record, &self.vcf_record) {
            (Some(a), Some(b)) => a.same_variant_as(b),
            _ => false,
        }
    }

    /// Whether [`check_meta`](Self::check_meta) fails of this source and
    /// `origin`.
    pub fn differs_from(&self, origin: &Self) -> (differs: bool)
        ensures
            differs == !self@.agrees_with(origin@),
    {
        !self.check_meta(origin)
    }

    /// The identifier of the source.
    pub fn filename(&self) -> (name: &String)
        ensures
            name@ == self@.filename,
    {
        &self.filename
    }

    /// The sample identifiers that the header of the source declares.
    pub fn samples(&self) -> (samples: &Vec<Vec<u8>>)
        ensures
            samples.deep_view() == self@.samples,
    {
        &self.samples
    }

    /// The annotation lines of the header of the source.
    pub fn header_lines(&self) -> (lines: &Vec<Vec<u8>>)
        ensures
            lines.deep_view() == self@.header_lines,
    {
        &self.header_lines
    }

    /// The record the source is positioned at, if any.
    pub fn record(&self) -> (record: Option<&Record>)
        ensures
            match record {
                Some(r) => self@.record == Some(r@),
                None => self@.record is None,
            },
    {
        self.vcf_record.as_ref()
    }
}

} // verus!
