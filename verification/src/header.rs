//! The header of the merged output.

use vstd::prelude::*;
use crate::concat::concat;
use crate::reader::{FileReader, FileReaderView};

verus! {

/// The header of the merged output.
#[derive(Clone, Debug, PartialEq, Eq)]
pub struct Header {
    /// The annotation lines, in output order.
    pub items: Vec<Vec<u8>>,
    /// The sample identifiers, in column order.
    pub samples: Vec<Vec<u8>>,
}

/// The mathematical value of a [`Header`].
pub struct HeaderView {
    pub items: Seq<Seq<u8>>,
    pub samples: Seq<Seq<u8>>,
}

impl View for Header {
    type V = HeaderView;

    open spec fn view(&self) -> HeaderView {
        HeaderView { items: self.items.deep_view(), samples: self.samples.deep_view() }
    }
}

/// The lines without the last one; no line at all where there is none.
pub open spec fn without_last(lines: Seq<Seq<u8>>) -> Seq<Seq<u8>> {
    if lines.len() == 0 {
        lines
    } else {
        lines.drop_last()
    }
}

/// The sample lists of the sources laid end to end, first source first.
/// A sample identifier that several sources declare occurs once for each.
pub open spec fn merged_samples(readers: Seq<FileReaderView>) -> Seq<Seq<u8>> {
    concat(readers.map_values(|reader: FileReaderView| reader.samples))
}

/// The header of the merged output for the given sources.
pub open spec fn out_header(readers: Seq<FileReaderView>) -> HeaderView {
    HeaderView {
        items: without_last(readers[0].header_lines),
        samples: merged_samples(readers),
    }
}

/// Builds the header of the merged output: the annotation lines of the
/// first source without its last line, and the samples of all sources in
/// source order.
pub fn get_out_header(readers: &Vec<FileReader>) -> (header: Header)
    requires
        readers.len() >= 1,
    ensures
        header@ == out_header(readers.deep_view()),
{
    let n = readers.len();
    let ghost views = readers.deep_view();
    let ghost parts = views.map_values(|reader: FileReaderView| reader.samples);
    let mut all_samples: Vec<Vec<u8>> = Vec::new();
    assert(all_samples.deep_view() =~= concat(parts.take(0)));
    let mut i: usize = 0;
    while i < n
        invariant
            i <= n,
            n == readers.len(),
            views == readers.deep_view(),
            parts == views.map_values(|reader: FileReaderView| reader.samples),
            all_samples.deep_view() == concat(parts.take(i as int)),
        decreases n - i,
    {
        let ghost samples_before = all_samples.deep_view();
        let mut samples = readers[i].samples().clone();
        assert(samples.deep_view() =~= parts[i as int]);
        all_samples.append(&mut samples);
        proof {
            assert(parts.take(i + 1).drop_last() =~= parts.take(i as int));
            assert(all_samples.deep_view() =~= samples_before + parts[i as int]);
        }
        i = i + 1;
    }
    assert(parts.take(n as int) =~= parts);
    let mut items = readers[0].header_lines().clone();
    let ghost lines = items.deep_view();
    assert(lines =~= views[0].header_lines);
    items.pop();
    assert(items.deep_view() =~= without_last(lines));
    Header { items, samples: all_samples }
}

} // verus!
