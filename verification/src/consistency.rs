//! The check that the records of one row describe one variant.

use rayon::iter::{IndexedParallelIterator, IntoParallelRefIterator, ParallelIterator};
use vstd::prelude::*;
use crate::reader::{FileReader, FileReaderView};

verus! {

/// Some source after the first is not positioned at the variant that the
/// first source is positioned at.
pub open spec fn disagreement(readers: Seq<FileReaderView>) -> bool {
    exists|i: int| 1 <= i < readers.len() && !(#[trigger] readers[i]).agrees_with(readers[0])
}

/// Every source after the first is positioned at the variant that the
/// first source is positioned at. The first source is the reference of the
/// comparison. The columns compared are chromosome, position, identifiers,
/// reference allele and alternative alleles, each value for value.
pub open spec fn consistent(readers: Seq<FileReaderView>) -> bool {
    forall|i: int| 1 <= i < readers.len() ==> (#[trigger] readers[i]).agrees_with(readers[0])
}

/// A row is consistent exactly when no source disagrees with the first.
pub proof fn lemma_consistent_iff_no_disagreement(readers: Seq<FileReaderView>)
    ensures
        consistent(readers) <==> !disagreement(readers),
{
}

/// Whether the current records of all sources describe one variant.
///
/// `serial` selects how the sources are walked, one after the other on the
/// calling thread or handed out to worker threads; it has no part in the
/// result.
pub fn check(readers: &Vec<FileReader>, serial: bool) -> (all_agree: bool)
    ensures
        all_agree == consistent(readers.deep_view()),
{
    let has_problem = if serial {
        any_disagrees(readers)
    } else {
        any_disagrees_parallel(readers)
    };
    !has_problem
}

/// Looks for a source after the first that is not positioned at the variant
/// of the first, one source at a time in source order.
fn any_disagrees(readers: &Vec<FileReader>) -> (found: bool)
    ensures
        found == disagreement(readers.deep_view()),
{
    let n = readers.len();
    let mut i: usize = 1;
    while i < n
        invariant
            n == readers.len(),
            1 <= i,
            forall|j: int| 1 <= j < i && j < n ==> readers[j]@.agrees_with(readers[0]@),
        decreases n - i,
    {
        if readers[i].differs_from(&readers[0]) {
            assert(!readers.deep_view()[i as int].agrees_with(readers.deep_view()[0]));
            return true;
        }
        i = i + 1;
    }
    assert(!disagreement(readers.deep_view())) by {
        assert forall|j: int| 1 <= j < readers.deep_view().len() implies readers.deep_view()[j].agrees_with(
            readers.deep_view()[0],
        ) by {
            assert(readers[j]@.agrees_with(readers[0]@));
        }
    }
    false
}

/// The same search with the sources handed out to worker threads, by
/// `rayon`: `par_iter` over the sources, `skip` of the first, and `any`
/// with [`FileReader::differs_from`] against the first source as the
/// predicate.
///
/// Not proved. The contract takes from `rayon` that `skip(1)` leaves out
/// the first item and no other, that `any` calls the predicate on items of
/// the iterator only and returns whether it holds of some item, and from
/// `differs_from` what the predicate returns.
#[verifier::external_body]
fn any_disagrees_parallel(readers: &Vec<FileReader>) -> (found: bool)
    ensures
        found == disagreement(readers.deep_view()),
{
    readers.par_iter().skip(1).any(|reader| reader.differs_from(&readers[0]))
}

} // verus!
