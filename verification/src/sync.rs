//! Advancing every source by one row and deciding what the row comes to.

use vstd::prelude::*;
use crate::consistency::{check, consistent};
use crate::error::{MergeError, MergeErrorView};
use crate::reader::{FileReader, FileReaderView, ReadOutcome, ReadOutcomeView};

verus! {

/// How many of the outcomes are records.
pub open spec fn rows_read(outcomes: Seq<ReadOutcomeView>) -> nat
    decreases outcomes.len(),
{
    if outcomes.len() == 0 {
        0
    } else {
        rows_read(outcomes.drop_last()) + outcomes.last().count()
    }
}

/// The sources after each has taken in its outcome.
pub open spec fn advanced(readers: Seq<FileReaderView>, outcomes: Seq<ReadOutcomeView>) -> Seq<
    FileReaderView,
> {
    Seq::new(readers.len(), |i: int| readers[i].after(outcomes[i]))
}

/// The first failed read in source order, if any read failed.
pub open spec fn first_failure(outcomes: Seq<ReadOutcomeView>) -> Option<int> {
    if exists|i: int| 0 <= i < outcomes.len() && outcomes[i] is Failed {
        Some(
            choose|i: int|
                0 <= i < outcomes.len() && outcomes[i] is Failed && forall|j: int|
                    0 <= j < i ==> !(outcomes[j] is Failed),
        )
    } else {
        None
    }
}

/// What advancing all sources reports: the number of sources that produced
/// a record, or where a read failed the failure of the first such source.
pub open spec fn advance_result(
    readers: Seq<FileReaderView>,
    outcomes: Seq<ReadOutcomeView>,
) -> Result<nat, MergeErrorView> {
    match first_failure(outcomes) {
        Some(i) => Err(MergeErrorView::ReadFailure { source: readers[i].filename }),
        None => Ok(rows_read(outcomes)),
    }
}

/// What a row comes to, given the sources before the reads and the outcome
/// of each read.
///
/// `Ok(true)`: every source produced a record, and they passed the check
/// where one was asked for. `Ok(false)`: no source produced a record, the
/// sources ended together. A failed read comes first among the errors and
/// names the first source whose read failed; partial exhaustion comes next;
/// a disagreement on the variant is found only on a complete row.
pub open spec fn row_result(
    readers: Seq<FileReaderView>,
    outcomes: Seq<ReadOutcomeView>,
    row: usize,
    check_metadata: bool,
) -> Result<bool, MergeErrorView> {
    match advance_result(readers, outcomes) {
        Err(error) => Err(error),
        Ok(total_read) => {
            if total_read != readers.len() {
                if total_read > 0 {
                    Err(
                        MergeErrorView::PartialExhaustion {
                            row,
                            read: total_read as usize,
                            expected: readers.len() as usize,
                        },
                    )
                } else {
                    Ok(false)
                }
            } else if check_metadata && !consistent(advanced(readers, outcomes)) {
                Err(MergeErrorView::ConsistencyMismatch { row })
            } else {
                Ok(true)
            }
        },
    }
}

/// The value of a result whose error is a [`MergeError`].
pub open spec fn result_view<T>(result: Result<T, MergeError>) -> Result<T, MergeErrorView> {
    match result {
        Ok(value) => Ok(value),
        Err(error) => Err(error@),
    }
}

/// No more records than outcomes.
pub proof fn lemma_rows_read_bound(outcomes: Seq<ReadOutcomeView>)
    ensures
        rows_read(outcomes) <= outcomes.len(),
    decreases outcomes.len(),
{
    if outcomes.len() > 0 {
        lemma_rows_read_bound(outcomes.drop_last());
    }
}

/// As many records as outcomes exactly when every outcome is a record.
pub proof fn lemma_rows_read_all(outcomes: Seq<ReadOutcomeView>)
    ensures
        rows_read(outcomes) == outcomes.len() <==> forall|i: int|
            0 <= i < outcomes.len() ==> outcomes[i] is Row,
    decreases outcomes.len(),
{
    if outcomes.len() > 0 {
        let front = outcomes.drop_last();
        lemma_rows_read_all(front);
        lemma_rows_read_bound(front);
        if rows_read(outcomes) == outcomes.len() {
            assert forall|i: int| 0 <= i < outcomes.len() implies outcomes[i] is Row by {
                if i < front.len() {
                    assert(front[i] == outcomes[i]);
                }
            }
        }
        if forall|i: int| 0 <= i < outcomes.len() ==> outcomes[i] is Row {
            assert forall|i: int| 0 <= i < front.len() implies front[i] is Row by {
                assert(front[i] == outcomes[i]);
            }
        }
    }
}

/// No record at all exactly when no outcome is a record.
pub proof fn lemma_rows_read_none(outcomes: Seq<ReadOutcomeView>)
    ensures
        rows_read(outcomes) == 0 <==> forall|i: int|
            0 <= i < outcomes.len() ==> !(outcomes[i] is Row),
    decreases outcomes.len(),
{
    if outcomes.len() > 0 {
        let front = outcomes.drop_last();
        lemma_rows_read_none(front);
        if rows_read(outcomes) == 0 {
            assert forall|i: int| 0 <= i < outcomes.len() implies !(outcomes[i] is Row) by {
                if i < front.len() {
                    assert(front[i] == outcomes[i]);
                }
            }
        }
        if forall|i: int| 0 <= i < outcomes.len() ==> !(outcomes[i] is Row) {
            assert forall|i: int| 0 <= i < front.len() implies !(front[i] is Row) by {
                assert(front[i] == outcomes[i]);
            }
        }
    }
}

/// Advances every source by one row: each source takes in the outcome of
/// its read, `outcomes` holding them in source order.
///
/// Returns how many sources produced a record. A source that ended counts
/// as none. A failed read is not counted as an end: it is the error, and
/// where several reads failed the error names the first source of them.
/// Every source takes in its outcome in either case.
pub fn advance_all(readers: &mut Vec<FileReader>, outcomes: Vec<ReadOutcome>) -> (read: Result<
    usize,
    MergeError,
>)
    requires
        outcomes.len() == old(readers).len(),
    ensures
        final(readers).deep_view() == advanced(old(readers).deep_view(), outcomes.deep_view()),
        match read {
            Ok(count) => advance_result(old(readers).deep_view(), outcomes.deep_view()) == Ok::<
                nat,
                MergeErrorView,
            >(count as nat),
            Err(error) => advance_result(old(readers).deep_view(), outcomes.deep_view()) == Err::<
                nat,
                MergeErrorView,
            >(error@),
        },
{
    let n = readers.len();
    let ghost before = readers.deep_view();
    let ghost outs = outcomes.deep_view();
    let ghost raw = outcomes@;
    let mut total_read: usize = 0;
    let mut failure: Option<MergeError> = None;
    let ghost mut failed_at: int = -1;
    let mut i: usize = 0;
    for outcome in it: outcomes
        invariant
            it.seq() == raw,
            raw.len() == n,
            outs.len() == n,
            before.len() == n,
            forall|j: int| 0 <= j < n ==> outs[j] == raw[j]@,
            i == it.index(),
            readers.len() == n,
            forall|j: int| 0 <= j < i ==> readers[j]@ == before[j].after(outs[j]),
            forall|j: int| i <= j < n ==> readers[j]@ == before[j],
            total_read == rows_read(outs.take(i as int)),
            total_read <= i,
            failure is None <==> failed_at == -1,
            failure is None ==> forall|j: int| 0 <= j < i ==> !(outs[j] is Failed),
            failure matches Some(error) ==> {
                &&& 0 <= failed_at < i
                &&& outs[failed_at] is Failed
                &&& forall|j: int| 0 <= j < failed_at ==> !(outs[j] is Failed)
                &&& error@ == (MergeErrorView::ReadFailure { source: before[failed_at].filename })
            },
    {
        proof {
            assert(outs.take(i + 1).drop_last() =~= outs.take(i as int));
            assert(outs.take(i + 1).last() == outs[i as int]);
        }
        match readers[i].load_next(outcome) {
            Ok(count) => {
                total_read = total_read + count;
            },
            Err(error) => {
                if failure.is_none() {
                    failure = Some(error);
                    proof {
                        failed_at = i as int;
                    }
                }
            },
        }
        i = i + 1;
    }
    proof {
        assert(outs.take(n as int) =~= outs);
        assert(readers.deep_view() =~= advanced(before, outs));
    }
    match failure {
        Some(error) => {
            proof {
                let k = first_failure(outs)->0;
                assert(k == failed_at);
            }
            Err(error)
        },
        None => {
            assert(first_failure(outs) is None);
            Ok(total_read)
        },
    }
}

/// Advances every source by one row and says what the row comes to.
///
/// `outcomes` holds, in source order, what the read of each source
/// produced. `Ok(true)` says that the row is complete and, where
/// `check_metadata` is set, that its records describe one variant: the row
/// is to be merged. `Ok(false)` says that all sources ended together. `row`
/// is the number of the row for the errors. `serial` selects how the check
/// walks the sources; it has no part in the result.
pub fn read_one_line_from_every_file(
    readers: &mut Vec<FileReader>,
    outcomes: Vec<ReadOutcome>,
    row: usize,
    serial: bool,
    check_metadata: bool,
) -> (result: Result<bool, MergeError>)
    requires
        outcomes.len() == old(readers).len(),
    ensures
        final(readers).deep_view() == advanced(old(readers).deep_view(), outcomes.deep_view()),
        result_view(result) == row_result(
            old(readers).deep_view(),
            outcomes.deep_view(),
            row,
            check_metadata,
        ),
{
    let ghost before = readers.deep_view();
    let total_read = match advance_all(readers, outcomes) {
        Ok(count) => count,
        Err(error) => {
            return Err(error);
        },
    };
    assert(readers.len() == before.len()) by {
        assert(readers.deep_view().len() == advanced(before, outcomes.deep_view()).len());
    }
    if total_read != readers.len() {
        if total_read > 0 {
            return Err(
                MergeError::PartialExhaustion { row, read: total_read, expected: readers.len() },
            );
        }
        return Ok(false);
    }
    if check_metadata {
        if !check(readers, serial) {
            return Err(MergeError::ConsistencyMismatch { row });
        }
    }
    Ok(true)
}

} // verus!
