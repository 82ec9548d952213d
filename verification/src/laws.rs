//! What holds of the merge engine whatever the sources hold.

use vstd::prelude::*;
use crate::concat::{lemma_concat_block, lemma_concat_len, offset, total_len};
use crate::driver::{MergeDriverView, Phase};
use crate::error::MergeErrorView;
use crate::header::{merged_samples, out_header};
use crate::merge::{all_positioned, current_records, joined_genotypes, merged_record};
use crate::reader::{FileReaderView, ReadOutcomeView};
use crate::record::{same_variant, RecordView};
use crate::run::{consistent_at, outcomes_at, records_at, rows_of, run};
use crate::consistency::consistent;
use crate::sync::{
    advanced, first_failure, lemma_rows_read_all, lemma_rows_read_bound, lemma_rows_read_none,
    row_result, rows_read,
};

verus! {

/// No read of the row failed.
pub open spec fn no_failure(outcomes: Seq<ReadOutcomeView>) -> bool {
    forall|i: int| 0 <= i < outcomes.len() ==> !(#[trigger] outcomes[i] is Failed)
}

/// The records of a row on which every source produced one.
pub open spec fn row_records(outcomes: Seq<ReadOutcomeView>) -> Seq<RecordView> {
    outcomes.map_values(|outcome: ReadOutcomeView| outcome->Row_0)
}

/// Alignment, the normal end: a row on which every source ends is the end of
/// the run, and no error.
pub proof fn lemma_ending_together_is_normal(
    readers: Seq<FileReaderView>,
    outcomes: Seq<ReadOutcomeView>,
    row: usize,
    check_metadata: bool,
)
    requires
        readers.len() >= 1,
        outcomes.len() == readers.len(),
        forall|i: int| 0 <= i < outcomes.len() ==> outcomes[i] is End,
    ensures
        row_result(readers, outcomes, row, check_metadata) == Ok::<bool, MergeErrorView>(false),
{
    lemma_rows_read_none(outcomes);
}

/// Alignment, the desynchronization: a row on which source `a` ends while
/// source `b` has a record is a partial exhaustion, reported with the row
/// and with how many of the sources had a record. No such row is emitted.
pub proof fn lemma_ending_apart_is_partial_exhaustion(
    readers: Seq<FileReaderView>,
    outcomes: Seq<ReadOutcomeView>,
    row: usize,
    check_metadata: bool,
    a: int,
    b: int,
)
    requires
        outcomes.len() == readers.len(),
        readers.len() <= usize::MAX,
        no_failure(outcomes),
        0 <= a < outcomes.len(),
        0 <= b < outcomes.len(),
        outcomes[a] is End,
        outcomes[b] is Row,
    ensures
        0 < rows_read(outcomes) < readers.len(),
        row_result(readers, outcomes, row, check_metadata) == Err::<bool, MergeErrorView>(
            MergeErrorView::PartialExhaustion {
                row,
                read: rows_read(outcomes) as usize,
                expected: readers.len() as usize,
            },
        ),
{
    lemma_rows_read_bound(outcomes);
    lemma_rows_read_all(outcomes);
    lemma_rows_read_none(outcomes);
}

/// A failed read is reported before anything else, with the identifier of
/// the first source whose read failed.
pub proof fn lemma_failed_read_is_reported(
    readers: Seq<FileReaderView>,
    outcomes: Seq<ReadOutcomeView>,
    row: usize,
    check_metadata: bool,
    i: int,
)
    requires
        outcomes.len() == readers.len(),
        0 <= i < outcomes.len(),
        outcomes[i] is Failed,
        forall|j: int| 0 <= j < i ==> !(outcomes[j] is Failed),
    ensures
        row_result(readers, outcomes, row, check_metadata) == Err::<bool, MergeErrorView>(
            MergeErrorView::ReadFailure { source: readers[i].filename },
        ),
{
    let k = first_failure(outcomes)->0;
    assert(k == i);
}

/// A row is emitted only if every source advanced: where a row comes to
/// `Ok(true)`, every outcome is a record, every source is positioned at its
/// record, and with the check on all records describe the variant of the
/// first.
pub proof fn lemma_emitted_row_is_complete(
    readers: Seq<FileReaderView>,
    outcomes: Seq<ReadOutcomeView>,
    row: usize,
    check_metadata: bool,
)
    requires
        outcomes.len() == readers.len(),
        row_result(readers, outcomes, row, check_metadata) == Ok::<bool, MergeErrorView>(true),
    ensures
        forall|i: int| 0 <= i < outcomes.len() ==> outcomes[i] is Row,
        all_positioned(advanced(readers, outcomes)),
        current_records(advanced(readers, outcomes)) == row_records(outcomes),
        check_metadata ==> forall|i: int|
            0 <= i < outcomes.len() ==> same_variant(
                row_records(outcomes)[0],
                #[trigger] row_records(outcomes)[i],
            ),
{
    lemma_rows_read_all(outcomes);
    let after = advanced(readers, outcomes);
    assert forall|i: int| 0 <= i < after.len() implies (#[trigger] after[i]).record is Some by {
        assert(outcomes[i] is Row);
    }
    assert(current_records(after) =~= row_records(outcomes));
    if check_metadata {
        assert forall|i: int| 0 <= i < outcomes.len() implies same_variant(
            row_records(outcomes)[0],
            #[trigger] row_records(outcomes)[i],
        ) by {
            if i >= 1 {
                assert(after[i].agrees_with(after[0]));
            }
        }
    }
}

/// Order preservation: the genotype columns of a merged record are those of
/// the records of its row, in source order. They are as many as the records
/// hold together, and the columns of record `i` stand unchanged at their
/// offset. The other columns are those of the first record.
pub proof fn lemma_merge_preserves_order(records: Seq<RecordView>, i: int)
    requires
        0 <= i < records.len(),
    ensures
        merged_record(records).genotype == joined_genotypes(records),
        merged_record(records) == (RecordView {
            genotype: merged_record(records).genotype,
            ..records[0]
        }),
        joined_genotypes(records).len() == total_len(
            records.map_values(|record: RecordView| record.genotype),
        ),
        ({
            let parts = records.map_values(|record: RecordView| record.genotype);
            &&& 0 <= offset(parts, i)
            &&& offset(parts, i) + records[i].genotype.len() <= joined_genotypes(records).len()
            &&& joined_genotypes(records).subrange(
                offset(parts, i),
                offset(parts, i) + records[i].genotype.len(),
            ) == records[i].genotype
        }),
{
    let parts = records.map_values(|record: RecordView| record.genotype);
    lemma_concat_len(parts);
    lemma_concat_block(parts, i);
}

/// Header concatenation: the merged sample list is as long as the sample
/// lists of the sources together, and the list of source `i` stands in it
/// unchanged, as the block that starts where the lists before it end.
/// Nothing is removed where sources declare the same sample.
pub proof fn lemma_header_concatenates_samples(readers: Seq<FileReaderView>, i: int)
    requires
        0 <= i < readers.len(),
    ensures
        out_header(readers).samples == merged_samples(readers),
        merged_samples(readers).len() == total_len(
            readers.map_values(|reader: FileReaderView| reader.samples),
        ),
        ({
            let parts = readers.map_values(|reader: FileReaderView| reader.samples);
            &&& 0 <= offset(parts, i)
            &&& offset(parts, i) + readers[i].samples.len() <= merged_samples(readers).len()
            &&& merged_samples(readers).subrange(
                offset(parts, i),
                offset(parts, i) + readers[i].samples.len(),
            ) == readers[i].samples
        }),
{
    let parts = readers.map_values(|reader: FileReaderView| reader.samples);
    lemma_concat_len(parts);
    lemma_concat_block(parts, i);
}

/// Soundness of the check, accepting: two sources positioned at records
/// with equal chromosome, position, identifiers, reference and alternatives
/// agree, whatever else the records hold, and the check of the two is true.
pub proof fn lemma_check_accepts_equal_identity(
    origin: FileReaderView,
    other: FileReaderView,
    a: RecordView,
    b: RecordView,
)
    requires
        origin.record == Some(a),
        other.record == Some(b),
        a.chromosome == b.chromosome,
        a.position == b.position,
        a.id == b.id,
        a.reference == b.reference,
        a.alternative == b.alternative,
    ensures
        same_variant(a, b),
        other.agrees_with(origin),
        consistent(seq![origin, other]),
{
}

/// Soundness of the check, rejecting: where two records agree, a record
/// that differs from the second in any of the five identity columns does
/// not agree with the first, and the check of the two is false.
pub proof fn lemma_check_rejects_changed_identity(
    origin: FileReaderView,
    other: FileReaderView,
    a: RecordView,
    b: RecordView,
    changed: RecordView,
)
    requires
        same_variant(a, b),
        origin.record == Some(a),
        other.record == Some(changed),
        changed.chromosome != b.chromosome || changed.position != b.position || changed.id
            != b.id || changed.reference != b.reference || changed.alternative != b.alternative,
    ensures
        !same_variant(a, changed),
        !other.agrees_with(origin),
        !consistent(seq![origin, other]),
{
    let pair = seq![origin, other];
    assert(!pair[1].agrees_with(pair[0]));
}

/// The check decides a complete row of two sources: with the check on it
/// is emitted exactly when the two records describe the same variant, and
/// else is a mismatch reported with the row; with the check off it is
/// emitted whatever the records hold.
pub proof fn lemma_check_decides_row_of_two(
    first: FileReaderView,
    second: FileReaderView,
    a: RecordView,
    b: RecordView,
    row: usize,
)
    ensures
        row_result(
            seq![first, second],
            seq![ReadOutcomeView::Row(a), ReadOutcomeView::Row(b)],
            row,
            true,
        ) == if same_variant(a, b) {
            Ok::<bool, MergeErrorView>(true)
        } else {
            Err::<bool, MergeErrorView>(MergeErrorView::ConsistencyMismatch { row })
        },
        row_result(
            seq![first, second],
            seq![ReadOutcomeView::Row(a), ReadOutcomeView::Row(b)],
            row,
            false,
        ) == Ok::<bool, MergeErrorView>(true),
{
    let readers = seq![first, second];
    let outcomes = seq![ReadOutcomeView::Row(a), ReadOutcomeView::Row(b)];
    lemma_rows_read_all(outcomes);
    let after = advanced(readers, outcomes);
    assert(after[0].record == Some(a));
    assert(after[1].record == Some(b));
    if same_variant(a, b) {
        assert(after[1].agrees_with(after[0]));
    } else {
        assert(!after[1].agrees_with(after[0]));
    }
}

/// Mode equivalence: two runs that differ in nothing but the way the check
/// walks the sources take every row to the same result, go on to the same
/// phase with the same sources, and emit the same record.
pub proof fn lemma_mode_has_no_effect(
    serial: MergeDriverView,
    parallel: MergeDriverView,
    outcomes: Seq<ReadOutcomeView>,
)
    requires
        parallel == (MergeDriverView { serial: parallel.serial, ..serial }),
    ensures
        row_result(serial.readers, outcomes, serial.row, serial.check) == row_result(
            parallel.readers,
            outcomes,
            parallel.row,
            parallel.check,
        ),
        parallel.started() == (MergeDriverView { serial: parallel.serial, ..serial.started() }),
        parallel.advanced(outcomes) == (MergeDriverView {
            serial: parallel.serial,
            ..serial.advanced(outcomes)
        }),
        parallel.emitted() == (MergeDriverView { serial: parallel.serial, ..serial.emitted() }),
        merged_record(current_records(parallel.readers)) == merged_record(
            current_records(serial.readers),
        ),
{
}

/// The rows before the shortest stream ends are all emitted: a run over the
/// rows of streams of which each holds at least `full` rows, taken from row
/// `from` on, emits the merged records of the rows up to `full` in order,
/// and what it comes to is what the rest of the rows comes to for a driver
/// that has counted those rows.
proof fn lemma_run_emits_complete_rows(
    driver: MergeDriverView,
    streams: Seq<Seq<RecordView>>,
    from: int,
    count: nat,
    full: int,
) -> (after: MergeDriverView)
    requires
        streams.len() == driver.readers.len(),
        0 <= from <= full,
        full - from <= count,
        forall|i: int| 0 <= i < streams.len() ==> full <= (#[trigger] streams[i]).len(),
        driver.check ==> forall|k: int| from <= k < full ==> consistent_at(streams, k),
        driver.row + (full - from) <= usize::MAX,
    ensures
        after.readers.len() == driver.readers.len(),
        after.row == driver.row + (full - from),
        after.check == driver.check,
        after.serial == driver.serial,
        ({
            let whole = run(driver, rows_of(streams, from, count));
            let rest = run(after, rows_of(streams, full, (count - (full - from)) as nat));
            &&& whole.emitted.len() == (full - from) + rest.emitted.len()
            &&& forall|k: int|
                0 <= k < full - from ==> #[trigger] whole.emitted[k] == merged_record(
                    records_at(streams, from + k),
                )
            &&& forall|k: int|
                0 <= k < rest.emitted.len() ==> whole.emitted[(full - from) + k]
                    == #[trigger] rest.emitted[k]
            &&& whole.last == rest.last
            &&& whole.driver == rest.driver
        }),
    decreases full - from,
{
    if from == full {
        assert(rows_of(streams, from, count) =~= rows_of(
            streams,
            full,
            (count - (full - from)) as nat,
        ));
        driver
    } else {
        let rows = rows_of(streams, from, count);
        let outcomes = outcomes_at(streams, from);
        assert(rows[0] == outcomes);
        assert(rows.drop_first() =~= rows_of(streams, from + 1, (count - 1) as nat));
        assert forall|i: int| 0 <= i < outcomes.len() implies outcomes[i] is Row by {
            assert(full <= streams[i].len());
        }
        lemma_rows_read_all(outcomes);
        assert(first_failure(outcomes) is None);
        let moved = advanced(driver.readers, outcomes);
        if driver.check {
            assert(consistent_at(streams, from));
            assert forall|i: int| 1 <= i < moved.len() implies (#[trigger] moved[i]).agrees_with(
                moved[0],
            ) by {
                assert(full <= streams[i].len());
                assert(full <= streams[0].len());
                assert(same_variant(streams[0][from], streams[i][from]));
            }
            assert(consistent(moved));
        }
        assert(row_result(driver.readers, outcomes, driver.row, driver.check) == Ok::<
            bool,
            MergeErrorView,
        >(true));
        assert(current_records(moved) =~= records_at(streams, from)) by {
            assert forall|i: int| 0 <= i < moved.len() implies current_records(moved)[i]
                == records_at(streams, from)[i] by {
                assert(full <= streams[i].len());
            }
        }
        let next = driver.advanced(outcomes).emitted();
        let after = lemma_run_emits_complete_rows(
            next,
            streams,
            from + 1,
            (count - 1) as nat,
            full,
        );
        let whole = run(driver, rows);
        let rest = run(after, rows_of(streams, full, (count - (full - from)) as nat));
        let tail = run(next, rows_of(streams, from + 1, (count - 1) as nat));
        assert(whole.emitted == seq![merged_record(records_at(streams, from))] + tail.emitted);
        assert forall|k: int| 0 <= k < full - from implies #[trigger] whole.emitted[k]
            == merged_record(records_at(streams, from + k)) by {
            if k > 0 {
                assert(whole.emitted[k] == tail.emitted[k - 1]);
            }
        }
        assert forall|k: int| 0 <= k < rest.emitted.len() implies whole.emitted[(full - from) + k]
            == #[trigger] rest.emitted[k] by {
            assert(whole.emitted[(full - from) + k] == tail.emitted[(full - from - 1) + k]);
        }
        after
    }
}

/// Alignment over a whole run, the normal end: where all sources hold the
/// same number of rows, so that they all end in the same call, a run over
/// those rows and the call after them emits the merged record of every row
/// in order and ends normally. With the check on, this asks that each row
/// describes one variant.
pub proof fn lemma_aligned_run_ends_normally(
    driver: MergeDriverView,
    streams: Seq<Seq<RecordView>>,
    len: nat,
    count: nat,
)
    requires
        driver.readers.len() >= 1,
        streams.len() == driver.readers.len(),
        forall|i: int| 0 <= i < streams.len() ==> (#[trigger] streams[i]).len() == len,
        driver.check ==> forall|k: int| 0 <= k < len ==> consistent_at(streams, k),
        driver.row + len <= usize::MAX,
        count > len,
    ensures
        run(driver, rows_of(streams, 0, count)).last == Ok::<bool, MergeErrorView>(false),
        run(driver, rows_of(streams, 0, count)).driver.phase == Phase::Done,
        run(driver, rows_of(streams, 0, count)).emitted.len() == len,
        forall|k: int|
            0 <= k < len ==> #[trigger] run(driver, rows_of(streams, 0, count)).emitted[k]
                == merged_record(records_at(streams, k)),
{
    let after = lemma_run_emits_complete_rows(driver, streams, 0, count, len as int);
    let rows = rows_of(streams, len as int, (count - len) as nat);
    let outcomes = outcomes_at(streams, len as int);
    assert(rows[0] == outcomes);
    lemma_ending_together_is_normal(after.readers, outcomes, after.row, after.check);
}

/// Alignment over a whole run, the desynchronization: where source `a`
/// holds fewer rows than source `b`, so that they end in different calls,
/// and no source holds fewer rows than `a`, a run over those rows emits the
/// merged records of the rows that all sources hold and then fails with a
/// partial exhaustion. The error names the first row that `a` lacks and how
/// many sources still had a record for it.
pub proof fn lemma_misaligned_run_fails(
    driver: MergeDriverView,
    streams: Seq<Seq<RecordView>>,
    a: int,
    b: int,
    count: nat,
)
    requires
        streams.len() == driver.readers.len(),
        driver.readers.len() <= usize::MAX,
        0 <= a < streams.len(),
        0 <= b < streams.len(),
        streams[a].len() < streams[b].len(),
        forall|i: int| 0 <= i < streams.len() ==> streams[a].len() <= (#[trigger] streams[i]).len(),
        driver.check ==> forall|k: int| 0 <= k < streams[a].len() ==> consistent_at(streams, k),
        driver.row + streams[a].len() <= usize::MAX,
        count > streams[a].len(),
    ensures
        ({
            let shortest = streams[a].len();
            let whole = run(driver, rows_of(streams, 0, count));
            let read = rows_read(outcomes_at(streams, shortest as int));
            &&& 0 < read < streams.len()
            &&& whole.last == Err::<bool, MergeErrorView>(
                MergeErrorView::PartialExhaustion {
                    row: (driver.row + shortest) as usize,
                    read: read as usize,
                    expected: streams.len() as usize,
                },
            )
            &&& whole.driver.phase == Phase::Failed
            &&& whole.emitted.len() == shortest
            &&& forall|k: int|
                0 <= k < shortest ==> #[trigger] whole.emitted[k] == merged_record(
                    records_at(streams, k),
                )
        }),
{
    let shortest = streams[a].len();
    let after = lemma_run_emits_complete_rows(driver, streams, 0, count, shortest as int);
    let rows = rows_of(streams, shortest as int, (count - shortest) as nat);
    let outcomes = outcomes_at(streams, shortest as int);
    assert(rows[0] == outcomes);
    assert(outcomes[a] is End);
    assert(outcomes[b] is Row);
    lemma_ending_apart_is_partial_exhaustion(
        after.readers,
        outcomes,
        after.row,
        after.check,
        a,
        b,
    );
}

/// Mode equivalence over a whole run: two runs over the same rows that
/// differ in nothing but the way the check walks the sources emit the same
/// records and come to the same end.
pub proof fn lemma_mode_has_no_effect_on_run(
    serial: MergeDriverView,
    parallel: MergeDriverView,
    rows: Seq<Seq<ReadOutcomeView>>,
)
    requires
        parallel == (MergeDriverView { serial: parallel.serial, ..serial }),
    ensures
        run(parallel, rows).emitted == run(serial, rows).emitted,
        run(parallel, rows).last == run(serial, rows).last,
        run(parallel, rows).driver == (MergeDriverView {
            serial: parallel.serial,
            ..run(serial, rows).driver
        }),
    decreases rows.len(),
{
    if rows.len() > 0 {
        lemma_mode_has_no_effect(serial, parallel, rows[0]);
        lemma_mode_has_no_effect_on_run(
            serial.advanced(rows[0]).emitted(),
            parallel.advanced(rows[0]).emitted(),
            rows.drop_first(),
        );
    }
}

} // verus!
