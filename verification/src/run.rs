//! A whole run: the rows that come out of a sequence of rows read.

use vstd::prelude::*;
use crate::driver::{MergeDriver, MergeDriverView, Phase};
use crate::error::{MergeError, MergeErrorView};
use crate::merge::{current_records, merged_record};
use crate::reader::{ReadOutcome, ReadOutcomeView};
use crate::record::{same_variant, Record, RecordView};
use crate::sync::{result_view, row_result};

verus! {

/// A run over some rows: the merged records in row order, what the last
/// row taken in came to, and the driver after it.
///
/// `last` is `Ok(true)` where every row was emitted and the run is still
/// reading, `Ok(false)` where the sources ended together, and the error
/// where the run failed. Rows after the end or the failure are not looked at.
pub struct RunView {
    pub emitted: Seq<RecordView>,
    pub last: Result<bool, MergeErrorView>,
    pub driver: MergeDriverView,
}

/// The run of a driver that is reading over the given rows, each row being
/// the outcomes of the reads of the sources in source order.
pub open spec fn run(driver: MergeDriverView, rows: Seq<Seq<ReadOutcomeView>>) -> RunView
    decreases rows.len(),
{
    if rows.len() == 0 {
        RunView { emitted: Seq::empty(), last: Ok(true), driver }
    } else {
        let result = row_result(driver.readers, rows[0], driver.row, driver.check);
        let next = driver.advanced(rows[0]);
        if result == Ok::<bool, MergeErrorView>(true) {
            let rest = run(next.emitted(), rows.drop_first());
            RunView {
                emitted: seq![merged_record(current_records(next.readers))] + rest.emitted,
                ..rest
            }
        } else {
            RunView { emitted: Seq::empty(), last: result, driver: next }
        }
    }
}

/// What reading row `k`, counted from 0, of streams held in memory
/// produces: the record of each stream that has one, the end for the others.
pub open spec fn outcomes_at(streams: Seq<Seq<RecordView>>, k: int) -> Seq<ReadOutcomeView> {
    Seq::new(
        streams.len(),
        |i: int|
            if k < streams[i].len() {
                ReadOutcomeView::Row(streams[i][k])
            } else {
                ReadOutcomeView::End
            },
    )
}

/// The outcomes of reading `count` rows of the streams, from row `from` on.
pub open spec fn rows_of(streams: Seq<Seq<RecordView>>, from: int, count: nat) -> Seq<
    Seq<ReadOutcomeView>,
> {
    Seq::new(count, |k: int| outcomes_at(streams, from + k))
}

/// The records of row `k` of the streams, in source order.
pub open spec fn records_at(streams: Seq<Seq<RecordView>>, k: int) -> Seq<RecordView> {
    Seq::new(streams.len(), |i: int| streams[i][k])
}

/// On row `k` every stream describes the variant of the first stream.
pub open spec fn consistent_at(streams: Seq<Seq<RecordView>>, k: int) -> bool {
    forall|i: int| 0 <= i < streams.len() ==> same_variant(streams[0][k], #[trigger] streams[i][k])
}

impl MergeDriver {
    /// Runs over rows that were read beforehand: takes them in one after
    /// the other, emits the merged record of each complete row, and stops
    /// at the end of the sources, at the first failure, or when the rows
    /// run out.
    pub fn run(&mut self, rows: Vec<Vec<ReadOutcome>>) -> (out: (
        Vec<Record>,
        Result<bool, MergeError>,
    ))
        requires
            old(self)@.wf(),
            old(self)@.phase == Phase::Reading,
            forall|k: int| 0 <= k < rows.len() ==> (#[trigger] rows[k]).len() == old(self)@.readers.len(),
            old(self)@.row + rows.len() <= usize::MAX,
        ensures
            final(self)@.wf(),
            out.0.deep_view() == run(old(self)@, rows.deep_view()).emitted,
            result_view(out.1) == run(old(self)@, rows.deep_view()).last,
            final(self)@ == run(old(self)@, rows.deep_view()).driver,
    {
        let ghost start = self@;
        let ghost all = rows.deep_view();
        let ghost raw = rows@;
        let ghost total = rows.len();
        let mut emitted: Vec<Record> = Vec::new();
        let mut k: usize = 0;
        assert(all.skip(0) =~= all);
        assert(emitted.deep_view() =~= Seq::<RecordView>::empty());
        for row in it: rows
            invariant
                start == old(self)@,
                all == rows.deep_view(),
                it.seq() == raw,
                raw.len() == total,
                all.len() == total,
                forall|j: int| 0 <= j < total ==> all[j] == (#[trigger] raw[j]).deep_view(),
                forall|j: int| 0 <= j < total ==> (#[trigger] raw[j]).len() == start.readers.len(),
                k == it.index(),
                self@.wf(),
                self@.phase == Phase::Reading,
                self@.readers.len() == start.readers.len(),
                self@.row == start.row + k,
                start.row + total <= usize::MAX,
                run(start, all).emitted == emitted.deep_view() + run(self@, all.skip(k as int)).emitted,
                run(start, all).last == run(self@, all.skip(k as int)).last,
                run(start, all).driver == run(self@, all.skip(k as int)).driver,
        {
            let ghost here = self@;
            let ghost rest = all.skip(k as int);
            let ghost emitted_before = emitted.deep_view();
            proof {
                assert(rest[0] == all[k as int]);
                assert(rest.drop_first() =~= all.skip(k + 1));
            }
            let result = self.advance(row);
            match result {
                Ok(true) => {
                    let record = self.emit();
                    emitted.push(record);
                    proof {
                        assert(emitted.deep_view() =~= emitted_before.push(record@));
                        assert(emitted_before + (seq![record@] + run(self@, all.skip(k + 1)).emitted)
                            =~= emitted.deep_view() + run(self@, all.skip(k + 1)).emitted);
                    }
                },
                _ => {
                    proof {
                        assert(emitted_before + Seq::<RecordView>::empty() =~= emitted_before);
                    }
                    return (emitted, result);
                },
            }
            k = k + 1;
        }
        proof {
            assert(all.skip(total as int) =~= Seq::<Seq<ReadOutcomeView>>::empty());
            assert(emitted.deep_view() + Seq::<RecordView>::empty() =~= emitted.deep_view());
        }
        (emitted, Ok(true))
    }
}

} // verus!
