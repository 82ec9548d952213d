//! Merging the records of one row into one record.

use vstd::prelude::*;
use crate::concat::concat;
use crate::reader::{FileReader, FileReaderView};
use crate::record::{Record, RecordView};

verus! {

/// The genotype columns of the records laid end to end, first record first.
pub open spec fn joined_genotypes(records: Seq<RecordView>) -> Seq<Seq<Seq<Seq<u8>>>> {
    concat(records.map_values(|record: RecordView| record.genotype))
}

/// The merged record of one row: every column of the first record but the
/// genotype columns, which are those of all records in order.
pub open spec fn merged_record(records: Seq<RecordView>) -> RecordView {
    RecordView { genotype: joined_genotypes(records), ..records[0] }
}

/// Every source is positioned at a record.
pub open spec fn all_positioned(readers: Seq<FileReaderView>) -> bool {
    forall|i: int| 0 <= i < readers.len() ==> (#[trigger] readers[i]).record is Some
}

/// The records that the sources are positioned at, in source order.
pub open spec fn current_records(readers: Seq<FileReaderView>) -> Seq<RecordView> {
    readers.map_values(|reader: FileReaderView| reader.record->0)
}

/// Merges the current records of all sources into one new record. The
/// sources keep the records they are positioned at.
pub fn join_vcf_records(readers: &mut Vec<FileReader>) -> (joined: Record)
    requires
        old(readers).len() >= 1,
        all_positioned(old(readers).deep_view()),
    ensures
        joined@ == merged_record(current_records(old(readers).deep_view())),
        final(readers).deep_view() == old(readers).deep_view(),
{
    let n = readers.len();
    let ghost before = readers.deep_view();
    let ghost records = current_records(before);
    let ghost parts = records.map_values(|record: RecordView| record.genotype);
    assert(before[0].record is Some);
    let mut joined = readers[0].record().unwrap().duplicate();
    proof {
        reveal_with_fuel(concat, 2);
        assert(concat(parts.take(1)) =~= parts[0]);
    }
    let mut i: usize = 1;
    while i < n
        invariant
            1 <= i <= n,
            n == readers.len(),
            before == readers.deep_view(),
            all_positioned(before),
            records == current_records(before),
            parts == records.map_values(|record: RecordView| record.genotype),
            joined@ == (RecordView { genotype: concat(parts.take(i as int)), ..records[0] }),
        decreases n - i,
    {
        assert(before[i as int].record is Some);
        let ghost genotype_before = joined.genotype.deep_view();
        let mut genotype = readers[i].record().unwrap().genotype.clone();
        assert(genotype.deep_view() =~= parts[i as int]);
        joined.genotype.append(&mut genotype);
        proof {
            assert(parts.take(i + 1).drop_last() =~= parts.take(i as int));
            assert(joined.genotype.deep_view() =~= genotype_before + parts[i as int]);
        }
        i = i + 1;
    }
    proof {
        assert(parts.take(n as int) =~= parts);
    }
    joined
}

} // verus!
