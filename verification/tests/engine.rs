use vcf_merge::consistency::check;
use vcf_merge::driver::{MergeDriver, Phase};
use vcf_merge::error::MergeError;
use vcf_merge::header::{get_out_header, Header};
use vcf_merge::merge::join_vcf_records;
use vcf_merge::reader::{FileReader, ReadOutcome};
use vcf_merge::record::{Genotype, Record};
use vcf_merge::sync::{advance_all, read_one_line_from_every_file};

fn bytes(text: &str) -> Vec<u8> {
    text.as_bytes().to_vec()
}

fn names(texts: &[&str]) -> Vec<Vec<u8>> {
    texts.iter().map(|text| bytes(text)).collect()
}

/// The genotype columns of one sample with the single key GT.
fn call(text: &str) -> Genotype {
    vec![vec![bytes(text)]]
}

/// A record at chr1 with the given position and reference allele and one
/// genotype column per call.
fn record(position: u64, reference: &str, calls: &[&str]) -> Record {
    let mut record = Record::new();
    record.chromosome = bytes("chr1");
    record.position = position;
    record.id = names(&["rs1"]);
    record.reference = bytes(reference);
    record.alternative = names(&["T"]);
    record.format = names(&["GT"]);
    record.genotype = calls.iter().map(|text| call(text)).collect();
    record
}

fn source(name: &str, samples: &[&str]) -> FileReader {
    let lines = names(&["##fileformat=VCFv4.2\n", "##source=test\n", "##samples-of-this-file\n"]);
    FileReader::new(name, lines, names(samples))
}

fn positioned(name: &str, samples: &[&str], current: Record) -> FileReader {
    let mut reader = source(name, samples);
    assert_eq!(reader.load_next(ReadOutcome::Row(current)), Ok(1));
    reader
}

/// The outcomes of reading row `k`, counted from 0, of streams in memory.
fn outcomes_at(streams: &[Vec<Record>], k: usize) -> Vec<ReadOutcome> {
    streams
        .iter()
        .map(|stream| match stream.get(k) {
            Some(record) => ReadOutcome::Row(record.clone()),
            None => ReadOutcome::End,
        })
        .collect()
}

fn rows_of(streams: &[Vec<Record>], count: usize) -> Vec<Vec<ReadOutcome>> {
    (0..count).map(|k| outcomes_at(streams, k)).collect()
}

fn started(readers: Vec<FileReader>, serial: bool, check: bool) -> (MergeDriver, Header) {
    let mut driver = MergeDriver::new(readers, serial, check);
    let header = driver.start();
    (driver, header)
}

#[test]
fn three_sources_of_five_rows_merge_to_nine_samples_and_five_rows() {
    let readers = vec![
        source("a.vcf.gz", &["a1", "a2"]),
        source("b.vcf.gz", &["b1", "b2", "b3"]),
        source("c.vcf.gz", &["c1", "c2", "c3", "c4"]),
    ];
    let streams: Vec<Vec<Record>> = vec![
        (1..=5).map(|p| record(p, "A", &["0/0", "0/1"])).collect(),
        (1..=5).map(|p| record(p, "A", &["1/1", "0/0", "0/1"])).collect(),
        (1..=5).map(|p| record(p, "A", &["0/0", "0/0", "1/1", "0/1"])).collect(),
    ];
    let (mut driver, header) = started(readers, true, true);
    assert_eq!(
        header.samples,
        names(&["a1", "a2", "b1", "b2", "b3", "c1", "c2", "c3", "c4"])
    );
    assert_eq!(header.samples.len(), 9);
    let (emitted, last) = driver.run(rows_of(&streams, 6));
    assert_eq!(last, Ok(false));
    assert_eq!(driver.phase(), Phase::Done);
    assert_eq!(emitted.len(), 5);
    for (k, merged) in emitted.iter().enumerate() {
        assert_eq!(merged.position, k as u64 + 1);
        assert_eq!(merged.genotype.len(), 9);
        assert_eq!(
            merged.genotype,
            vec![
                call("0/0"),
                call("0/1"),
                call("1/1"),
                call("0/0"),
                call("0/1"),
                call("0/0"),
                call("0/0"),
                call("1/1"),
                call("0/1"),
            ]
        );
    }
}

#[test]
fn source_that_ends_one_row_early_fails_at_row_ten_with_one_of_two() {
    let readers = vec![source("long.vcf.gz", &["s1"]), source("short.vcf.gz", &["s2"])];
    let streams: Vec<Vec<Record>> = vec![
        (1..=10).map(|p| record(p, "A", &["0/1"])).collect(),
        (1..=9).map(|p| record(p, "A", &["1/1"])).collect(),
    ];
    let (mut driver, _) = started(readers, true, false);
    let (emitted, last) = driver.run(rows_of(&streams, 11));
    assert_eq!(
        last,
        Err(MergeError::PartialExhaustion { row: 10, read: 1, expected: 2 })
    );
    assert_eq!(driver.phase(), Phase::Failed);
    assert_eq!(emitted.len(), 9);
    assert_eq!(driver.row(), 10);
}

#[test]
fn mismatched_reference_on_row_three_fails_with_check_enabled() {
    let readers = vec![source("a.vcf.gz", &["s1"]), source("b.vcf.gz", &["s2"])];
    let first: Vec<Record> = (1..=5).map(|p| record(p, "A", &["0/1"])).collect();
    let mut second: Vec<Record> = (1..=5).map(|p| record(p, "A", &["1/1"])).collect();
    second[2].reference = bytes("G");
    let (mut driver, _) = started(readers, true, true);
    let (emitted, last) = driver.run(rows_of(&[first, second], 6));
    assert_eq!(last, Err(MergeError::ConsistencyMismatch { row: 3 }));
    assert_eq!(driver.phase(), Phase::Failed);
    assert_eq!(emitted.len(), 2);
}

#[test]
fn mismatched_reference_on_row_three_is_merged_with_check_disabled() {
    let readers = vec![source("a.vcf.gz", &["s1"]), source("b.vcf.gz", &["s2"])];
    let first: Vec<Record> = (1..=5).map(|p| record(p, "A", &["0/1"])).collect();
    let mut second: Vec<Record> = (1..=5).map(|p| record(p, "A", &["1/1"])).collect();
    second[2].reference = bytes("G");
    let (mut driver, _) = started(readers, true, false);
    let (emitted, last) = driver.run(rows_of(&[first, second], 6));
    assert_eq!(last, Ok(false));
    assert_eq!(driver.phase(), Phase::Done);
    assert_eq!(emitted.len(), 5);
    assert_eq!(emitted[2].reference, bytes("A"));
    assert_eq!(emitted[2].genotype, vec![call("0/1"), call("1/1")]);
}

#[test]
fn sources_that_end_in_the_same_call_end_the_run_normally() {
    let mut readers = vec![source("a", &["s1"]), source("b", &["s2"]), source("c", &["s3"])];
    let outcomes = vec![ReadOutcome::End, ReadOutcome::End, ReadOutcome::End];
    assert_eq!(
        read_one_line_from_every_file(&mut readers, outcomes, 7, true, true),
        Ok(false)
    );
}

#[test]
fn sources_that_end_in_different_calls_are_a_partial_exhaustion() {
    let mut readers = vec![source("a", &["s1"]), source("b", &["s2"]), source("c", &["s3"])];
    let outcomes = vec![
        ReadOutcome::Row(record(4, "A", &["0/1"])),
        ReadOutcome::End,
        ReadOutcome::Row(record(4, "A", &["0/0"])),
    ];
    assert_eq!(
        read_one_line_from_every_file(&mut readers, outcomes, 4, false, true),
        Err(MergeError::PartialExhaustion { row: 4, read: 2, expected: 3 })
    );
    assert!(readers[0].record().is_some());
    assert!(readers[1].record().is_none());
    assert!(readers[2].record().is_some());
}

#[test]
fn complete_row_is_reported_and_every_source_holds_its_record() {
    let mut readers = vec![source("a", &["s1"]), source("b", &["s2"])];
    let first = record(12, "C", &["0/1"]);
    let second = record(12, "C", &["1/1"]);
    let outcomes = vec![ReadOutcome::Row(first.clone()), ReadOutcome::Row(second.clone())];
    assert_eq!(
        read_one_line_from_every_file(&mut readers, outcomes, 1, true, true),
        Ok(true)
    );
    assert_eq!(readers[0].record(), Some(&first));
    assert_eq!(readers[1].record(), Some(&second));
}

#[test]
fn failed_read_names_the_first_source_that_failed() {
    let mut readers = vec![source("a.vcf.gz", &[]), source("b.vcf.gz", &[]), source("c.vcf.gz", &[])];
    let outcomes = vec![
        ReadOutcome::Row(record(1, "A", &[])),
        ReadOutcome::Failed,
        ReadOutcome::Failed,
    ];
    assert_eq!(
        read_one_line_from_every_file(&mut readers, outcomes, 1, true, false),
        Err(MergeError::ReadFailure { source: "b.vcf.gz".to_string() })
    );
}

#[test]
fn failed_read_comes_before_partial_exhaustion() {
    let mut readers = vec![source("a", &[]), source("b", &[])];
    let outcomes = vec![ReadOutcome::End, ReadOutcome::Failed];
    assert_eq!(
        read_one_line_from_every_file(&mut readers, outcomes, 3, true, true),
        Err(MergeError::ReadFailure { source: "b".to_string() })
    );
}

#[test]
fn load_next_counts_a_record_as_one_and_the_end_as_zero() {
    let mut reader = source("a.vcf.gz", &["s1"]);
    assert_eq!(reader.record(), None);
    let row = record(5, "A", &["0/1"]);
    assert_eq!(reader.load_next(ReadOutcome::Row(row.clone())), Ok(1));
    assert_eq!(reader.record(), Some(&row));
    assert_eq!(reader.load_next(ReadOutcome::End), Ok(0));
    assert_eq!(reader.record(), None);
    assert_eq!(
        reader.load_next(ReadOutcome::Failed),
        Err(MergeError::ReadFailure { source: "a.vcf.gz".to_string() })
    );
    assert_eq!(reader.record(), None);
    assert_eq!(reader.filename(), "a.vcf.gz");
    assert_eq!(reader.samples(), &names(&["s1"]));
}

#[test]
fn check_meta_accepts_equal_identity_columns() {
    let origin = positioned("a", &["s1"], record(100, "A", &["0/1"]));
    let mut other_record = record(100, "A", &["1/1", "0/0"]);
    other_record.qual = Some(7);
    other_record.filter = names(&["PASS"]);
    other_record.info = vec![(bytes("DP"), names(&["14"]))];
    let other = positioned("b", &["s2", "s3"], other_record);
    assert!(other.check_meta(&origin));
    assert!(origin.check_meta(&other));
    assert!(!other.differs_from(&origin));
}

#[test]
fn check_meta_rejects_a_change_in_each_identity_column() {
    let base = record(100, "A", &["0/1"]);
    let origin = positioned("a", &["s1"], base.clone());

    let mut changed = base.clone();
    changed.chromosome = bytes("chr2");
    assert!(!positioned("b", &["s2"], changed).check_meta(&origin));

    let mut changed = base.clone();
    changed.position = 101;
    assert!(!positioned("b", &["s2"], changed).check_meta(&origin));

    let mut changed = base.clone();
    changed.id = names(&["rs2"]);
    assert!(!positioned("b", &["s2"], changed).check_meta(&origin));

    let mut changed = base.clone();
    changed.reference = bytes("G");
    assert!(!positioned("b", &["s2"], changed).check_meta(&origin));

    let mut changed = base.clone();
    changed.alternative = names(&["T", "C"]);
    assert!(!positioned("b", &["s2"], changed).check_meta(&origin));

    assert!(positioned("b", &["s2"], base).check_meta(&origin));
}

#[test]
fn check_meta_needs_a_record_on_both_sides() {
    let origin = positioned("a", &["s1"], record(1, "A", &["0/1"]));
    let unread = source("b", &["s2"]);
    assert!(!unread.check_meta(&origin));
    assert!(!origin.check_meta(&unread));
    assert!(unread.differs_from(&origin));
}

#[test]
fn same_variant_as_compares_the_five_identity_columns() {
    let a = record(9, "A", &["0/1"]);
    let mut b = record(9, "A", &[]);
    b.format = Vec::new();
    assert!(a.same_variant_as(&b));
    b.id = Vec::new();
    assert!(!a.same_variant_as(&b));
}

#[test]
fn join_concatenates_genotypes_in_source_order() {
    let mut first = record(42, "A", &["a1", "a2"]);
    first.qual = Some(4_611_686_018_427_387_904);
    first.filter = names(&["PASS"]);
    first.info = vec![(bytes("AC"), names(&["1"]))];
    let mut second = record(42, "A", &["b1"]);
    second.qual = Some(1);
    second.filter = names(&["q10"]);
    let third = record(42, "A", &["c1", "c2", "c3"]);
    let first_as_read = first.clone();
    let second_as_read = second.clone();
    let third_as_read = third.clone();
    let mut readers = vec![
        positioned("a", &["s1", "s2"], first.clone()),
        positioned("b", &["s3"], second),
        positioned("c", &["s4", "s5", "s6"], third),
    ];
    let joined = join_vcf_records(&mut readers);
    let mut expected = first;
    expected.genotype = vec![
        call("a1"),
        call("a2"),
        call("b1"),
        call("c1"),
        call("c2"),
        call("c3"),
    ];
    assert_eq!(joined, expected);
    assert_eq!(readers.len(), 3);
    assert_eq!(readers[0].record(), Some(&first_as_read));
    assert_eq!(readers[1].record(), Some(&second_as_read));
    assert_eq!(readers[2].record(), Some(&third_as_read));
    assert_eq!(join_vcf_records(&mut readers), joined);
}

#[test]
fn join_of_one_source_is_its_record() {
    let only = record(3, "G", &["0/0", "1/1"]);
    let mut readers = vec![positioned("a", &["s1", "s2"], only.clone())];
    assert_eq!(join_vcf_records(&mut readers), only);
}

#[test]
fn join_keeps_equal_genotypes_of_different_sources() {
    let mut readers = vec![
        positioned("a", &["s"], record(1, "A", &["0/1"])),
        positioned("b", &["s"], record(1, "A", &["0/1"])),
    ];
    let joined = join_vcf_records(&mut readers);
    assert_eq!(joined.genotype, vec![call("0/1"), call("0/1")]);
}

#[test]
fn header_takes_lines_of_the_first_source_without_the_last() {
    let first = FileReader::new(
        "a",
        names(&["##fileformat=VCFv4.2\n", "##contig=<ID=1>\n", "##last-of-a\n"]),
        names(&["s1", "s2"]),
    );
    let second = FileReader::new("b", names(&["##other\n", "##last-of-b\n"]), names(&["s3"]));
    let header = get_out_header(&vec![first, second]);
    assert_eq!(header.items, names(&["##fileformat=VCFv4.2\n", "##contig=<ID=1>\n"]));
    assert_eq!(header.samples, names(&["s1", "s2", "s3"]));
}

#[test]
fn header_keeps_duplicate_samples_in_source_order() {
    let readers = vec![
        source("a", &["x", "y"]),
        source("b", &[]),
        source("c", &["y", "x", "y"]),
    ];
    let header = get_out_header(&readers);
    assert_eq!(header.samples, names(&["x", "y", "y", "x", "y"]));
    assert_eq!(header.samples.len(), 2 + 0 + 3);
    assert_eq!(header.samples[2..5].to_vec(), names(&["y", "x", "y"]));
}

#[test]
fn header_of_a_source_without_lines_has_no_lines() {
    let header = get_out_header(&vec![FileReader::new("a", Vec::new(), names(&["s1"]))]);
    assert_eq!(header.items, Vec::<Vec<u8>>::new());
    assert_eq!(header.samples, names(&["s1"]));
}

#[test]
fn new_record_is_empty() {
    let record = Record::new();
    assert_eq!(record.chromosome, Vec::<u8>::new());
    assert_eq!(record.position, 0);
    assert_eq!(record.id, Vec::<Vec<u8>>::new());
    assert_eq!(record.reference, Vec::<u8>::new());
    assert_eq!(record.alternative, Vec::<Vec<u8>>::new());
    assert_eq!(record.qual, None);
    assert_eq!(record.filter, Vec::<Vec<u8>>::new());
    assert_eq!(record.info, Vec::new());
    assert_eq!(record.format, Vec::<Vec<u8>>::new());
    assert_eq!(record.genotype, Vec::<Genotype>::new());
}

#[test]
fn parallel_check_finds_the_source_that_disagrees() {
    let mut readers: Vec<FileReader> = (0..40).map(|i| source(&format!("f{}", i), &["s"])).collect();
    let mut outcomes: Vec<ReadOutcome> =
        (0..40).map(|_| ReadOutcome::Row(record(8, "A", &["0/1"]))).collect();
    outcomes[37] = ReadOutcome::Row(record(8, "C", &["0/1"]));
    assert_eq!(
        read_one_line_from_every_file(&mut readers, outcomes, 8, false, true),
        Err(MergeError::ConsistencyMismatch { row: 8 })
    );
}

#[test]
fn parallel_check_accepts_a_row_of_one_variant() {
    let mut readers: Vec<FileReader> = (0..40).map(|i| source(&format!("f{}", i), &["s"])).collect();
    let outcomes: Vec<ReadOutcome> =
        (0..40).map(|_| ReadOutcome::Row(record(8, "A", &["0/1"]))).collect();
    assert_eq!(
        read_one_line_from_every_file(&mut readers, outcomes, 8, false, true),
        Ok(true)
    );
}

#[test]
fn parallel_check_does_not_compare_the_first_source_with_itself_only() {
    let mut readers = vec![source("a", &["s"]), source("b", &["s"])];
    let outcomes = vec![
        ReadOutcome::Row(record(8, "A", &["0/1"])),
        ReadOutcome::Row(record(9, "A", &["0/1"])),
    ];
    assert_eq!(
        read_one_line_from_every_file(&mut readers, outcomes, 2, false, true),
        Err(MergeError::ConsistencyMismatch { row: 2 })
    );
}

#[test]
fn serial_and_parallel_runs_give_the_same_output() {
    let first: Vec<Record> = (1..=6).map(|p| record(p, "A", &["0/1", "1/1"])).collect();
    let mut second: Vec<Record> = (1..=6).map(|p| record(p, "A", &["0/0"])).collect();
    second[4].position = 99;
    for check in [false, true] {
        let mut outputs = Vec::new();
        for serial in [true, false] {
            let readers = vec![source("a", &["s1", "s2"]), source("b", &["s3"])];
            let (mut driver, header) = started(readers, serial, check);
            let (emitted, last) = driver.run(rows_of(&[first.clone(), second.clone()], 7));
            outputs.push((header, emitted, last, driver.phase(), driver.row()));
        }
        assert_eq!(outputs[0], outputs[1]);
        let expected_rows = if check { 4 } else { 6 };
        assert_eq!(outputs[0].1.len(), expected_rows);
    }
}

#[test]
fn driver_goes_through_its_phases_and_counts_rows_from_one() {
    let readers = vec![source("a", &["s1"]), source("b", &["s2"])];
    let mut driver = MergeDriver::new(readers, true, true);
    assert_eq!(driver.phase(), Phase::Init);
    assert_eq!(driver.row(), 1);
    assert_eq!(driver.source_count(), 2);
    let header = driver.start();
    assert_eq!(header.samples, names(&["s1", "s2"]));
    assert_eq!(driver.phase(), Phase::Reading);

    let row = vec![
        ReadOutcome::Row(record(1, "A", &["0/1"])),
        ReadOutcome::Row(record(1, "A", &["1/1"])),
    ];
    assert_eq!(driver.advance(row), Ok(true));
    assert_eq!(driver.phase(), Phase::Emitting);
    assert_eq!(driver.row(), 1);
    let merged = driver.emit();
    assert_eq!(merged.genotype, vec![call("0/1"), call("1/1")]);
    assert_eq!(driver.phase(), Phase::Reading);
    assert_eq!(driver.row(), 2);

    assert_eq!(driver.advance(vec![ReadOutcome::End, ReadOutcome::End]), Ok(false));
    assert_eq!(driver.phase(), Phase::Done);
    assert_eq!(driver.row(), 2);
}

#[test]
fn driver_fails_on_a_failed_read() {
    let readers = vec![source("a", &["s1"]), source("b", &["s2"])];
    let (mut driver, _) = started(readers, false, true);
    let row = vec![ReadOutcome::Failed, ReadOutcome::Row(record(1, "A", &["1/1"]))];
    assert_eq!(
        driver.advance(row),
        Err(MergeError::ReadFailure { source: "a".to_string() })
    );
    assert_eq!(driver.phase(), Phase::Failed);
}

#[test]
fn run_stops_at_the_failure_and_keeps_what_was_emitted() {
    let readers = vec![source("a", &["s1"]), source("b", &["s2"])];
    let (mut driver, _) = started(readers, true, true);
    let good = |p: u64| {
        vec![
            ReadOutcome::Row(record(p, "A", &["0/1"])),
            ReadOutcome::Row(record(p, "A", &["1/1"])),
        ]
    };
    let rows = vec![
        good(1),
        good(2),
        vec![ReadOutcome::Row(record(3, "A", &["0/1"])), ReadOutcome::End],
        good(4),
    ];
    let (emitted, last) = driver.run(rows);
    assert_eq!(
        last,
        Err(MergeError::PartialExhaustion { row: 3, read: 1, expected: 2 })
    );
    assert_eq!(emitted.len(), 2);
    assert_eq!(emitted[1].position, 2);
}

#[test]
fn run_that_runs_out_of_rows_is_still_reading() {
    let readers = vec![source("a", &["s1"])];
    let (mut driver, _) = started(readers, true, true);
    let rows = vec![
        vec![ReadOutcome::Row(record(1, "A", &["0/1"]))],
        vec![ReadOutcome::Row(record(2, "A", &["0/1"]))],
    ];
    let (emitted, last) = driver.run(rows);
    assert_eq!(last, Ok(true));
    assert_eq!(emitted.len(), 2);
    assert_eq!(driver.phase(), Phase::Reading);
    assert_eq!(driver.row(), 3);
    let (emitted, last) = driver.run(Vec::new());
    assert_eq!(last, Ok(true));
    assert!(emitted.is_empty());
}

#[test]
fn single_source_is_merged_to_itself() {
    let stream: Vec<Record> = (1..=3).map(|p| record(p, "A", &["0/1", "1/1"])).collect();
    let (mut driver, header) = started(vec![source("a", &["s1", "s2"])], false, true);
    assert_eq!(header.samples, names(&["s1", "s2"]));
    let (emitted, last) = driver.run(rows_of(&[stream.clone()], 4));
    assert_eq!(last, Ok(false));
    assert_eq!(emitted, stream);
}

#[test]
fn advance_all_counts_the_sources_that_produced_a_record() {
    let mut readers = vec![source("a", &[]), source("b", &[]), source("c", &[])];
    let first = record(1, "A", &[]);
    let outcomes = vec![
        ReadOutcome::Row(first.clone()),
        ReadOutcome::End,
        ReadOutcome::Row(record(1, "A", &[])),
    ];
    assert_eq!(advance_all(&mut readers, outcomes), Ok(2));
    assert_eq!(readers[0].record(), Some(&first));
    assert_eq!(readers[1].record(), None);

    let all_end = vec![ReadOutcome::End, ReadOutcome::End, ReadOutcome::End];
    assert_eq!(advance_all(&mut readers, all_end), Ok(0));
    assert!(readers.iter().all(|reader| reader.record().is_none()));
}

#[test]
fn advance_all_does_not_count_a_failed_read_as_an_end() {
    let mut readers = vec![source("a", &[]), source("b", &[])];
    let second = record(1, "A", &[]);
    let outcomes = vec![ReadOutcome::Failed, ReadOutcome::Row(second.clone())];
    assert_eq!(
        advance_all(&mut readers, outcomes),
        Err(MergeError::ReadFailure { source: "a".to_string() })
    );
    assert_eq!(readers[0].record(), None);
    assert_eq!(readers[1].record(), Some(&second));
}

#[test]
fn advance_all_of_no_source_reads_nothing() {
    let mut readers: Vec<FileReader> = Vec::new();
    assert_eq!(advance_all(&mut readers, Vec::new()), Ok(0));
}

#[test]
fn check_compares_every_source_with_the_first() {
    let agreeing = vec![
        positioned("a", &[], record(5, "A", &["0/1"])),
        positioned("b", &[], record(5, "A", &["1/1"])),
        positioned("c", &[], record(5, "A", &[])),
    ];
    assert!(check(&agreeing, true));
    assert!(check(&agreeing, false));

    let last_differs = vec![
        positioned("a", &[], record(5, "A", &["0/1"])),
        positioned("b", &[], record(5, "A", &["1/1"])),
        positioned("c", &[], record(6, "A", &[])),
    ];
    assert!(!check(&last_differs, true));
    assert!(!check(&last_differs, false));

    let first_differs = vec![
        positioned("a", &[], record(6, "A", &["0/1"])),
        positioned("b", &[], record(5, "A", &["1/1"])),
        positioned("c", &[], record(5, "A", &[])),
    ];
    assert!(!check(&first_differs, true));
    assert!(!check(&first_differs, false));
}

#[test]
fn check_of_one_source_or_none_is_true() {
    let one = vec![positioned("a", &[], record(5, "A", &["0/1"]))];
    assert!(check(&one, true));
    assert!(check(&one, false));
    let none: Vec<FileReader> = Vec::new();
    assert!(check(&none, true));
    assert!(check(&none, false));
}

#[test]
fn check_is_false_where_a_source_has_no_record() {
    let readers = vec![positioned("a", &[], record(5, "A", &["0/1"])), source("b", &[])];
    assert!(!check(&readers, true));
    assert!(!check(&readers, false));
}

#[test]
fn duplicate_copies_every_column() {
    let mut original = record(77, "AC", &["0/1", "1/2"]);
    original.qual = Some(4_602_678_819_172_646_912);
    original.filter = names(&["PASS", "q10"]);
    original.info = vec![(bytes("DP"), names(&["14"])), (bytes("DB"), Vec::new())];
    let copy = original.duplicate();
    assert_eq!(copy, original);
    assert_eq!(Record::new().duplicate(), Record::new());
}

#[test]
fn emit_leaves_the_sources_at_the_records_of_the_row() {
    let readers = vec![source("a", &["s1"]), source("b", &["s2"])];
    let (mut driver, _) = started(readers, true, true);
    let first = record(1, "A", &["0/1"]);
    let second = record(1, "A", &["1/1"]);
    let row = vec![ReadOutcome::Row(first.clone()), ReadOutcome::Row(second.clone())];
    assert_eq!(driver.advance(row), Ok(true));
    let merged = driver.emit();
    assert_eq!(merged.genotype, vec![call("0/1"), call("1/1")]);
    assert_eq!(driver.phase(), Phase::Reading);
    assert_eq!(driver.readers().len(), 2);
    assert_eq!(driver.readers()[0].record(), Some(&first));
    assert_eq!(driver.readers()[1].record(), Some(&second));

    assert_eq!(driver.advance(vec![ReadOutcome::End, ReadOutcome::End]), Ok(false));
    assert_eq!(driver.readers()[0].record(), None);
    assert_eq!(driver.readers()[1].record(), None);
}
