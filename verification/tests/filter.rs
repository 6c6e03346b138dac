use paraseq_filt::error::RunError;
use paraseq_filt::filter::{filter_fasta_by_headers, FastaFilter, PROGRESS_INTERVAL};
use paraseq_filt::headers::HeaderSet;
use paraseq_filt::record::RawRecord;

fn record(id: &str, seq: &[u8]) -> RawRecord {
    RawRecord { id: id.to_string(), seq: seq.to_vec(), qual: None }
}

fn three_records() -> Vec<RawRecord> {
    vec![record("id1", b"ACGT"), record("id2", b"TTTT"), record("id3", b"GGGG")]
}

fn headers(ids: &[&str]) -> Vec<String> {
    ids.iter().map(|s| s.to_string()).collect()
}

#[test]
fn filter_keeps_the_listed_records() {
    let summary = filter_fasta_by_headers(&three_records(), headers(&["id1", "id3"]), false).unwrap();
    assert_eq!((summary.processed, summary.written), (3, 2));
    assert_eq!(summary.output, ">id1\nACGT\n>id3\nGGGG\n");
}

#[test]
fn inverted_filter_keeps_the_other_records() {
    let summary = filter_fasta_by_headers(&three_records(), headers(&["id1", "id3"]), true).unwrap();
    assert_eq!((summary.processed, summary.written), (3, 1));
    assert_eq!(summary.output, ">id2\nTTTT\n");
}

#[test]
fn headers_that_match_nothing_write_nothing() {
    let summary = filter_fasta_by_headers(&three_records(), headers(&["x", "y"]), false).unwrap();
    assert_eq!((summary.processed, summary.written), (3, 0));
    assert_eq!(summary.output, "");
}

#[test]
fn inverted_headers_that_match_nothing_write_everything() {
    let summary = filter_fasta_by_headers(&three_records(), headers(&["x", "y"]), true).unwrap();
    assert_eq!((summary.processed, summary.written), (3, 3));
    assert_eq!(summary.output, ">id1\nACGT\n>id2\nTTTT\n>id3\nGGGG\n");
}

#[test]
fn empty_header_set() {
    let plain = filter_fasta_by_headers(&three_records(), Vec::new(), false).unwrap();
    assert_eq!((plain.processed, plain.written), (3, 0));
    let inverted = filter_fasta_by_headers(&three_records(), Vec::new(), true).unwrap();
    assert_eq!((inverted.processed, inverted.written), (3, 3));
}

#[test]
fn empty_input() {
    let summary = filter_fasta_by_headers(&[], headers(&["id1"]), false).unwrap();
    assert_eq!((summary.processed, summary.written), (0, 0));
    assert_eq!(summary.output, "");
}

#[test]
fn duplicate_identifiers_are_each_evaluated() {
    let records = vec![record("id1", b"AAAA"), record("id2", b"CC"), record("id1", b"GG")];
    let summary = filter_fasta_by_headers(&records, headers(&["id1"]), false).unwrap();
    assert_eq!((summary.processed, summary.written), (3, 2));
    assert_eq!(summary.output, ">id1\nAAAA\n>id1\nGG\n");
}

#[test]
fn counts_do_not_depend_on_the_order_of_the_records() {
    let forward = three_records();
    let mut backward = three_records();
    backward.reverse();
    let rotated = vec![record("id2", b"TTTT"), record("id3", b"GGGG"), record("id1", b"ACGT")];
    for invert in [false, true] {
        let a = filter_fasta_by_headers(&forward, headers(&["id1", "id3"]), invert).unwrap();
        let b = filter_fasta_by_headers(&backward, headers(&["id1", "id3"]), invert).unwrap();
        let c = filter_fasta_by_headers(&rotated, headers(&["id1", "id3"]), invert).unwrap();
        assert_eq!((a.processed, a.written), (b.processed, b.written));
        assert_eq!((a.processed, a.written), (c.processed, c.written));
    }
}

#[test]
fn plain_and_inverted_runs_add_up() {
    let records = three_records();
    let plain = filter_fasta_by_headers(&records, headers(&["id2", "zz"]), false).unwrap();
    let inverted = filter_fasta_by_headers(&records, headers(&["id2", "zz"]), true).unwrap();
    assert_eq!(plain.written + inverted.written, 3);
}

#[test]
fn quality_is_never_written() {
    let records = vec![RawRecord {
        id: "read1".to_string(),
        seq: b"ACGT".to_vec(),
        qual: Some(b"IIII".to_vec()),
    }];
    let summary = filter_fasta_by_headers(&records, headers(&["read1"]), false).unwrap();
    assert_eq!(summary.output, ">read1\nACGT\n");
}

#[test]
fn invalid_quality_does_not_fail_a_filtering_run() {
    let records = vec![RawRecord {
        id: "read1".to_string(),
        seq: b"ACGT".to_vec(),
        qual: Some(vec![0xff]),
    }];
    let summary = filter_fasta_by_headers(&records, headers(&["read1"]), false).unwrap();
    assert_eq!((summary.processed, summary.written), (1, 1));
}

#[test]
fn sequence_that_is_not_utf8_fails_the_run() {
    let records = vec![record("id1", b"ACGT"), record("id2", &[0x41, 0xff, 0x43])];
    assert_eq!(
        filter_fasta_by_headers(&records, headers(&["id1"]), false).unwrap_err(),
        RunError::Decode
    );
    assert_eq!(
        filter_fasta_by_headers(&records, headers(&["id1"]), true).unwrap_err(),
        RunError::Decode
    );
}

#[test]
fn truncated_and_overlong_encodings_fail_the_run() {
    for bad in [&[0xc3u8][..], &[0xc0, 0x80], &[0xed, 0xa0, 0x80], &[0xf4, 0x90, 0x80, 0x80]] {
        let records = vec![record("id1", bad)];
        assert_eq!(
            filter_fasta_by_headers(&records, headers(&["id1"]), false).unwrap_err(),
            RunError::Decode
        );
    }
}

#[test]
fn sequence_text_beyond_ascii_is_written_as_it_is() {
    let records = vec![record("id1", "AC\u{00e9}\u{4e2d}\u{1F9EC}".as_bytes())];
    let summary = filter_fasta_by_headers(&records, headers(&["id1"]), false).unwrap();
    assert_eq!(summary.output, ">id1\nAC\u{00e9}\u{4e2d}\u{1F9EC}\n");
}

#[test]
fn empty_identifier_and_sequence() {
    let records = vec![record("", b"")];
    let summary = filter_fasta_by_headers(&records, headers(&[""]), false).unwrap();
    assert_eq!((summary.processed, summary.written), (1, 1));
    assert_eq!(summary.output, ">\n\n");
}

#[test]
fn run_counts_record_by_record() {
    let mut filter = FastaFilter::new(HeaderSet::from_list(headers(&["id1", "id3"])), false);
    assert_eq!((filter.processed(), filter.written()), (0, 0));
    assert!(filter.should_emit("id1"));
    assert!(!filter.should_emit("id2"));

    filter.process_record("id1", b"ACGT").unwrap();
    assert_eq!((filter.processed(), filter.written()), (1, 1));
    filter.process_record("id2", b"TTTT").unwrap();
    assert_eq!((filter.processed(), filter.written()), (2, 1));
    assert_eq!(filter.take_output(), ">id1\nACGT\n");
    assert_eq!(filter.take_output(), "");

    filter.process_record("id3", b"GGGG").unwrap();
    assert_eq!((filter.processed(), filter.written()), (3, 2));
    assert_eq!(filter.take_output(), ">id3\nGGGG\n");
    assert_eq!((filter.processed(), filter.written()), (3, 2));
}

#[test]
fn inverted_run_decides_the_other_way() {
    let filter = FastaFilter::new(HeaderSet::from_list(headers(&["id1"])), true);
    assert!(!filter.should_emit("id1"));
    assert!(filter.should_emit("id2"));
}

#[test]
fn failed_record_leaves_the_run_as_it_was() {
    let mut filter = FastaFilter::new(HeaderSet::from_list(headers(&["id1"])), false);
    filter.process_record("id1", b"ACGT").unwrap();
    assert_eq!(filter.process_record("id1", &[0xff, 0xfe]), Err(RunError::Decode));
    assert_eq!((filter.processed(), filter.written()), (1, 1));
    assert_eq!(filter.take_output(), ">id1\nACGT\n");
}

#[test]
fn progress_is_due_at_each_interval() {
    assert_eq!(PROGRESS_INTERVAL, 100_000);
    let mut filter = FastaFilter::new(HeaderSet::new(), false);
    assert!(!filter.progress_due());
    let mut due_at: Vec<u64> = Vec::new();
    for _ in 0..(2 * PROGRESS_INTERVAL + 5) {
        filter.process_record("id", b"A").unwrap();
        if filter.progress_due() {
            due_at.push(filter.processed());
        }
    }
    assert_eq!(due_at, vec![100_000, 200_000]);
    assert_eq!(filter.written(), 0);
}
