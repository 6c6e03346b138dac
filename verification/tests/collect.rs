use paraseq_filt::collect::{parse_records, RecordCollector};
use paraseq_filt::error::RunError;
use paraseq_filt::record::{RawRecord, TextRecord};

fn fasta(id: &str, seq: &[u8]) -> RawRecord {
    RawRecord { id: id.to_string(), seq: seq.to_vec(), qual: None }
}

fn fastq(id: &str, seq: &[u8], qual: &[u8]) -> RawRecord {
    RawRecord { id: id.to_string(), seq: seq.to_vec(), qual: Some(qual.to_vec()) }
}

fn triples(records: &[TextRecord]) -> Vec<(String, String, Option<String>)> {
    records.iter().map(|r| (r.id.clone(), r.seq.clone(), r.qual.clone())).collect()
}

fn triple(id: &str, seq: &str, qual: Option<&str>) -> (String, String, Option<String>) {
    (id.to_string(), seq.to_string(), qual.map(|q| q.to_string()))
}

#[test]
fn records_are_collected_in_input_order() {
    let records = vec![fasta("A", b"ACGT"), fasta("B", b"TTTT"), fasta("C", b"GGGG")];
    let out = parse_records(&records).unwrap();
    assert_eq!(
        triples(&out),
        vec![triple("A", "ACGT", None), triple("B", "TTTT", None), triple("C", "GGGG", None)]
    );
}

#[test]
fn order_is_that_of_the_input_not_of_the_identifiers() {
    let records = vec![fasta("C", b"G"), fasta("A", b"A"), fasta("B", b"T"), fasta("A", b"AA")];
    let out = parse_records(&records).unwrap();
    let ids: Vec<&str> = out.iter().map(|r| r.id.as_str()).collect();
    assert_eq!(ids, vec!["C", "A", "B", "A"]);
    assert_eq!(out[3].seq, "AA");
}

#[test]
fn quality_is_absent_without_quality() {
    let out = parse_records(&[fasta("A", b"ACGT")]).unwrap();
    assert_eq!(out.len(), 1);
    assert_eq!(out[0].qual, None);
}

#[test]
fn quality_is_collected_where_there_is_one() {
    let out = parse_records(&[fastq("r1", b"ACGT", b"II#I"), fastq("r2", b"", b"")]).unwrap();
    assert_eq!(
        triples(&out),
        vec![triple("r1", "ACGT", Some("II#I")), triple("r2", "", Some(""))]
    );
}

#[test]
fn nothing_in_nothing_out() {
    assert_eq!(parse_records(&[]).unwrap().len(), 0);
}

#[test]
fn sequence_that_is_not_utf8_fails_the_collection() {
    let records = vec![fasta("A", b"ACGT"), fasta("B", &[0xff])];
    assert_eq!(parse_records(&records).unwrap_err(), RunError::Decode);
}

#[test]
fn quality_that_is_not_utf8_fails_the_collection() {
    let records = vec![fastq("r1", b"ACGT", &[0x80, 0x80, 0x80, 0x80])];
    assert_eq!(parse_records(&records).unwrap_err(), RunError::Decode);
}

#[test]
fn text_beyond_ascii_is_decoded() {
    let out = parse_records(&[fastq("r1", "A\u{00e9}".as_bytes(), "\u{4e2d}!".as_bytes())]).unwrap();
    assert_eq!(triples(&out), vec![triple("r1", "A\u{00e9}", Some("\u{4e2d}!"))]);
}

#[test]
fn collector_appends_record_by_record() {
    let mut collector = RecordCollector::new();
    assert_eq!(collector.len(), 0);
    collector.process_record("A", b"ACGT", None).unwrap();
    collector.process_record("B", b"TT", Some(b"II")).unwrap();
    assert_eq!(collector.len(), 2);
    let out = collector.into_records();
    assert_eq!(triples(&out), vec![triple("A", "ACGT", None), triple("B", "TT", Some("II"))]);
}

#[test]
fn failed_record_leaves_the_collector_as_it_was() {
    let mut collector = RecordCollector::new();
    collector.process_record("A", b"ACGT", None).unwrap();
    assert_eq!(collector.process_record("B", &[0xc3], None), Err(RunError::Decode));
    assert_eq!(collector.process_record("C", b"AC", Some(&[0xff, 0xff])), Err(RunError::Decode));
    assert_eq!(collector.len(), 1);
    assert_eq!(triples(&collector.into_records()), vec![triple("A", "ACGT", None)]);
}
