//! Ordered-Collect: every record as text, in the order of the input.
//!
//! The order of the result is the order in which the records are handed in.
//! A record source that dispatches on several threads gives no such order, so
//! this mode runs on one thread (see `threads`).

use crate::error::RunError;
use crate::record::{decodable, decoded, RawRecord, RecordView, TextRecord, TextView};
use crate::text::decode_text;
use vstd::prelude::*;

verus! {

/// Decoding, as a function on records.
pub open spec fn decode_fn() -> spec_fn(RecordView) -> TextView {
    |r: RecordView| decoded(r)
}

/// Whether every record can be decoded.
pub open spec fn all_decodable(records: Seq<RecordView>) -> bool {
    forall|i: int| 0 <= i < records.len() ==> decodable(#[trigger] records[i])
}

/// The model of a record handed in as its parts.
pub open spec fn parts_view(id: &str, seq: &[u8], qual: Option<&[u8]>) -> RecordView {
    RecordView {
        id: id@,
        seq: seq@,
        qual: match qual {
            Some(q) => Some(q@),
            None => None,
        },
    }
}

/// The records collected so far, in the order in which they came.
#[derive(Debug)]
pub struct RecordCollector {
    records: Vec<TextRecord>,
}

impl View for RecordCollector {
    type V = Seq<TextView>;

    closed spec fn view(&self) -> Seq<TextView> {
        self.records.deep_view()
    }
}

impl RecordCollector {
    /// A collector without records.
    pub fn new() -> (collector: RecordCollector)
        ensures
            collector@ == Seq::<TextView>::empty(),
    {
        let collector = RecordCollector { records: Vec::new() };
        assert(collector@ =~= Seq::<TextView>::empty());
        collector
    }

    /// Appends one record as text. A sequence or a quality that is not valid
    /// UTF-8 fails the run and leaves the collector as it was. A record
    /// without quality is collected without quality.
    pub fn process_record(&mut self, id: &str, seq: &[u8], qual: Option<&[u8]>) -> (r: Result<
        (),
        RunError,
    >)
        ensures
            match r {
                Ok(()) => {
                    &&& decodable(parts_view(id, seq, qual))
                    &&& final(self)@ == old(self)@.push(decoded(parts_view(id, seq, qual)))
                },
                Err(e) => {
                    &&& e == RunError::Decode
                    &&& !decodable(parts_view(id, seq, qual))
                    &&& final(self)@ == old(self)@
                },
            },
    {
        let seq_text = match decode_text(seq) {
            Some(text) => text,
            None => {
                return Err(RunError::Decode);
            },
        };
        let qual_text = match qual {
            Some(q) => match decode_text(q) {
                Some(text) => Some(text.to_owned()),
                None => {
                    return Err(RunError::Decode);
                },
            },
            None => None,
        };
        let record = TextRecord { id: id.to_owned(), seq: seq_text.to_owned(), qual: qual_text };
        assert(record@ == decoded(parts_view(id, seq, qual)));
        self.records.push(record);
        assert(self@ =~= old(self)@.push(decoded(parts_view(id, seq, qual))));
        Ok(())
    }

    /// The number of records collected.
    pub fn len(&self) -> (n: usize)
        ensures
            n == self@.len(),
    {
        self.records.len()
    }

    /// Hands out the collected records.
    pub fn into_records(self) -> (records: Vec<TextRecord>)
        ensures
            records.deep_view() == self@,
    {
        self.records
    }
}

/// Runs Ordered-Collect over `records`: each record as text, one per input
/// record, in the order of the input. Fails if a sequence or a quality is not
/// valid UTF-8.
pub fn parse_records(records: &[RawRecord]) -> (r: Result<Vec<TextRecord>, RunError>)
    ensures
        match r {
            Ok(out) => all_decodable(records.deep_view()) && out.deep_view()
                == records.deep_view().map_values(decode_fn()),
            Err(e) => e == RunError::Decode && !all_decodable(records.deep_view()),
        },
{
    let ghost all = records.deep_view();
    let mut collector = RecordCollector::new();
    let mut i: usize = 0;
    while i < records.len()
        invariant
            i <= records.len(),
            all == records.deep_view(),
            all_decodable(all.take(i as int)),
            collector@ =~= all.take(i as int).map_values(decode_fn()),
        decreases records.len() - i,
    {
        let record = &records[i];
        let qual = match &record.qual {
            Some(q) => Some(q.as_slice()),
            None => None,
        };
        let id = record.id.as_str();
        let seq = record.seq.as_slice();
        assert(all[i as int] == record@);
        assert(parts_view(id, seq, qual) == record@);
        match collector.process_record(id, seq, qual) {
            Ok(()) => {},
            Err(e) => {
                return Err(e);
            },
        }
        assert(all_decodable(all.take(i + 1))) by {
            assert forall|j: int| 0 <= j < i + 1 implies decodable(
                #[trigger] all.take(i + 1)[j],
            ) by {
                if j < i {
                    assert(all.take(i + 1)[j] == all.take(i as int)[j]);
                }
            }
        }
        assert(all.take(i + 1) =~= all.take(i as int).push(all[i as int]));
        i += 1;
    }
    assert(all.take(i as int) =~= all);
    Ok(collector.into_records())
}

} // verus!
