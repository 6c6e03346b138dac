//! Filter-and-Write: every record is counted, and the records that the
//! membership test lets through are written to the sink.

use crate::counters::Counters;
use crate::error::RunError;
use crate::headers::HeaderSet;
use crate::record::{sequences_valid, RawRecord, RecordView};
use crate::sink::{record_block, Sink};
use crate::text::decode_text;
use vstd::prelude::*;
use vstd::utf8::{decode_utf8, valid_utf8};

verus! {

/// The decision for one record, from the `invert` flag and from whether the
/// identifier is in the header set.
pub open spec fn should_emit(invert: bool, member: bool) -> bool {
    if invert {
        !member
    } else {
        member
    }
}

/// The decision as a predicate on records.
pub open spec fn emits(headers: Set<Seq<char>>, invert: bool) -> spec_fn(RecordView) -> bool {
    |r: RecordView| should_emit(invert, headers.contains(r.id))
}

/// The records that are written, in the order of `records`.
pub open spec fn kept(headers: Set<Seq<char>>, invert: bool, records: Seq<RecordView>) -> Seq<
    RecordView,
> {
    records.filter(emits(headers, invert))
}

/// The block of a record, as a function on records.
pub open spec fn block_of() -> spec_fn(RecordView) -> Seq<char> {
    |r: RecordView| record_block(r.id, decode_utf8(r.seq))
}

/// The text written for `records`: the blocks of the kept records, one after
/// the other.
pub open spec fn output_text(headers: Set<Seq<char>>, invert: bool, records: Seq<RecordView>) -> Seq<
    char,
> {
    kept(headers, invert, records).flat_map(block_of())
}

/// After how many records a run is due to report its progress.
pub const PROGRESS_INTERVAL: u64 = 100_000;

/// The model of a filtering run in progress.
pub struct FilterView {
    pub headers: Set<Seq<char>>,
    pub invert: bool,
    pub processed: nat,
    pub written: nat,
    /// The text emitted since the output was last taken.
    pub pending: Seq<char>,
}

impl FilterView {
    /// The state in which a run starts.
    pub open spec fn start(headers: Set<Seq<char>>, invert: bool) -> FilterView {
        FilterView { headers, invert, processed: 0, written: 0, pending: Seq::empty() }
    }

    /// Whether a record with identifier `id` is written.
    pub open spec fn emits(self, id: Seq<char>) -> bool {
        should_emit(self.invert, self.headers.contains(id))
    }

    /// The state after a record with identifier `id` and sequence `seq`.
    pub open spec fn step(self, id: Seq<char>, seq: Seq<char>) -> FilterView {
        if self.emits(id) {
            FilterView {
                processed: self.processed + 1,
                written: self.written + 1,
                pending: self.pending + record_block(id, seq),
                ..self
            }
        } else {
            FilterView { processed: self.processed + 1, ..self }
        }
    }
}

/// A filtering run: the header set and the `invert` flag it was started with,
/// its counters and its sink.
///
/// `process_record` takes `&mut self`. Workers that share a run have to take
/// turns, so the records are applied one after the other, in some order.
pub struct FastaFilter {
    headers: HeaderSet,
    invert: bool,
    counters: Counters,
    sink: Sink,
}

impl View for FastaFilter {
    type V = FilterView;

    closed spec fn view(&self) -> FilterView {
        FilterView {
            headers: self.headers@,
            invert: self.invert,
            processed: self.counters@.processed,
            written: self.counters@.written,
            pending: self.sink@,
        }
    }
}

impl FastaFilter {
    /// A run that has seen no record yet.
    pub fn new(headers: HeaderSet, invert: bool) -> (filter: FastaFilter)
        ensures
            filter@ == FilterView::start(headers@, invert),
    {
        FastaFilter { headers, invert, counters: Counters::new(), sink: Sink::new() }
    }

    /// Whether a record with identifier `id` is written.
    pub fn should_emit(&self, id: &str) -> (emit: bool)
        ensures
            emit == self@.emits(id@),
    {
        let member = self.headers.contains(id);
        if self.invert {
            !member
        } else {
            member
        }
    }

    /// Handles one record: decodes its sequence, counts it as seen and, where
    /// the membership test lets it through, writes its block and counts it as
    /// written. A sequence that is not valid UTF-8 fails the run and leaves
    /// the state as it was.
    pub fn process_record(&mut self, id: &str, seq: &[u8]) -> (r: Result<(), RunError>)
        requires
            old(self)@.processed < u64::MAX,
        ensures
            match r {
                Ok(()) => valid_utf8(seq@) && final(self)@ == old(self)@.step(
                    id@,
                    decode_utf8(seq@),
                ),
                Err(e) => e == RunError::Decode && !valid_utf8(seq@) && final(self)@ == old(self)@,
            },
    {
        let text = match decode_text(seq) {
            Some(text) => text,
            None => {
                return Err(RunError::Decode);
            },
        };
        self.counters.increment_processed();
        if self.should_emit(id) {
            self.sink.emit(id, text);
            self.counters.increment_written();
        }
        Ok(())
    }

    /// The number of records seen so far.
    pub fn processed(&self) -> (n: u64)
        ensures
            n == self@.processed,
    {
        self.counters.processed()
    }

    /// The number of records written so far. It never exceeds the number of
    /// records seen.
    pub fn written(&self) -> (n: u64)
        ensures
            n == self@.written,
            n <= self@.processed,
    {
        self.counters.written()
    }

    /// Whether the run is due to report its progress: it has seen a positive
    /// multiple of `PROGRESS_INTERVAL` records.
    pub fn progress_due(&self) -> (due: bool)
        ensures
            due == (self@.processed > 0 && self@.processed % (PROGRESS_INTERVAL as nat) == 0),
    {
        let seen = self.counters.processed();
        seen > 0 && seen % PROGRESS_INTERVAL == 0
    }

    /// Hands out the text emitted since the last call and empties the sink.
    pub fn take_output(&mut self) -> (text: String)
        ensures
            text@ == old(self)@.pending,
            final(self)@ == (FilterView { pending: Seq::empty(), ..old(self)@ }),
    {
        self.sink.take()
    }
}

/// What a filtering run reports: the number of records seen, the number
/// written, and the text written.
#[derive(Debug)]
pub struct FilterSummary {
    pub processed: u64,
    pub written: u64,
    pub output: String,
}

/// Runs Filter-and-Write over `records`, in their order, with the header set
/// made of `headers`. Fails if the sequence of any record is not valid UTF-8.
pub fn filter_fasta_by_headers(records: &[RawRecord], headers: Vec<String>, invert: bool) -> (r:
    Result<FilterSummary, RunError>)
    ensures
        match r {
            Ok(summary) => {
                &&& sequences_valid(records.deep_view())
                &&& summary.processed == records.len()
                &&& summary.written == kept(
                    headers.deep_view().to_set(),
                    invert,
                    records.deep_view(),
                ).len()
                &&& summary.output@ == output_text(
                    headers.deep_view().to_set(),
                    invert,
                    records.deep_view(),
                )
            },
            Err(e) => e == RunError::Decode && !sequences_valid(records.deep_view()),
        },
{
    let ghost set = headers.deep_view().to_set();
    let ghost all = records.deep_view();
    let mut filter = FastaFilter::new(HeaderSet::from_list(headers), invert);
    let mut i: usize = 0;
    proof {
        reveal(Seq::filter);
        assert(all.take(0) =~= Seq::<RecordView>::empty());
        assert(output_text(set, invert, all.take(0)) =~= Seq::<char>::empty());
    }
    while i < records.len()
        invariant
            i <= records.len(),
            all == records.deep_view(),
            sequences_valid(all.take(i as int)),
            filter@ == (FilterView {
                headers: set,
                invert,
                processed: i as nat,
                written: kept(set, invert, all.take(i as int)).len(),
                pending: output_text(set, invert, all.take(i as int)),
            }),
        decreases records.len() - i,
    {
        let record = &records[i];
        proof {
            let seen = all.take(i as int);
            assert(all[i as int] == record@);
            assert(all.take(i + 1) =~= seen.push(record@));
            seen.lemma_filter_push(record@, emits(set, invert));
            kept(set, invert, seen).lemma_flat_map_push(block_of(), record@);
        }
        match filter.process_record(record.id.as_str(), record.seq.as_slice()) {
            Ok(()) => {},
            Err(e) => {
                assert(!valid_utf8(all[i as int].seq));
                return Err(e);
            },
        }
        assert(sequences_valid(all.take(i + 1))) by {
            assert forall|j: int| 0 <= j < i + 1 implies valid_utf8(
                #[trigger] all.take(i + 1)[j].seq,
            ) by {
                if j < i {
                    assert(all.take(i + 1)[j] == all.take(i as int)[j]);
                }
            }
        }
        i += 1;
    }
    assert(all.take(i as int) =~= all);
    let processed = filter.processed();
    let written = filter.written();
    let output = filter.take_output();
    Ok(FilterSummary { processed, written, output })
}

} // verus!
