//! What holds of every run, whatever the records and whatever the order in
//! which the workers hand them in.
//!
//! Workers take turns at the shared state, so a run applies the records one
//! after the other in some order. That order is a rearrangement of the input:
//! two sequences `a` and `b` are rearrangements of each other when
//! `a.to_multiset() == b.to_multiset()`.

use crate::collect::decode_fn;
use crate::count::total_bases;
use crate::filter::{block_of, emits, kept, output_text, should_emit, FilterView};
use crate::plan::{threads_for, Mode};
use crate::record::{decoded, RecordView, TextView};
use vstd::prelude::*;
use vstd::seq_lib::{commutative_foldl, lemma_fold_left_permutation, to_multiset_len};
use vstd::utf8::decode_utf8;

verus! {

/// One step of a filtering run, as a function on states and records.
pub open spec fn step_fn() -> spec_fn(FilterView, RecordView) -> FilterView {
    |state: FilterView, r: RecordView| state.step(r.id, decode_utf8(r.seq))
}

/// The state of a filtering run that started in `state` and has applied
/// `records` in their order.
pub open spec fn run(state: FilterView, records: Seq<RecordView>) -> FilterView {
    records.fold_left(state, step_fn())
}

/// A run that applies `records` in their order ends with every record
/// counted as seen, the kept records counted as written, and their blocks in
/// the sink, in that order.
pub proof fn law_run_totals(headers: Set<Seq<char>>, invert: bool, records: Seq<RecordView>)
    ensures
        run(FilterView::start(headers, invert), records) == (FilterView {
            headers,
            invert,
            processed: records.len(),
            written: kept(headers, invert, records).len(),
            pending: output_text(headers, invert, records),
        }),
    decreases records.len(),
{
    reveal(Seq::filter);
    if records.len() == 0 {
        assert(output_text(headers, invert, records) =~= Seq::<char>::empty());
    } else {
        let before = records.drop_last();
        let last = records.last();
        law_run_totals(headers, invert, before);
        assert(records =~= before.push(last));
        before.lemma_filter_push(last, emits(headers, invert));
        kept(headers, invert, before).lemma_flat_map_push(block_of(), last);
    }
}

/// No run writes more records than it sees.
pub proof fn law_written_at_most_processed(
    headers: Set<Seq<char>>,
    invert: bool,
    records: Seq<RecordView>,
)
    ensures
        kept(headers, invert, records).len() <= records.len(),
{
    records.lemma_filter_len(emits(headers, invert));
}

/// A record is written under exactly one of the two settings of `invert`: the
/// records written with it and those written without it add up to all
/// records.
pub proof fn law_invert_complements(headers: Set<Seq<char>>, records: Seq<RecordView>)
    ensures
        kept(headers, false, records).len() + kept(headers, true, records).len() == records.len(),
    decreases records.len(),
{
    reveal(Seq::filter);
    if records.len() > 0 {
        law_invert_complements(headers, records.drop_last());
    }
}

/// The number of kept records, as a fold that adds one for each of them.
spec fn tally_kept(headers: Set<Seq<char>>, invert: bool) -> spec_fn(nat, RecordView) -> nat {
    |n: nat, r: RecordView|
        if should_emit(invert, headers.contains(r.id)) {
            n + 1
        } else {
            n
        }
}

proof fn lemma_kept_is_fold(headers: Set<Seq<char>>, invert: bool, records: Seq<RecordView>)
    ensures
        kept(headers, invert, records).len() == records.fold_left(
            0nat,
            tally_kept(headers, invert),
        ),
    decreases records.len(),
{
    reveal(Seq::filter);
    if records.len() > 0 {
        lemma_kept_is_fold(headers, invert, records.drop_last());
    }
}

/// The counts of a filtering run do not depend on the order in which the
/// records are applied: over rearrangements of the same records, as many are
/// seen and as many are written. So the counts are the same for every number
/// of worker threads and every schedule.
pub proof fn law_counts_ignore_order(
    headers: Set<Seq<char>>,
    invert: bool,
    a: Seq<RecordView>,
    b: Seq<RecordView>,
)
    requires
        a.to_multiset() == b.to_multiset(),
    ensures
        run(FilterView::start(headers, invert), a).processed == run(
            FilterView::start(headers, invert),
            b,
        ).processed,
        run(FilterView::start(headers, invert), a).written == run(
            FilterView::start(headers, invert),
            b,
        ).written,
        a.len() == b.len(),
        kept(headers, invert, a).len() == kept(headers, invert, b).len(),
{
    to_multiset_len(a);
    to_multiset_len(b);
    let f = tally_kept(headers, invert);
    assert(commutative_foldl(f));
    lemma_fold_left_permutation(a, b, f, 0nat);
    lemma_kept_is_fold(headers, invert, a);
    lemma_kept_is_fold(headers, invert, b);
    law_run_totals(headers, invert, a);
    law_run_totals(headers, invert, b);
}

/// The total of the sequence lengths, as a fold that adds each length.
spec fn tally_bases() -> spec_fn(nat, RecordView) -> nat {
    |n: nat, r: RecordView| n + r.seq.len()
}

proof fn lemma_bases_is_fold(records: Seq<RecordView>)
    ensures
        total_bases(records) == records.fold_left(0nat, tally_bases()),
    decreases records.len(),
{
    if records.len() > 0 {
        lemma_bases_is_fold(records.drop_last());
    }
}

/// The totals of a counting run depend on the records alone, not on the order
/// in which they are counted: two runs over the same records, each in
/// whatever order its workers hand them in, report the same number of records
/// and the same number of bases.
pub proof fn law_count_ignores_order(a: Seq<RecordView>, b: Seq<RecordView>)
    requires
        a.to_multiset() == b.to_multiset(),
    ensures
        a.len() == b.len(),
        total_bases(a) == total_bases(b),
{
    to_multiset_len(a);
    to_multiset_len(b);
    let f = tally_bases();
    assert(commutative_foldl(f));
    lemma_fold_left_permutation(a, b, f, 0nat);
    lemma_bases_is_fold(a);
    lemma_bases_is_fold(b);
}

/// Where no identifier of the input is in the header set, a plain run writes
/// nothing, and an inverted run writes every record.
pub proof fn law_disjoint_headers(headers: Set<Seq<char>>, records: Seq<RecordView>)
    requires
        forall|i: int| 0 <= i < records.len() ==> !headers.contains(#[trigger] records[i].id),
    ensures
        kept(headers, false, records).len() == 0,
        output_text(headers, false, records) == Seq::<char>::empty(),
        kept(headers, true, records) == records,
        kept(headers, true, records).len() == records.len(),
    decreases records.len(),
{
    reveal(Seq::filter);
    if records.len() > 0 {
        let before = records.drop_last();
        assert forall|i: int| 0 <= i < before.len() implies !headers.contains(
            #[trigger] before[i].id,
        ) by {
            assert(before[i] == records[i]);
        }
        law_disjoint_headers(headers, before);
        assert(kept(headers, true, records) =~= records);
    }
    assert(kept(headers, false, records) =~= Seq::<RecordView>::empty());
    assert(output_text(headers, false, records) =~= Seq::<char>::empty());
}

/// One step of a collecting run, as a function on lists and records.
pub open spec fn collect_fn() -> spec_fn(Seq<TextView>, RecordView) -> Seq<TextView> {
    |collected: Seq<TextView>, r: RecordView| collected.push(decoded(r))
}

/// A collecting run that is handed `records` in their order ends with one
/// record out for each record in, the first from the first, the second from
/// the second, and so on: the input order is kept exactly.
pub proof fn law_collect_keeps_order(records: Seq<RecordView>)
    ensures
        records.fold_left(Seq::<TextView>::empty(), collect_fn()) == records.map_values(
            decode_fn(),
        ),
        records.map_values(decode_fn()).len() == records.len(),
        forall|i: int|
            0 <= i < records.len() ==> records.map_values(decode_fn())[i] == decoded(records[i]),
    decreases records.len(),
{
    if records.len() > 0 {
        let before = records.drop_last();
        law_collect_keeps_order(before);
        assert(records.map_values(decode_fn()) =~= before.map_values(decode_fn()).push(
            decoded(records.last()),
        ));
    } else {
        assert(records.map_values(decode_fn()) =~= Seq::<TextView>::empty());
    }
}

/// Ordered-Collect runs on one thread, whatever number is asked for and
/// however many CPUs the machine has: that is what hands it the records in
/// input order.
pub proof fn law_ordered_collect_on_one_thread(requested: Option<usize>, available: usize)
    ensures
        threads_for(Mode::OrderedCollect, requested, available) == 1,
{
}

} // verus!
