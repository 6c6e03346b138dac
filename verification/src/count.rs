//! Count-Only: the number of records and the total length of their
//! sequences. Nothing is filtered and nothing is written.

use crate::record::{RawRecord, RecordView};
use vstd::prelude::*;
use vstd::string::StringExecFns;

verus! {

/// The model of the two totals.
pub struct CountView {
    pub n_records: nat,
    pub n_bases: nat,
}

/// The sum of the sequence lengths of `records`.
pub open spec fn total_bases(records: Seq<RecordView>) -> nat
    decreases records.len(),
{
    if records.len() == 0 {
        0
    } else {
        total_bases(records.drop_last()) + records.last().seq.len()
    }
}

/// The most bytes that one sequence can hold.
pub const MAX_SEQ_LEN: u128 = 0xffff_ffff_ffff_ffff;

/// The running totals of a counting run.
///
/// The number of bases is kept in 128 bits: the lengths of up to 2^64
/// sequences of up to 2^64 bytes each always fit, so counting a record never
/// overflows it.
#[derive(Debug)]
pub struct FastaCounter {
    n_seqs: u64,
    n_bases: u128,
}

impl View for FastaCounter {
    type V = CountView;

    closed spec fn view(&self) -> CountView {
        CountView { n_records: self.n_seqs as nat, n_bases: self.n_bases as nat }
    }
}

impl FastaCounter {
    #[verifier::type_invariant]
    spec fn bounded(self) -> bool {
        self.n_bases <= self.n_seqs * MAX_SEQ_LEN
    }

    /// Totals at zero.
    pub fn new() -> (counter: FastaCounter)
        ensures
            counter@ == (CountView { n_records: 0, n_bases: 0 }),
    {
        FastaCounter { n_seqs: 0, n_bases: 0 }
    }

    /// Counts one record with sequence `seq`. The number of records has to
    /// stay within `u64`.
    pub fn process_record(&mut self, seq: &[u8])
        requires
            old(self)@.n_records < u64::MAX,
        ensures
            final(self)@ == (CountView {
                n_records: old(self)@.n_records + 1,
                n_bases: old(self)@.n_bases + seq@.len(),
            }),
    {
        proof {
            use_type_invariant(&*self);
        }
        let len = seq.len() as u128;
        self.n_seqs = self.n_seqs + 1;
        self.n_bases = self.n_bases + len;
    }

    /// The number of records counted.
    pub fn n_seqs(&self) -> (n: u64)
        ensures
            n == self@.n_records,
    {
        self.n_seqs
    }

    /// The total length of the sequences counted.
    pub fn n_bases(&self) -> (n: u128)
        ensures
            n == self@.n_bases,
    {
        self.n_bases
    }
}

/// Runs Count-Only over `records`: their number and the sum of their sequence
/// lengths.
pub fn count_records(records: &[RawRecord]) -> (totals: (u64, u128))
    ensures
        totals.0 == records.len(),
        totals.1 == total_bases(records.deep_view()),
{
    let ghost all = records.deep_view();
    let mut counter = FastaCounter::new();
    let mut i: usize = 0;
    assert(all.take(0) =~= Seq::<RecordView>::empty());
    while i < records.len()
        invariant
            i <= records.len(),
            all == records.deep_view(),
            counter@ == (CountView {
                n_records: i as nat,
                n_bases: total_bases(all.take(i as int)),
            }),
        decreases records.len() - i,
    {
        let record = &records[i];
        proof {
            assert(all[i as int] == record@);
            assert(all.take(i + 1).drop_last() =~= all.take(i as int));
        }
        counter.process_record(record.seq.as_slice());
        i += 1;
    }
    assert(all.take(i as int) =~= all);
    (counter.n_seqs(), counter.n_bases())
}

/// The decimal digit for `d`.
pub open spec fn digit(d: nat) -> char
    recommends
        d < 10,
{
    if d == 0 {
        '0'
    } else if d == 1 {
        '1'
    } else if d == 2 {
        '2'
    } else if d == 3 {
        '3'
    } else if d == 4 {
        '4'
    } else if d == 5 {
        '5'
    } else if d == 6 {
        '6'
    } else if d == 7 {
        '7'
    } else if d == 8 {
        '8'
    } else {
        '9'
    }
}

/// `n` in decimal, without leading zeros.
pub open spec fn decimal(n: nat) -> Seq<char>
    decreases n,
{
    if n < 10 {
        seq![digit(n)]
    } else {
        decimal(n / 10).push(digit(n % 10))
    }
}

/// The line that reports the totals: the two numbers in decimal with one tab
/// between them.
pub open spec fn counts_line(n_records: nat, n_bases: nat) -> Seq<char> {
    decimal(n_records) + seq!['\t'] + decimal(n_bases)
}

fn digit_text(d: u128) -> (text: &'static str)
    requires
        d < 10,
    ensures
        text@ == seq![digit(d as nat)],
{
    proof {
        reveal_strlit("0");
        reveal_strlit("1");
        reveal_strlit("2");
        reveal_strlit("3");
        reveal_strlit("4");
        reveal_strlit("5");
        reveal_strlit("6");
        reveal_strlit("7");
        reveal_strlit("8");
        reveal_strlit("9");
    }
    let text = if d == 0 {
        "0"
    } else if d == 1 {
        "1"
    } else if d == 2 {
        "2"
    } else if d == 3 {
        "3"
    } else if d == 4 {
        "4"
    } else if d == 5 {
        "5"
    } else if d == 6 {
        "6"
    } else if d == 7 {
        "7"
    } else if d == 8 {
        "8"
    } else {
        "9"
    };
    assert(text@ =~= seq![digit(d as nat)]);
    text
}

/// Appends `n` in decimal to `out`.
fn push_decimal(out: &mut String, n: u128)
    ensures
        final(out)@ == old(out)@ + decimal(n as nat),
    decreases n,
{
    if n >= 10 {
        push_decimal(out, n / 10);
    }
    out.append(digit_text(n % 10));
    assert(out@ =~= old(out)@ + decimal(n as nat));
}

/// Formats the totals of a counting run: the number of records, a tab, the
/// number of bases.
pub fn format_counts(n_records: u64, n_bases: u128) -> (line: String)
    ensures
        line@ == counts_line(n_records as nat, n_bases as nat),
{
    let mut line = String::new();
    push_decimal(&mut line, n_records as u128);
    proof {
        reveal_strlit("\t");
    }
    line.append("\t");
    push_decimal(&mut line, n_bases);
    assert(line@ =~= counts_line(n_records as nat, n_bases as nat));
    line
}

} // verus!
