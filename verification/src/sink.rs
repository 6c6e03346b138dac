//! The sink: where the blocks of the emitted records are collected.

use vstd::prelude::*;
use vstd::string::StringExecFns;

verus! {

/// The block written for one record: a line with `>` and the identifier, then
/// a line with the sequence.
pub open spec fn record_block(id: Seq<char>, seq: Seq<char>) -> Seq<char> {
    seq!['>'] + id + seq!['\n'] + seq + seq!['\n']
}

/// A buffer of output text. Its model is the text emitted since the buffer
/// was last taken.
///
/// `emit` takes `&mut self`, so two calls never overlap, and each call
/// appends its block as a whole: the two lines of a record stay together.
#[derive(Debug)]
pub struct Sink {
    buffer: String,
}

impl View for Sink {
    type V = Seq<char>;

    closed spec fn view(&self) -> Seq<char> {
        self.buffer@
    }
}

impl Sink {
    /// An empty sink.
    pub fn new() -> (sink: Sink)
        ensures
            sink@ == Seq::<char>::empty(),
    {
        Sink { buffer: String::new() }
    }

    /// Appends the block of one record.
    pub fn emit(&mut self, id: &str, seq: &str)
        ensures
            final(self)@ == old(self)@ + record_block(id@, seq@),
    {
        proof {
            reveal_strlit(">");
            reveal_strlit("\n");
        }
        self.buffer.append(">");
        self.buffer.append(id);
        self.buffer.append("\n");
        self.buffer.append(seq);
        self.buffer.append("\n");
        assert(self.buffer@ =~= old(self)@ + record_block(id@, seq@));
    }

    /// Hands out the buffered text and leaves the sink empty.
    pub fn take(&mut self) -> (text: String)
        ensures
            text@ == old(self)@,
            final(self)@ == Seq::<char>::empty(),
    {
        let mut text = String::new();
        std::mem::swap(&mut self.buffer, &mut text);
        text
    }
}

} // verus!
