//! The header set: the identifiers a run filters by, and the loaders that
//! build it from a list, from the text of a header file, or from a
//! comma-separated argument.
//!
//! A `HeaderSet` is modelled by the mathematical set of its identifiers,
//! `Set<Seq<char>>`. It is built before a run starts and only read afterwards.

use crate::text::{lemma_position_bounds, lemma_position_of_split, split, split_once_char, trim, trim_str};
use vstd::hash_set::StringHashSet;
use vstd::prelude::*;

verus! {

/// Trimming, as a function on pieces.
pub open spec fn trimmed() -> spec_fn(Seq<char>) -> Seq<char> {
    |piece: Seq<char>| trim(piece)
}

/// The pieces that are kept: those with at least one character.
pub open spec fn non_blank() -> spec_fn(Seq<char>) -> bool {
    |piece: Seq<char>| piece.len() > 0
}

/// The identifiers that `text` lists: its pieces between occurrences of
/// `sep`, each trimmed, without the blank ones, in the order of the text.
pub open spec fn entries(text: Seq<char>, sep: char) -> Seq<Seq<char>> {
    split(text, sep).map_values(trimmed()).filter(non_blank())
}

/// What one piece contributes to the list of entries.
pub open spec fn entry_of(piece: Seq<char>) -> Seq<Seq<char>> {
    if trim(piece).len() > 0 {
        seq![trim(piece)]
    } else {
        Seq::empty()
    }
}

/// The identifiers that a header argument stands for. Where a file of that
/// name exists, `file_text` holds its text and the lines of the file are the
/// identifiers; otherwise the argument itself is a comma-separated list.
pub open spec fn source_entries(input: Seq<char>, file_text: Option<Seq<char>>) -> Seq<Seq<char>> {
    match file_text {
        Some(text) => entries(text, '\n'),
        None => entries(input, ','),
    }
}

proof fn lemma_entries_of_one(piece: Seq<char>)
    ensures
        seq![piece].map_values(trimmed()).filter(non_blank()) == entry_of(piece),
{
    let mapped = seq![piece].map_values(trimmed());
    assert(mapped =~= Seq::<Seq<char>>::empty().push(trim(piece)));
    Seq::<Seq<char>>::empty().lemma_filter_push(trim(piece), non_blank());
    reveal(Seq::filter);
    assert(Seq::<Seq<char>>::empty().filter(non_blank()) =~= Seq::<Seq<char>>::empty());
}

/// The entries of a text without separator: its one piece.
pub proof fn lemma_entries_last(text: Seq<char>, sep: char)
    requires
        !text.contains(sep),
    ensures
        entries(text, sep) == entry_of(text),
{
    lemma_position_bounds(text, sep);
    assert(split(text, sep) == seq![text]);
    lemma_entries_of_one(text);
}

/// The entries of a text with a separator: what the piece before the first
/// separator contributes, then the entries of the rest.
pub proof fn lemma_entries_step(head: Seq<char>, sep: char, tail: Seq<char>)
    requires
        !head.contains(sep),
    ensures
        entries(head + seq![sep] + tail, sep) == entry_of(head) + entries(tail, sep),
{
    let text = head + seq![sep] + tail;
    lemma_position_of_split(head, sep, tail);
    let rest = split(tail, sep);
    assert(split(text, sep) == seq![head] + rest);
    assert((seq![head] + rest).map_values(trimmed()) =~= seq![head].map_values(trimmed())
        + rest.map_values(trimmed()));
    Seq::filter_distributes_over_add(
        seq![head].map_values(trimmed()),
        rest.map_values(trimmed()),
        non_blank(),
    );
    lemma_entries_of_one(head);
}

/// Appends to `out` what `piece` contributes: its trimmed text, unless blank.
fn keep_entry(out: &mut Vec<String>, piece: &str)
    ensures
        final(out).deep_view() == old(out).deep_view() + entry_of(piece@),
{
    let kept = trim_str(piece);
    if !kept.is_empty() {
        out.push(kept.to_owned());
    }
    assert(out.deep_view() =~= old(out).deep_view() + entry_of(piece@));
}

/// Lists the identifiers in `text`: the pieces between occurrences of `sep`,
/// each trimmed, blank ones dropped, in the order in which they appear.
pub fn parse_entries(text: &str, sep: char) -> (out: Vec<String>)
    ensures
        out.deep_view() == entries(text@, sep),
{
    let mut out: Vec<String> = Vec::new();
    let mut rest: &str = text;
    let mut done = false;
    assert(out.deep_view() =~= Seq::<Seq<char>>::empty());
    while !done
        invariant
            !done ==> entries(text@, sep) == out.deep_view() + entries(rest@, sep),
            done ==> entries(text@, sep) == out.deep_view(),
        decreases
            (if done { 0 } else { rest@.len() + 1 }),
    {
        let ghost before = out.deep_view();
        match split_once_char(rest, sep) {
            Some((head, tail)) => {
                proof {
                    lemma_entries_step(head@, sep, tail@);
                }
                keep_entry(&mut out, head);
                assert(before + (entry_of(head@) + entries(tail@, sep)) =~= (before + entry_of(
                    head@,
                )) + entries(tail@, sep));
                rest = tail;
            },
            None => {
                proof {
                    lemma_entries_last(rest@, sep);
                }
                keep_entry(&mut out, rest);
                done = true;
            },
        }
    }
    out
}

/// Lists the identifiers in the text of a header file: one per line, trimmed,
/// blank lines dropped, in the order of the file.
pub fn load_headers_from_text(text: &str) -> (out: Vec<String>)
    ensures
        out.deep_view() == entries(text@, '\n'),
{
    parse_entries(text, '\n')
}

/// The identifiers that a run filters by, each of them once.
pub struct HeaderSet {
    ids: StringHashSet,
}

impl View for HeaderSet {
    type V = Set<Seq<char>>;

    closed spec fn view(&self) -> Set<Seq<char>> {
        self.ids@
    }
}

impl HeaderSet {
    /// The empty set.
    pub fn new() -> (set: HeaderSet)
        ensures
            set@ == Set::<Seq<char>>::empty(),
            set@.finite(),
    {
        HeaderSet { ids: StringHashSet::new() }
    }

    /// Adds `id`. Returns whether it was new to the set.
    pub fn insert(&mut self, id: String) -> (fresh: bool)
        ensures
            final(self)@ == old(self)@.insert(id@),
            fresh == !old(self)@.contains(id@),
            old(self)@.finite() ==> final(self)@.finite(),
    {
        self.ids.insert(id)
    }

    /// The set of the identifiers in `ids`. Identifiers are taken as they
    /// are; one that occurs more than once counts once.
    pub fn from_list(ids: Vec<String>) -> (set: HeaderSet)
        ensures
            set@ == ids.deep_view().to_set(),
            set@.finite(),
    {
        let ghost all = ids.deep_view();
        let mut ids = ids;
        let mut set = HeaderSet::new();
        while ids.len() > 0
            invariant
                set@.finite(),
                ids.len() <= all.len(),
                ids.deep_view() =~= all.take(ids.len() as int),
                forall|id: Seq<char>|
                    set@.contains(id) <==> all.skip(ids.len() as int).contains(id),
            decreases ids.len(),
        {
            let ghost n = ids.len() as int;
            let ghost held = ids.deep_view();
            let id = ids.pop().unwrap();
            assert(id@ == all[n - 1]) by {
                assert(held[n - 1] == all.take(n)[n - 1]);
            }
            set.insert(id);
            assert forall|x: Seq<char>| set@.contains(x) <==> all.skip(n - 1).contains(x) by {
                let later = all.skip(n);
                let now = all.skip(n - 1);
                if now.contains(x) {
                    let i = choose|i: int| 0 <= i < now.len() && now[i] == x;
                    if i > 0 {
                        assert(later[i - 1] == x);
                    }
                }
                if later.contains(x) {
                    let i = choose|i: int| 0 <= i < later.len() && later[i] == x;
                    assert(now[i + 1] == x);
                }
                assert(now[0] == all[n - 1]);
            }
        }
        assert(all.skip(0) =~= all);
        assert(set@ =~= all.to_set());
        set
    }

    /// Whether `id` is in the set.
    pub fn contains(&self, id: &str) -> (member: bool)
        ensures
            member == self@.contains(id@),
    {
        self.ids.contains(id)
    }

    /// The number of identifiers in the set.
    pub fn len(&self) -> (n: usize)
        ensures
            n == self@.len(),
    {
        self.ids.len()
    }
}

/// Builds the header set that a header argument stands for. `file_text` is
/// the text of the file named by `input`, where such a file exists: then the
/// file decides, one identifier per line. Otherwise `input` is read as a
/// comma-separated list.
pub fn load_headers(input: &str, file_text: Option<&str>) -> (set: HeaderSet)
    ensures
        set@ == source_entries(
            input@,
            match file_text {
                Some(text) => Some(text@),
                None => None,
            },
        ).to_set(),
        set@.finite(),
{
    let listed = match file_text {
        Some(text) => parse_entries(text, '\n'),
        None => parse_entries(input, ','),
    };
    HeaderSet::from_list(listed)
}

} // verus!
