//! Text primitives shared by the header loaders: whitespace trimming and
//! splitting a text on a separator character.
//!
//! The mathematical model of a text is `Seq<char>`. The executable functions
//! work on `&str` and borrow their pieces from the input.

use vstd::prelude::*;
use vstd::utf8::{decode_utf8, valid_utf8};

verus! {

/// The characters with the Unicode `White_Space` property.
pub open spec fn is_whitespace(c: char) -> bool {
    let u = c as u32;
    ||| 0x09 <= u <= 0x0D
    ||| u == 0x20
    ||| u == 0x85
    ||| u == 0xA0
    ||| u == 0x1680
    ||| 0x2000 <= u <= 0x200A
    ||| u == 0x2028
    ||| u == 0x2029
    ||| u == 0x202F
    ||| u == 0x205F
    ||| u == 0x3000
}

/// `s` without its leading whitespace.
pub open spec fn trim_start(s: Seq<char>) -> Seq<char>
    decreases s.len(),
{
    if s.len() > 0 && is_whitespace(s[0]) {
        trim_start(s.drop_first())
    } else {
        s
    }
}

/// `s` without its trailing whitespace.
pub open spec fn trim_end(s: Seq<char>) -> Seq<char>
    decreases s.len(),
{
    if s.len() > 0 && is_whitespace(s.last()) {
        trim_end(s.drop_last())
    } else {
        s
    }
}

/// `s` without its leading and trailing whitespace.
pub open spec fn trim(s: Seq<char>) -> Seq<char> {
    trim_end(trim_start(s))
}

/// The index of the first occurrence of `c` in `s`, or `s.len()` when `c`
/// does not occur.
pub open spec fn position(s: Seq<char>, c: char) -> nat
    decreases s.len(),
{
    if s.len() == 0 || s[0] == c {
        0
    } else {
        1 + position(s.drop_first(), c)
    }
}

/// The pieces of `s` between occurrences of `sep`. A text without `sep` is
/// one piece; `n` occurrences give `n + 1` pieces, some of them possibly
/// empty.
pub open spec fn split(s: Seq<char>, sep: char) -> Seq<Seq<char>>
    decreases s.len(),
{
    let k = position(s, sep) as int;
    if k >= s.len() {
        seq![s]
    } else {
        seq![s.take(k)] + split(s.skip(k + 1), sep)
    }
}

/// `position` is at most the length, and it is the length exactly when the
/// character does not occur.
pub proof fn lemma_position_bounds(s: Seq<char>, c: char)
    ensures
        position(s, c) <= s.len(),
        position(s, c) < s.len() <==> s.contains(c),
        position(s, c) < s.len() ==> s[position(s, c) as int] == c,
        forall|i: int| 0 <= i < position(s, c) ==> s[i] != c,
    decreases s.len(),
{
    if s.len() == 0 {
    } else if s[0] == c {
        assert(s.contains(c));
    } else {
        let rest = s.drop_first();
        lemma_position_bounds(rest, c);
        let k = position(rest, c) as int;
        if k < rest.len() {
            assert(s[k + 1] == rest[k]);
            assert(s.contains(c));
        } else {
            if s.contains(c) {
                let i = choose|i: int| 0 <= i < s.len() && s[i] == c;
                assert(rest[i - 1] == c);
                assert(rest.contains(c));
            }
        }
        assert forall|i: int| 0 <= i < position(s, c) implies s[i] != c by {
            if i > 0 {
                assert(s[i] == rest[i - 1]);
            }
        }
    }
}

/// A text made of a head without `c`, then `c`, then a tail, has its first
/// `c` right after the head.
pub proof fn lemma_position_of_split(head: Seq<char>, c: char, tail: Seq<char>)
    requires
        !head.contains(c),
    ensures
        position(head + seq![c] + tail, c) == head.len(),
        (head + seq![c] + tail).take(head.len() as int) == head,
        (head + seq![c] + tail).skip(head.len() as int + 1) == tail,
{
    let s = head + seq![c] + tail;
    lemma_position_bounds(s, c);
    let k = position(s, c) as int;
    assert(s[head.len() as int] == c);
    if k < head.len() {
        assert(head[k] == s[k]);
        assert(head.contains(c));
    }
    assert(s.take(head.len() as int) =~= head);
    assert(s.skip(head.len() as int + 1) =~= tail);
}

/// `str::trim`: the slice of `s` left when the leading and the trailing
/// characters with the `White_Space` property are removed.
#[verifier::external_body]
pub(crate) fn trim_str<'a>(s: &'a str) -> (t: &'a str)
    ensures
        t@ == trim(s@),
{
    s.trim()
}

/// `str::split_once` with a character as delimiter: the text before the first
/// occurrence of `delim` and the text after it, or `None` when `delim` does
/// not occur.
#[verifier::external_body]
pub(crate) fn split_once_char<'a>(s: &'a str, delim: char) -> (r: Option<(&'a str, &'a str)>)
    ensures
        match r {
            Some((head, tail)) => s@ == head@ + seq![delim] + tail@ && !head@.contains(delim),
            None => !s@.contains(delim),
        },
{
    s.split_once(delim)
}

/// `std::str::from_utf8`: the text that `bytes` encode, or `None` when they
/// are not valid UTF-8.
#[verifier::external_body]
pub(crate) fn decode_text<'a>(bytes: &'a [u8]) -> (r: Option<&'a str>)
    ensures
        match r {
            Some(text) => valid_utf8(bytes@) && text@ == decode_utf8(bytes@),
            None => !valid_utf8(bytes@),
        },
{
    match std::str::from_utf8(bytes) {
        Ok(text) => Some(text),
        Err(_) => None,
    }
}

} // verus!
