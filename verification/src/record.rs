//! Sequence records: as the record source delivers them, and as text.
//!
//! A record source hands over the identifier as text and the sequence and
//! quality as bytes. `RawRecord` holds such a record; `TextRecord` holds one
//! whose sequence and quality have been decoded.

use vstd::prelude::*;
use vstd::utf8::{decode_utf8, valid_utf8};

verus! {

/// The model of a record as delivered: identifier, sequence bytes and, for
/// quality-annotated formats, quality bytes.
pub struct RecordView {
    pub id: Seq<char>,
    pub seq: Seq<u8>,
    pub qual: Option<Seq<u8>>,
}

/// The model of a decoded record.
pub struct TextView {
    pub id: Seq<char>,
    pub seq: Seq<char>,
    pub qual: Option<Seq<char>>,
}

/// A record as delivered by the record source.
#[derive(Debug)]
pub struct RawRecord {
    pub id: String,
    pub seq: Vec<u8>,
    pub qual: Option<Vec<u8>>,
}

/// A record whose sequence and quality are text. `qual` is `None` for formats
/// without quality.
#[derive(Debug)]
pub struct TextRecord {
    pub id: String,
    pub seq: String,
    pub qual: Option<String>,
}

impl View for RawRecord {
    type V = RecordView;

    open spec fn view(&self) -> RecordView {
        RecordView {
            id: self.id@,
            seq: self.seq@,
            qual: match self.qual {
                Some(q) => Some(q@),
                None => None,
            },
        }
    }
}

impl DeepView for RawRecord {
    type V = RecordView;

    open spec fn deep_view(&self) -> RecordView {
        self@
    }
}

impl View for TextRecord {
    type V = TextView;

    open spec fn view(&self) -> TextView {
        TextView {
            id: self.id@,
            seq: self.seq@,
            qual: match self.qual {
                Some(q) => Some(q@),
                None => None,
            },
        }
    }
}

impl DeepView for TextRecord {
    type V = TextView;

    open spec fn deep_view(&self) -> TextView {
        self@
    }
}

/// Whether the sequence of every record is valid UTF-8.
pub open spec fn sequences_valid(records: Seq<RecordView>) -> bool {
    forall|i: int| 0 <= i < records.len() ==> valid_utf8(#[trigger] records[i].seq)
}

/// Whether the sequence and, where there is one, the quality of `r` are
/// valid UTF-8.
pub open spec fn decodable(r: RecordView) -> bool {
    &&& valid_utf8(r.seq)
    &&& match r.qual {
        Some(q) => valid_utf8(q),
        None => true,
    }
}

/// The record `r` as text.
pub open spec fn decoded(r: RecordView) -> TextView {
    TextView {
        id: r.id,
        seq: decode_utf8(r.seq),
        qual: match r.qual {
            Some(q) => Some(decode_utf8(q)),
            None => None,
        },
    }
}

} // verus!
