//! The catalog entry type and the matching predicate of the search.
//!
//! A `Song` is one playable item of the catalog: a numeric identifier
//! used for ordering and prefix matching, a display title used for
//! substring matching, and a file name relative to the media root.

use crate::text::{contains_sub, int_text, is_prefix, lower_bytes, utf8_bytes};
use vstd::prelude::*;

verus! {

/// One entry of the catalog.
pub struct Song {
    /// Catalog identifier; the natural sort key, and its decimal text
    /// form is the prefix-match key.
    pub number: i64,
    /// Display name, matched case-insensitively as a substring.
    pub title: String,
    /// File name, relative to the configured media root.
    pub file: String,
}

/// The mathematical value of a catalog entry.
#[verifier::ext_equal]
pub ghost struct SongView {
    pub number: int,
    pub title: Seq<char>,
    pub file: Seq<char>,
}

impl View for Song {
    type V = SongView;

    open spec fn view(&self) -> SongView {
        SongView { number: self.number as int, title: self.title@, file: self.file@ }
    }
}

impl Clone for Song {
    fn clone(&self) -> (r: Song)
        ensures
            r@ == self@,
    {
        let r = Song { number: self.number, title: self.title.clone(), file: self.file.clone() };
        proof {
            assert(r@ =~= self@);
        }
        r
    }
}

/// The views of a sequence of entries.
pub open spec fn views(s: Seq<Song>) -> Seq<SongView> {
    s.map_values(|x: Song| x@)
}

/// The entries are in ascending order of `number` (ties adjacent).
pub open spec fn sorted_by_number(s: Seq<SongView>) -> bool {
    forall|i: int, j: int| 0 <= i < j < s.len() ==> #[trigger] s[i].number <= #[trigger] s[j].number
}

/// The UTF-8 bytes of an entry's title.
pub open spec fn title_bytes(s: SongView) -> Seq<u8> {
    utf8_bytes(s.title)
}

/// An entry matches a query when the query is a prefix of the decimal
/// text form of its number, or a case-insensitive (ASCII folding)
/// substring of its title.
pub open spec fn song_matches(s: SongView, pat: Seq<u8>) -> bool {
    is_prefix(pat, int_text(s.number)) || contains_sub(lower_bytes(title_bytes(s)), lower_bytes(pat))
}

/// Whether an entry matches the query bytes `pat`.
pub fn song_matches_exec(s: &Song, pat: &Vec<u8>) -> (r: bool)
    ensures
        r == song_matches(s@, pat@),
{
    let digits = crate::text::number_text(s.number);
    if crate::text::prefix_check(pat, &digits) {
        return true;
    }
    let tb = s.title.as_str().as_bytes_vec();
    let tl = crate::text::to_lower(&tb);
    let pl = crate::text::to_lower(pat);
    crate::text::substring_check(&tl, &pl)
}

} // verus!
