//! The live filter: on every change of the input text the rendered row
//! set is rebuilt, synchronously, from one search against the store, so
//! the view always reflects the most recent completed search.
//!
//! The rows rendered here are plain values; turning them into widgets,
//! and delivering the change events, is the surrounding application's
//! job.

use crate::search::RESULT_CAP;
use crate::song::{song_matches, sorted_by_number, views, Song};
use crate::store::{Database, StoreQueryError};
use crate::text::ws_only;
use vstd::prelude::*;

verus! {

/// The state of the live filter: the query text last processed and the
/// row set rendered for it.
pub struct FilterController {
    /// The query text last processed.
    pub query: String,
    /// The row set rendered for that query.
    pub rendered: Vec<Song>,
}

impl FilterController {
    /// The rendered rows are consistent with the current query: nothing
    /// for a whitespace-only query, and otherwise at most `RESULT_CAP`
    /// matching entries, ascending by number.
    pub open spec fn consistent(self) -> bool {
        &&& ws_only(self.query@) ==> self.rendered@.len() == 0
        &&& sorted_by_number(views(self.rendered@))
        &&& self.rendered@.len() <= RESULT_CAP
        &&& !ws_only(self.query@) ==> forall|i: int|
            0 <= i < self.rendered@.len() ==> song_matches(
                #[trigger] views(self.rendered@)[i],
                crate::text::utf8_bytes(self.query@),
            )
    }

    /// A fresh controller: empty query, nothing rendered.
    pub fn new() -> (c: FilterController)
        ensures
            c.consistent(),
            c.query@.len() == 0,
            c.rendered@.len() == 0,
    {
        let c = FilterController { query: String::new(), rendered: Vec::new() };
        proof {
            assert(views(c.rendered@) =~= Seq::<crate::song::SongView>::empty());
        }
        c
    }

    /// Installs a completed search: the text becomes the current query
    /// and its result rows become the rendered set, exactly — every
    /// previous row is gone, and row `i` of the view is row `i` of the
    /// result.
    pub fn apply_result(&mut self, text: String, rows: Vec<Song>)
        ensures
            final(self).query@ == text@,
            final(self).rendered@ == rows@,
    {
        self.query = text;
        self.rendered = rows;
    }

    /// One rebuild, triggered by a change of the input text: the new
    /// text becomes the current query, the store is searched once, and
    /// `apply_result` makes the search's rows the rendered set — or the
    /// empty set when the search failed, with the error passed on for
    /// the notification surface. A blank query never fails: the store
    /// is not even asked.
    pub fn on_input_change(&mut self, store: &Database, text: String) -> (r: Result<
        (),
        StoreQueryError,
    >)
        ensures
            final(self).query@ == text@,
            final(self).consistent(),
            ws_only(text@) ==> r is Ok,
            r is Err ==> final(self).rendered@.len() == 0,
    {
        match store.search_songs(text.as_str()) {
            Ok(rows) => {
                self.apply_result(text, rows);
                Ok(())
            },
            Err(e) => {
                self.apply_result(text, Vec::new());
                proof {
                    assert(views(self.rendered@) =~= Seq::<crate::song::SongView>::empty());
                }
                Err(e)
            },
        }
    }
}

} // verus!
