//! The catalog store: one open connection to a SQLite database holding
//! the `song` table, validated at open, and read-only lookups over it.
//!
//! The store itself is reached through a handful of trusted wrappers;
//! what the wrappers hand back flows through the verified query
//! functions of `crate::search`, so everything stated about search
//! results holds for whatever rows the database yields.

use crate::search::{find_by_number, select_matches, sort_by_number_vec, RESULT_CAP};
use crate::song::{song_matches, sorted_by_number, views, Song};
use crate::text::ws_only;
use vstd::prelude::*;
use vstd::string::StringSliceAdditionalSpecFns;

verus! {

#[verifier::external_type_specification]
#[verifier::external_body]
pub struct ExConnection(sqlite::Connection);

/// Why the store could not be opened. The three kinds are distinct so a
/// missing file, a failed connection and a missing `song` table can be
/// told apart; each carries a detail string (the path, or the message
/// the database library gave).
#[derive(Debug)]
pub enum StoreOpenError {
    /// No file at the configured path (the payload is that path).
    NotFound(String),
    /// A connection could not be established or used.
    ConnectFailed(String),
    /// The database lacks the expected `song` table.
    SchemaInvalid(String),
}

/// A single search, listing or lookup failed; recoverable per attempt.
#[derive(Debug)]
pub struct StoreQueryError {
    pub detail: String,
}

/// Relies on sqlite::Connection::open: opens a read-write connection to
/// the database at `path`. Note that it creates an empty database when
/// the file is absent, which is why `Database::new` probes for the file
/// first. Whether it succeeds depends on the disk, so nothing is stated.
#[verifier::external_body]
fn open_connection(path: &str) -> Result<sqlite::Connection, String> {
    sqlite::Connection::open(path).map_err(|e| format!("{}", e))
}

/// Relies on sqlite::Connection::prepare and sqlite::Statement::next:
/// a row back from this query of the table catalog means the `song`
/// table exists; completion without a row means it does not.
#[verifier::external_body]
fn song_table_exists(conn: &sqlite::Connection) -> Result<bool, String> {
    let q = "SELECT name FROM sqlite_master WHERE type='table' AND name='song';";
    let mut st = conn.prepare(q).map_err(|e| format!("{}", e))?;
    match st.next() {
        Ok(sqlite::State::Row) => Ok(true),
        Ok(sqlite::State::Done) => Ok(false),
        Err(e) => Err(format!("{}", e)),
    }
}

/// Relies on sqlite::Connection::prepare, sqlite::Statement::next and
/// sqlite::Statement::read: the rows of the `song` table, one `Song`
/// per row. A failure at any stage — preparing, stepping or reading a
/// column — is an `Err`, never a truncated row set. The contents depend
/// on the file on disk, so nothing is stated of the rows; the callers
/// state what holds of any rows.
#[verifier::external_body]
fn fetch_song_rows(conn: &sqlite::Connection) -> Result<Vec<Song>, String> {
    let mut st = conn.prepare("SELECT number, title, file FROM song;").map_err(
        |e| format!("{}", e),
    )?;
    let mut rows: Vec<Song> = Vec::new();
    loop {
        match st.next().map_err(|e| format!("{}", e))? {
            sqlite::State::Done => return Ok(rows),
            sqlite::State::Row => rows.push(Song {
                number: st.read::<i64, _>("number").map_err(|e| format!("{}", e))?,
                title: st.read::<String, _>("title").map_err(|e| format!("{}", e))?,
                file: st.read::<String, _>("file").map_err(|e| format!("{}", e))?,
            }),
        }
    }
}

/// The open decision, given the two probe answers: no file at the path
/// is `NotFound`, a file whose database lacks the `song` table is
/// `SchemaInvalid` (both carrying the path), and otherwise the store
/// may be used. The kinds are tied to the answers exactly, so a missing
/// file and a missing table can never be confused with each other or
/// with a connection failure.
pub fn open_outcome(file_present: bool, table_present: bool, path: &str) -> (r: Result<
    (),
    StoreOpenError,
>)
    ensures
        (r matches Err(StoreOpenError::NotFound(p)) && p@ == path@) <==> !file_present,
        (r matches Err(StoreOpenError::SchemaInvalid(p)) && p@ == path@) <==> (file_present
            && !table_present),
        (r is Ok) <==> (file_present && table_present),
{
    if !file_present {
        Err(StoreOpenError::NotFound(path.to_owned()))
    } else if !table_present {
        Err(StoreOpenError::SchemaInvalid(path.to_owned()))
    } else {
        Ok(())
    }
}

/// The size of a fetched row set, as the count query reports it.
pub fn count_rows(rows: &Vec<Song>) -> (c: i64)
    requires
        rows@.len() <= i64::MAX,
    ensures
        c == rows@.len(),
{
    rows.len() as i64
}

/// The catalog store: exactly one open connection, whose database held
/// the `song` table when it was opened. Read-only from here on.
pub struct Database {
    conn: sqlite::Connection,
}

impl Database {
    /// Opens the store at `path`: fails with `NotFound` when no file is
    /// there (checked first, since opening would create one), with
    /// `ConnectFailed` when the database cannot be reached or asked
    /// about its schema, and with `SchemaInvalid` when it has no `song`
    /// table. How each probe answer decides the outcome is the contract
    /// of `open_outcome`, which this composes with the probes.
    pub fn new(path: &str) -> (r: Result<Database, StoreOpenError>)
        ensures
            r matches Err(StoreOpenError::NotFound(p)) ==> p@ == path@,
            r matches Err(StoreOpenError::SchemaInvalid(p)) ==> p@ == path@,
    {
        let file_present = crate::probe::path_exists(path);
        if !file_present {
            return match open_outcome(false, false, path) {
                Err(e) => Err(e),
                Ok(()) => Err(StoreOpenError::NotFound(path.to_owned())),
            };
        }
        let conn = match open_connection(path) {
            Ok(c) => c,
            Err(m) => {
                return Err(StoreOpenError::ConnectFailed(m));
            },
        };
        let table_present = match song_table_exists(&conn) {
            Ok(b) => b,
            Err(m) => {
                return Err(StoreOpenError::ConnectFailed(m));
            },
        };
        match open_outcome(true, table_present, path) {
            Ok(()) => Ok(Database { conn }),
            Err(e) => Err(e),
        }
    }

    /// The live-filter search: nothing for a whitespace-only query;
    /// otherwise the matching entries of the catalog, ascending by
    /// number, at most `RESULT_CAP` of them. The exact relation between
    /// the rows fetched and the result returned is the contract of
    /// `select_matches`.
    pub fn search_songs(&self, search_text: &str) -> (r: Result<Vec<Song>, StoreQueryError>)
        ensures
            ws_only(search_text@) ==> (r matches Ok(v) && v@.len() == 0),
            r matches Ok(v) ==> sorted_by_number(views(v@)) && v@.len() <= RESULT_CAP,
            r matches Ok(v) ==> forall|i: int|
                0 <= i < v@.len() && !ws_only(search_text@) ==> song_matches(
                    #[trigger] views(v@)[i],
                    search_text.spec_bytes(),
                ),
    {
        if crate::text::str_all_ws(search_text) {
            return Ok(Vec::new());
        }
        match fetch_song_rows(&self.conn) {
            Ok(rows) => Ok(select_matches(&rows, search_text)),
            Err(m) => Err(StoreQueryError { detail: m }),
        }
    }

    /// Every catalog entry, ascending by number; for diagnostics, not
    /// the live-filter path.
    pub fn get_all_songs(&self) -> (r: Result<Vec<Song>, StoreQueryError>)
        ensures
            r matches Ok(v) ==> sorted_by_number(views(v@)),
    {
        match fetch_song_rows(&self.conn) {
            Ok(rows) => Ok(sort_by_number_vec(rows)),
            Err(m) => Err(StoreQueryError { detail: m }),
        }
    }

    /// Exact-match lookup: the first entry with this number, or nothing
    /// when the catalog has none.
    pub fn get_song_by_number(&self, number: i64) -> (r: Result<Option<Song>, StoreQueryError>)
        ensures
            r matches Ok(Some(s)) ==> s@.number == number,
    {
        match fetch_song_rows(&self.conn) {
            Ok(rows) => {
                let found = find_by_number(&rows, number);
                proof {
                    crate::search::lemma_first_with_number_spec(views(rows@), number as int);
                }
                Ok(found)
            },
            Err(m) => Err(StoreQueryError { detail: m }),
        }
    }

    /// The total number of catalog entries: the size of the fetched row
    /// set, counted by `count_rows`, whose contract ties the answer to
    /// the rows. Fails only when the fetch fails or the size does not
    /// fit the count's type.
    pub fn count_songs(&self) -> (r: Result<i64, StoreQueryError>)
        ensures
            r matches Ok(c) ==> c >= 0,
    {
        match fetch_song_rows(&self.conn) {
            Ok(rows) => {
                if rows.len() <= i64::MAX as usize {
                    Ok(count_rows(&rows))
                } else {
                    Err(StoreQueryError { detail: "catalog too large to count".to_owned() })
                }
            },
            Err(m) => Err(StoreQueryError { detail: m }),
        }
    }
}

} // verus!
