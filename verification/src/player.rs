//! The playback dispatcher: resolving a catalog entry to an absolute
//! path, checking that the file is present and of a playable format,
//! and handing a validated request on to whoever spawns the player.
//!
//! Launching the external player process is the surrounding
//! application's job; everything decided before the launch — path
//! resolution, the presence check, the format allow-list — is here.

use crate::song::Song;
use crate::text::{bytes_eq, lower_bytes, to_lower, utf8_bytes};
use vstd::prelude::*;
use vstd::string::{StrSliceExecFns, StringExecFns, StringSliceAdditionalSpecFns};

verus! {

/// The final path component: the bytes after the last `/`, or the whole
/// path when it has none.
pub open spec fn file_part(p: Seq<u8>) -> Seq<u8>
    decreases p.len(),
{
    if p.len() == 0 {
        p
    } else if p.last() == 47 {
        Seq::empty()
    } else {
        file_part(p.drop_last()).push(p.last())
    }
}

/// The index of the last `.` in `f`, or -1 when it has none.
pub open spec fn last_dot(f: Seq<u8>) -> int
    decreases f.len(),
{
    if f.len() == 0 {
        -1
    } else if f.last() == 46 {
        f.len() - 1
    } else {
        last_dot(f.drop_last())
    }
}

/// The extension of a file name: the bytes after its last `.`, empty
/// when there is no `.` past the first byte (so a name with no dot, and
/// a hidden file like `.conf`, have no extension).
pub open spec fn ext_part(f: Seq<u8>) -> Seq<u8> {
    if last_dot(f) >= 1 {
        f.subrange(last_dot(f) + 1, f.len() as int)
    } else {
        Seq::empty()
    }
}

/// The extension of the file named by a path, case-folded.
pub open spec fn extension_of(p: Seq<u8>) -> Seq<u8> {
    lower_bytes(ext_part(file_part(p)))
}

/// The fixed allow-list of playable formats.
pub open spec fn supported_ext(e: Seq<u8>) -> bool {
    ||| e == utf8_bytes("mp3"@)
    ||| e == utf8_bytes("flac"@)
    ||| e == utf8_bytes("wav"@)
    ||| e == utf8_bytes("ogg"@)
    ||| e == utf8_bytes("m4a"@)
    ||| e == utf8_bytes("aac"@)
    ||| e == utf8_bytes("wma"@)
    ||| e == utf8_bytes("opus"@)
    ||| e == utf8_bytes("mp4"@)
    ||| e == utf8_bytes("avi"@)
    ||| e == utf8_bytes("mkv"@)
}

/// Why a playback attempt was refused or failed; recoverable per
/// attempt.
#[derive(Debug)]
pub enum PlaybackError {
    /// Nothing on the filesystem at the resolved path (the payload).
    FileMissing(String),
    /// The file at the resolved path (the payload) has an extension
    /// outside the allow-list.
    UnsupportedFormat(String),
    /// The player process could not be created; raised by the caller
    /// that performs the spawn.
    SpawnFailed(String),
}

/// Why the player is unusable as a whole; fatal at startup.
#[derive(Debug)]
pub enum PlayerUnavailableError {
    /// The capability probe could not be run at all.
    ProbeFailed,
    /// The probe ran but the player reported failure.
    NonZeroExit,
}

/// A validated playback request: the resolved absolute path of an
/// existing, playable file, and the title to announce.
pub struct PlaybackRequest {
    pub path: String,
    pub title: String,
}

/// The playback dispatcher.
pub struct Player {}

/// When the suffix of `p` from `i` on has no `/`, and `i` is 0 or sits
/// right after a `/`, that suffix is the final path component.
proof fn lemma_file_part_suffix(p: Seq<u8>, i: int)
    requires
        0 <= i <= p.len(),
        i == 0 || p[i - 1] == 47,
        forall|k: int| i <= k < p.len() ==> p[k] != 47,
    ensures
        file_part(p) == p.skip(i),
    decreases p.len(),
{
    if p.len() == i {
        if i == 0 {
            assert(file_part(p) =~= p.skip(0));
        } else {
            assert(p.last() == 47);
            assert(file_part(p) =~= p.skip(i));
        }
    } else {
        assert(p[p.len() - 1] != 47);
        lemma_file_part_suffix(p.drop_last(), i);
        assert(p.drop_last().skip(i).push(p.last()) =~= p.skip(i));
    }
}

/// A sequence without a `.` has no last dot.
proof fn lemma_last_dot_none(f: Seq<u8>)
    requires
        forall|k: int| 0 <= k < f.len() ==> f[k] != 46,
    ensures
        last_dot(f) == -1,
    decreases f.len(),
{
    if f.len() > 0 {
        lemma_last_dot_none(f.drop_last());
    }
}

/// A `.` at `d` with none after it is the last dot.
proof fn lemma_last_dot_at(f: Seq<u8>, d: int)
    requires
        0 <= d < f.len(),
        f[d] == 46,
        forall|k: int| d < k < f.len() ==> f[k] != 46,
    ensures
        last_dot(f) == d,
    decreases f.len(),
{
    if d < f.len() - 1 {
        lemma_last_dot_at(f.drop_last(), d);
    }
}

/// The case-folded extension of the file named by the path bytes `p`.
fn extension_vec(p: &Vec<u8>) -> (r: Vec<u8>)
    ensures
        r@ == extension_of(p@),
{
    let n = p.len();
    let mut i: usize = n;
    while i > 0 && p[i - 1] != 47
        invariant
            0 <= i <= n,
            n == p@.len(),
            forall|k: int| i <= k < n ==> p@[k] != 47,
        decreases i,
    {
        i = i - 1;
    }
    let ghost fp = p@.skip(i as int);
    proof {
        lemma_file_part_suffix(p@, i as int);
    }
    let mut j: usize = n;
    while j > i && p[j - 1] != 46
        invariant
            i <= j <= n,
            n == p@.len(),
            forall|k: int| j <= k < n ==> p@[k] != 46,
        decreases j,
    {
        j = j - 1;
    }
    proof {
        if j == i {
            assert(forall|k: int| 0 <= k < fp.len() ==> fp[k] != 46);
            lemma_last_dot_none(fp);
        } else {
            assert(fp[j - i - 1] == p@[j - 1]);
            lemma_last_dot_at(fp, j - i - 1);
        }
    }
    let mut e: Vec<u8> = Vec::new();
    if j >= 2 && j - 2 >= i {
        let mut k: usize = j;
        while k < n
            invariant
                j <= k <= n,
                n == p@.len(),
                e@ == p@.subrange(j as int, k as int),
            decreases n - k,
        {
            e.push(p[k]);
            k = k + 1;
            proof {
                assert(p@.subrange(j as int, k as int) =~= p@.subrange(j as int, k - 1).push(
                    p@[k - 1],
                ));
            }
        }
        proof {
            assert(ext_part(fp) =~= p@.subrange(j as int, n as int));
        }
    } else {
        proof {
            assert(last_dot(fp) < 1);
            assert(e@ =~= ext_part(fp));
        }
    }
    to_lower(&e)
}

/// Whether the (already folded) extension bytes are in the allow-list.
fn supported_bytes(e: &Vec<u8>) -> (r: bool)
    ensures
        r == supported_ext(e@),
{
    if bytes_eq(e, &"mp3".as_bytes_vec()) {
        return true;
    }
    if bytes_eq(e, &"flac".as_bytes_vec()) {
        return true;
    }
    if bytes_eq(e, &"wav".as_bytes_vec()) {
        return true;
    }
    if bytes_eq(e, &"ogg".as_bytes_vec()) {
        return true;
    }
    if bytes_eq(e, &"m4a".as_bytes_vec()) {
        return true;
    }
    if bytes_eq(e, &"aac".as_bytes_vec()) {
        return true;
    }
    if bytes_eq(e, &"wma".as_bytes_vec()) {
        return true;
    }
    if bytes_eq(e, &"opus".as_bytes_vec()) {
        return true;
    }
    if bytes_eq(e, &"mp4".as_bytes_vec()) {
        return true;
    }
    if bytes_eq(e, &"avi".as_bytes_vec()) {
        return true;
    }
    if bytes_eq(e, &"mkv".as_bytes_vec()) {
        return true;
    }
    false
}

/// The absolute path of an entry's file under the media root.
pub fn resolve_path(media_root: &str, file: &str) -> (r: String)
    ensures
        r@ == media_root@ + "/"@ + file@,
{
    let mut p = media_root.to_owned();
    p.append("/");
    p.append(file);
    p
}

impl Player {
    pub fn new() -> Player {
        Player {  }
    }

    /// Whether a (lower-case) extension is in the fixed allow-list of
    /// playable formats.
    pub fn is_supported_format(extension: &str) -> (r: bool)
        ensures
            r == supported_ext(extension.spec_bytes()),
    {
        supported_bytes(&extension.as_bytes_vec())
    }

    /// The playback decision for an entry, given whether its resolved
    /// file is present: a missing file is refused whatever its
    /// extension, a present file outside the format allow-list is
    /// refused before any spawn, and otherwise the validated request is
    /// returned for the caller to launch.
    pub fn decide_play(song: &Song, media_root: &str, file_present: bool) -> (r: Result<
        PlaybackRequest,
        PlaybackError,
    >)
        ensures
            ({
                let full = media_root@ + "/"@ + song.file@;
                &&& !file_present ==> (r matches Err(PlaybackError::FileMissing(p)) && p@ == full)
                &&& (file_present && !supported_ext(extension_of(utf8_bytes(full)))) ==> (
                r matches Err(PlaybackError::UnsupportedFormat(p)) && p@ == full)
                &&& (file_present && supported_ext(extension_of(utf8_bytes(full)))) ==> (
                r matches Ok(req) && req.path@ == full && req.title@ == song.title@)
            }),
    {
        let full = resolve_path(media_root, song.file.as_str());
        if !file_present {
            return Err(PlaybackError::FileMissing(full));
        }
        let ext = extension_vec(&full.as_str().as_bytes_vec());
        if !supported_bytes(&ext) {
            return Err(PlaybackError::UnsupportedFormat(full));
        }
        let title = song.title.clone();
        Ok(PlaybackRequest { path: full, title })
    }

    /// Resolves the entry's path, probes the filesystem for it, and
    /// decides as `decide_play` does for the answer the probe gave.
    pub fn prepare_play(&self, song: &Song, media_root: &str) -> (r: Result<
        PlaybackRequest,
        PlaybackError,
    >)
        ensures
            ({
                let full = media_root@ + "/"@ + song.file@;
                &&& r matches Ok(req) ==> req.path@ == full && supported_ext(
                    extension_of(utf8_bytes(full)),
                ) && req.title@ == song.title@
                &&& r matches Err(PlaybackError::FileMissing(p)) ==> p@ == full
                &&& r matches Err(PlaybackError::UnsupportedFormat(p)) ==> p@ == full
                    && !supported_ext(extension_of(utf8_bytes(full)))
                &&& !(r matches Err(PlaybackError::SpawnFailed(m)))
            }),
    {
        let full = resolve_path(media_root, song.file.as_str());
        let present = crate::probe::path_exists(full.as_str());
        Player::decide_play(song, media_root, present)
    }

    /// Interprets the startup capability probe: the player is available
    /// exactly when its version check could be invoked and reported
    /// success. `invocation` is `None` when the probe could not run,
    /// and otherwise says whether the player exited successfully.
    pub fn availability_outcome(invocation: Option<bool>) -> (r: Result<(), PlayerUnavailableError>)
        ensures
            (r is Ok) <==> invocation == Some(true),
            invocation is None ==> r matches Err(PlayerUnavailableError::ProbeFailed),
            invocation == Some(false) ==> r matches Err(PlayerUnavailableError::NonZeroExit),
    {
        match invocation {
            Some(true) => Ok(()),
            Some(false) => Err(PlayerUnavailableError::NonZeroExit),
            None => Err(PlayerUnavailableError::ProbeFailed),
        }
    }
}

} // verus!
