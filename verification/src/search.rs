//! The query semantics of the catalog: filtering on the matching
//! predicate, ordering ascending by number, and capping the result.
//!
//! These functions are pure: they take the catalog rows as a value, so
//! everything stated here holds for whatever rows the backing store
//! handed over.

use crate::song::{song_matches, sorted_by_number, views, Song, SongView};
use crate::text::ws_only;
use vstd::multiset::Multiset;
use vstd::string::StringSliceAdditionalSpecFns;
use vstd::prelude::*;

verus! {

broadcast use {vstd::seq_lib::group_to_multiset_ensures, vstd::multiset::group_multiset_axioms};

/// The largest number of entries a search may return.
pub const RESULT_CAP: usize = 10;

/// The matching predicate for query bytes `pat`, as a value.
pub open spec fn match_pred(pat: Seq<u8>) -> spec_fn(SongView) -> bool {
    |x: SongView| song_matches(x, pat)
}

/// The entries of `rows` that match `pat`, in their original order.
pub open spec fn matching(rows: Seq<SongView>, pat: Seq<u8>) -> Seq<SongView> {
    rows.filter(match_pred(pat))
}

/// Filtering a sequence extended by one element appends that element
/// exactly when it satisfies the predicate.
proof fn lemma_filter_push<A>(s: Seq<A>, x: A, pred: spec_fn(A) -> bool)
    ensures
        s.push(x).filter(pred) == if pred(x) {
            s.filter(pred).push(x)
        } else {
            s.filter(pred)
        },
{
    reveal(Seq::filter);
    assert(s.push(x).drop_last() =~= s);
    assert(s.push(x).last() == x);
}

/// The index of an entry with the smallest number.
fn index_of_min(v: &Vec<Song>) -> (m: usize)
    requires
        v@.len() > 0,
    ensures
        m < v@.len(),
        forall|j: int| 0 <= j < v@.len() ==> v@[m as int]@.number <= #[trigger] v@[j]@.number,
{
    let mut m: usize = 0;
    let mut i: usize = 1;
    while i < v.len()
        invariant
            0 < i <= v@.len(),
            m < i,
            forall|j: int| 0 <= j < i ==> v@[m as int]@.number <= #[trigger] v@[j]@.number,
        decreases v@.len() - i,
    {
        if v[i].number < v[m].number {
            m = i;
        }
        i = i + 1;
    }
    m
}

/// Sorts catalog entries ascending by `number`; the result holds exactly
/// the entries given, as a multiset.
pub fn sort_by_number_vec(songs: Vec<Song>) -> (out: Vec<Song>)
    ensures
        sorted_by_number(views(out@)),
        views(out@).to_multiset() == views(songs@).to_multiset(),
        out@.len() == songs@.len(),
{
    let mut rest = songs;
    let mut out: Vec<Song> = Vec::new();
    proof {
        assert(views(out@) =~= Seq::<SongView>::empty());
        assert(views(out@).to_multiset().add(views(rest@).to_multiset()) =~= views(
            rest@,
        ).to_multiset());
    }
    while rest.len() > 0
        invariant
            views(out@).to_multiset().add(views(rest@).to_multiset()) == views(
                songs@,
            ).to_multiset(),
            sorted_by_number(views(out@)),
            out@.len() + rest@.len() == songs@.len(),
            forall|i: int, j: int|
                0 <= i < out@.len() && 0 <= j < rest@.len() ==> #[trigger] out@[i]@.number
                    <= #[trigger] rest@[j]@.number,
        decreases rest@.len(),
    {
        let ghost vo = views(out@);
        let ghost vr = views(rest@);
        let m = index_of_min(&rest);
        let s = rest.remove(m);
        proof {
            assert(views(rest@) =~= vr.remove(m as int));
            assert(vr[m as int] == s@);
            assert(views(rest@).to_multiset() == vr.to_multiset().remove(s@));
        }
        out.push(s);
        proof {
            assert(views(out@) =~= vo.push(s@));
            assert(views(out@).to_multiset() == vo.to_multiset().insert(s@));
            assert(vr.to_multiset().contains(s@));
            assert(views(out@).to_multiset().add(views(rest@).to_multiset()) =~= vo.to_multiset().add(
                vr.to_multiset(),
            ));
        }
    }
    proof {
        assert(views(rest@) =~= Seq::<SongView>::empty());
        assert(views(out@).to_multiset().add(views(rest@).to_multiset()) =~= views(
            out@,
        ).to_multiset());
    }
    out
}

/// The entries of `rows` matching the query bytes `pat`, in their
/// original order, as fresh values.
pub fn filter_matching(rows: &Vec<Song>, pat: &Vec<u8>) -> (out: Vec<Song>)
    ensures
        views(out@) == matching(views(rows@), pat@),
{
    let mut out: Vec<Song> = Vec::new();
    let mut i: usize = 0;
    proof {
        reveal(Seq::filter);
        assert(views(rows@).take(0) =~= Seq::<SongView>::empty());
        assert(views(out@) =~= views(rows@).take(0).filter(match_pred(pat@)));
    }
    while i < rows.len()
        invariant
            0 <= i <= rows@.len(),
            views(out@) == views(rows@).take(i as int).filter(match_pred(pat@)),
        decreases rows@.len() - i,
    {
        let ghost prefix = views(rows@).take(i as int);
        let matched = crate::song::song_matches_exec(&rows[i], pat);
        if matched {
            out.push(rows[i].clone());
        }
        proof {
            lemma_filter_push(prefix, views(rows@)[i as int], match_pred(pat@));
            assert(views(rows@).take(i + 1) =~= prefix.push(views(rows@)[i as int]));
            if matched {
                assert(views(out@) =~= prefix.filter(match_pred(pat@)).push(
                    views(rows@)[i as int],
                ));
            }
        }
        i = i + 1;
    }
    proof {
        assert(views(rows@).take(rows@.len() as int) =~= views(rows@));
    }
    out
}

/// The search result for query `pattern` over the catalog rows `rows`.
///
/// A whitespace-only query returns nothing. Otherwise the result holds
/// matching entries only, drawn from `rows`, ascending by number, capped
/// at `RESULT_CAP`, and no matching entry left out has a number below
/// any entry returned — the result is a smallest-numbered selection of
/// the matches.
pub fn select_matches(rows: &Vec<Song>, pattern: &str) -> (out: Vec<Song>)
    ensures
        ws_only(pattern@) ==> out@.len() == 0,
        !ws_only(pattern@) ==> out@.len() == if matching(
            views(rows@),
            pattern.spec_bytes(),
        ).len() < RESULT_CAP {
            matching(views(rows@), pattern.spec_bytes()).len()
        } else {
            RESULT_CAP as nat
        },
        sorted_by_number(views(out@)),
        views(out@).to_multiset().subset_of(
            matching(views(rows@), pattern.spec_bytes()).to_multiset(),
        ),
        forall|i: int|
            0 <= i < out@.len() ==> song_matches(#[trigger] views(out@)[i], pattern.spec_bytes()),
        forall|x: SongView|
            matching(views(rows@), pattern.spec_bytes()).to_multiset().count(x) > views(
                out@,
            ).to_multiset().count(x) ==> forall|i: int|
                0 <= i < out@.len() ==> #[trigger] views(out@)[i].number <= x.number,
        !ws_only(pattern@) ==> selection_of(
            matching(views(rows@), pattern.spec_bytes()),
            views(out@),
        ),
{
    if crate::text::str_all_ws(pattern) {
        let out: Vec<Song> = Vec::new();
        proof {
            assert(views(out@) =~= Seq::<SongView>::empty());
            assert(views(out@).to_multiset() =~= Multiset::<SongView>::empty());
            assert(views(out@).to_multiset().subset_of(
                matching(views(rows@), pattern.spec_bytes()).to_multiset(),
            ));
        }
        return out;
    }
    let pat = pattern.as_bytes_vec();
    let ghost f = matching(views(rows@), pat@);
    let matched = filter_matching(rows, &pat);
    let mut sorted = sort_by_number_vec(matched);
    let ghost full = views(sorted@);
    proof {
        assert(full.to_multiset() == f.to_multiset());
        assert(full.len() == f.len());
        broadcast use vstd::seq_lib::group_filter_ensures;

    }
    if sorted.len() > RESULT_CAP {
        let ghost pre = full.take(RESULT_CAP as int);
        let ghost post = full.skip(RESULT_CAP as int);
        sorted.truncate(RESULT_CAP);
        proof {
            assert(views(sorted@) =~= pre);
            assert(full =~= pre + post);
            vstd::seq_lib::lemma_multiset_commutative(pre, post);
            assert(full.to_multiset() == pre.to_multiset().add(post.to_multiset()));
            assert forall|x: SongView|
                f.to_multiset().count(x) > views(sorted@).to_multiset().count(x) implies forall|
                i: int,
            |
                0 <= i < sorted@.len() ==> #[trigger] views(sorted@)[i].number <= x.number by {
                assert(post.to_multiset().count(x) > 0);
                assert(post.contains(x));
                let j = choose|j: int| 0 <= j < post.len() && post[j] == x;
                assert(full[RESULT_CAP + j] == x);
                assert forall|i: int| 0 <= i < sorted@.len() implies #[trigger] views(
                    sorted@,
                )[i].number <= x.number by {
                    assert(views(sorted@)[i] == full[i]);
                }
            }
            lemma_members_match(views(rows@), pat@, views(sorted@));
        }
        sorted
    } else {
        proof {
            assert forall|x: SongView|
                f.to_multiset().count(x) > views(sorted@).to_multiset().count(x) implies forall|
                i: int,
            |
                0 <= i < sorted@.len() ==> #[trigger] views(sorted@)[i].number <= x.number by {
            }
            lemma_members_match(views(rows@), pat@, views(sorted@));
        }
        sorted
    }
}

/// The shape the search contract fixes for a result `out` over the
/// sequence `f` of matching entries: ascending by number, drawn from
/// `f`, as many as `f` offers up to `RESULT_CAP`, and no entry of `f`
/// left out (as a multiset) has a number below any entry returned.
pub open spec fn selection_of(f: Seq<SongView>, out: Seq<SongView>) -> bool {
    &&& sorted_by_number(out)
    &&& out.to_multiset().subset_of(f.to_multiset())
    &&& out.len() == if f.len() < RESULT_CAP {
        f.len()
    } else {
        RESULT_CAP as nat
    }
    &&& forall|x: SongView|
        #[trigger] f.to_multiset().count(x) > out.to_multiset().count(x) ==> forall|i: int|
            0 <= i < out.len() ==> #[trigger] out[i].number <= x.number
}

/// A well-formed catalog: the numbers are pairwise distinct.
pub open spec fn distinct_numbers(s: Seq<SongView>) -> bool {
    forall|i: int, j: int|
        0 <= i < j < s.len() ==> #[trigger] s[i].number != #[trigger] s[j].number
}

/// The number of an entry determines the entry: no two different
/// entries of `s` bear the same number. Weaker than `distinct_numbers`:
/// a catalog that repeats whole rows still satisfies it.
pub open spec fn number_determines(s: Seq<SongView>) -> bool {
    forall|i: int, j: int|
        #![trigger s[i].number, s[j].number]
        0 <= i < s.len() && 0 <= j < s.len() && s[i].number == s[j].number ==> s[i] == s[j]
}

/// Pairwise-distinct numbers are a special case of numbers determining
/// entries.
pub proof fn lemma_distinct_numbers_determine(s: Seq<SongView>)
    requires
        distinct_numbers(s),
    ensures
        number_determines(s),
{
    assert forall|i: int, j: int|
        #![trigger s[i].number, s[j].number]
        0 <= i < s.len() && 0 <= j < s.len() && s[i].number == s[j].number implies s[i] == s[j] by {
        if i < j {
            assert(s[i].number != s[j].number);
        } else if j < i {
            assert(s[j].number != s[i].number);
        }
    }
}

/// A sub-multiset of the same size is the whole multiset.
proof fn lemma_submultiset_same_len(m1: Multiset<SongView>, m2: Multiset<SongView>)
    requires
        m1.subset_of(m2),
        m1.len() == m2.len(),
    ensures
        m1 == m2,
{
    let d = m2.sub(m1);
    assert(d.len() == 0);
    vstd::multiset::lemma_multiset_empty_len(d);
    assert forall|x: SongView| m1.count(x) == m2.count(x) by {
        assert(d.count(x) == 0);
    }
    assert(m1 =~= m2);
}

/// Two sequences sorted by number and holding the same entries are
/// equal, provided a number never names two different entries.
pub proof fn lemma_sorted_unique_entries(a: Seq<SongView>, b: Seq<SongView>)
    requires
        sorted_by_number(a),
        sorted_by_number(b),
        number_determines(a),
        a.to_multiset() == b.to_multiset(),
    ensures
        a =~= b,
    decreases a.len(),
{
    assert(a.to_multiset().len() == a.len());
    assert(b.to_multiset().len() == b.len());
    if a.len() > 0 {
        assert(a.contains(a[0]));
        assert(a.to_multiset().count(a[0]) > 0);
        assert(b.to_multiset().count(a[0]) > 0);
        assert(b.contains(a[0]));
        let j = choose|j: int| 0 <= j < b.len() && b[j] == a[0];
        assert(b[0].number <= b[j].number);
        assert(b.contains(b[0]));
        assert(a.to_multiset().count(b[0]) > 0);
        assert(a.contains(b[0]));
        let i = choose|i: int| 0 <= i < a.len() && a[i] == b[0];
        assert(a[0].number <= a[i].number);
        assert(a[0].number == b[0].number);
        assert(a[0].number == a[i].number);
        assert(a[0] == a[i]);
        assert(a[0] == b[0]);
        let a1 = a.drop_first();
        let b1 = b.drop_first();
        assert(a1 =~= a.remove(0));
        assert(b1 =~= b.remove(0));
        assert(a.remove(0).to_multiset() =~= a.to_multiset().remove(a[0]));
        assert(b.remove(0).to_multiset() =~= b.to_multiset().remove(b[0]));
        assert(a1.to_multiset() == b1.to_multiset());
        assert(sorted_by_number(a1) && sorted_by_number(b1) && number_determines(a1)) by {
            assert(forall|k: int| 0 <= k < a1.len() ==> a1[k] == a[k + 1]);
            assert(forall|k: int| 0 <= k < b1.len() ==> b1[k] == b[k + 1]);
        }
        lemma_sorted_unique_entries(a1, b1);
        assert forall|k: int| 0 <= k < a.len() implies a[k] == b[k] by {
            if k > 0 {
                assert(a1[k - 1] == b1[k - 1]);
            }
        }
        assert(a =~= b);
    }
}

/// Two results that the search contract admits over the same matches
/// hold the same entries.
proof fn lemma_selection_multiset(f: Seq<SongView>, a: Seq<SongView>, b: Seq<SongView>)
    requires
        number_determines(f),
        selection_of(f, a),
        selection_of(f, b),
    ensures
        a.to_multiset() == b.to_multiset(),
{
    assert(a.to_multiset().len() == a.len());
    assert(b.to_multiset().len() == b.len());
    if forall|x: SongView| #[trigger] b.to_multiset().count(x) <= a.to_multiset().count(x) {
        lemma_submultiset_same_len(b.to_multiset(), a.to_multiset());
    } else if forall|x: SongView| #[trigger] a.to_multiset().count(x) <= b.to_multiset().count(x) {
        lemma_submultiset_same_len(a.to_multiset(), b.to_multiset());
    } else {
        let x = choose|x: SongView| a.to_multiset().count(x) > b.to_multiset().count(x);
        let y = choose|y: SongView| b.to_multiset().count(y) > a.to_multiset().count(y);
        assert(a.to_multiset().count(x) > 0);
        assert(a.contains(x));
        assert(b.to_multiset().count(y) > 0);
        assert(b.contains(y));
        let ia = choose|ia: int| 0 <= ia < a.len() && a[ia] == x;
        let jb = choose|jb: int| 0 <= jb < b.len() && b[jb] == y;
        assert(f.to_multiset().count(y) >= b.to_multiset().count(y));
        assert(f.to_multiset().count(y) > a.to_multiset().count(y));
        assert(a[ia].number <= y.number);
        assert(f.to_multiset().count(x) >= a.to_multiset().count(x));
        assert(f.to_multiset().count(x) > b.to_multiset().count(x));
        assert(b[jb].number <= x.number);
        assert(x.number == y.number);
        assert(x != y);
        assert(f.to_multiset().count(x) > 0);
        assert(f.contains(x));
        assert(f.to_multiset().count(y) > 0);
        assert(f.contains(y));
        let kx = choose|kx: int| 0 <= kx < f.len() && f[kx] == x;
        let ky = choose|ky: int| 0 <= ky < f.len() && f[ky] == y;
        assert(f[kx].number == f[ky].number);
        assert(f[kx] == f[ky]);
        assert(false);
    }
}

/// Searching is deterministic: any two results the search contract
/// admits for the same matches are equal, entry for entry, whenever a
/// number never names two different entries — so over any catalog with
/// pairwise-distinct numbers, including one that repeats whole rows.
/// Since `search_songs` takes the store by shared reference and goes
/// through `select_matches`, this is the sense in which repeating a
/// search with the same text against an unmodified store yields the
/// identical result.
pub proof fn lemma_search_determined(f: Seq<SongView>, a: Seq<SongView>, b: Seq<SongView>)
    requires
        number_determines(f),
        selection_of(f, a),
        selection_of(f, b),
    ensures
        a =~= b,
{
    lemma_selection_multiset(f, a, b);
    assert forall|i: int, j: int|
        #![trigger a[i].number, a[j].number]
        0 <= i < a.len() && 0 <= j < a.len() && a[i].number == a[j].number implies a[i]
        == a[j] by {
        assert(a.contains(a[i]));
        assert(a.to_multiset().count(a[i]) > 0);
        assert(f.to_multiset().count(a[i]) > 0);
        assert(f.contains(a[i]));
        assert(a.contains(a[j]));
        assert(a.to_multiset().count(a[j]) > 0);
        assert(f.to_multiset().count(a[j]) > 0);
        assert(f.contains(a[j]));
        let kx = choose|kx: int| 0 <= kx < f.len() && f[kx] == a[i];
        let ky = choose|ky: int| 0 <= ky < f.len() && f[ky] == a[j];
        assert(f[kx].number == f[ky].number);
        assert(f[kx] == f[ky]);
    }
    lemma_sorted_unique_entries(a, b);
}

/// Every entry of a selection drawn (as a multiset) from the matching
/// entries of `rows` itself matches the query.
proof fn lemma_members_match(rows: Seq<SongView>, pat: Seq<u8>, out: Seq<SongView>)
    requires
        out.to_multiset().subset_of(matching(rows, pat).to_multiset()),
    ensures
        forall|i: int| 0 <= i < out.len() ==> song_matches(#[trigger] out[i], pat),
{
    let f = matching(rows, pat);
    assert forall|i: int| 0 <= i < out.len() implies song_matches(#[trigger] out[i], pat) by {
        let x = out[i];
        assert(out.contains(x));
        assert(out.to_multiset().count(x) > 0);
        assert(f.to_multiset().count(x) > 0);
        assert(f.contains(x));
        let j = choose|j: int| 0 <= j < f.len() && f[j] == x;
        rows.lemma_filter_pred(match_pred(pat), j);
    }
}

/// The first entry of `s` whose number is `n`, scanning front to back.
pub open spec fn first_with_number(s: Seq<SongView>, n: int) -> Option<SongView>
    decreases s.len(),
{
    if s.len() == 0 {
        None
    } else if s[0].number == n {
        Some(s[0])
    } else {
        first_with_number(s.drop_first(), n)
    }
}

/// `first_with_number` finds an entry exactly when one with that number
/// exists, and what it finds has that number and is drawn from the rows.
pub proof fn lemma_first_with_number_spec(s: Seq<SongView>, n: int)
    ensures
        (first_with_number(s, n) is Some) <==> exists|i: int|
            0 <= i < s.len() && #[trigger] s[i].number == n,
        first_with_number(s, n) matches Some(x) ==> x.number == n && s.contains(x),
    decreases s.len(),
{
    if s.len() > 0 {
        lemma_first_with_number_spec(s.drop_first(), n);
        if s[0].number == n {
        } else {
            if first_with_number(s, n) is Some {
                let i = choose|i: int|
                    0 <= i < s.drop_first().len() && #[trigger] s.drop_first()[i].number == n;
                assert(s[i + 1].number == n);
                let x = first_with_number(s.drop_first(), n).unwrap();
                let j = choose|j: int| 0 <= j < s.drop_first().len() && s.drop_first()[j] == x;
                assert(s[j + 1] == x);
            } else {
                assert forall|i: int| 0 <= i < s.len() implies #[trigger] s[i].number != n by {
                    if i > 0 {
                        assert(s.drop_first()[i - 1] == s[i]);
                    }
                }
            }
        }
    }
}

/// Over a well-formed catalog the exact-match lookup is fully pinned:
/// an entry is found exactly when one with that number exists, and what
/// is found is the one entry bearing that number.
pub proof fn lemma_lookup_unique(s: Seq<SongView>, n: int)
    requires
        distinct_numbers(s),
    ensures
        first_with_number(s, n) matches Some(x) ==> forall|i: int|
            0 <= i < s.len() && #[trigger] s[i].number == n ==> s[i] == x,
{
    lemma_first_with_number_spec(s, n);
    match first_with_number(s, n) {
        Some(x) => {
            assert(s.contains(x));
            let k = choose|k: int| 0 <= k < s.len() && s[k] == x;
            assert forall|i: int| 0 <= i < s.len() && #[trigger] s[i].number == n implies s[i]
                == x by {
                if i < k {
                    assert(s[i].number != s[k].number);
                } else if k < i {
                    assert(s[k].number != s[i].number);
                }
            }
        },
        None => {},
    }
}

/// The exact-match lookup over the catalog rows: the first entry whose
/// number is `number`, or nothing when no entry has it.
pub fn find_by_number(rows: &Vec<Song>, number: i64) -> (r: Option<Song>)
    ensures
        r matches Some(s) ==> first_with_number(views(rows@), number as int) == Some(s@),
        r is None ==> first_with_number(views(rows@), number as int) is None,
{
    let ghost vr = views(rows@);
    proof {
        assert(vr.skip(0) =~= vr);
    }
    let mut i: usize = 0;
    while i < rows.len()
        invariant
            0 <= i <= vr.len(),
            vr == views(rows@),
            first_with_number(vr, number as int) == first_with_number(
                vr.skip(i as int),
                number as int,
            ),
        decreases vr.len() - i,
    {
        let ghost suffix = vr.skip(i as int);
        proof {
            assert(suffix[0] == vr[i as int]);
        }
        if rows[i].number == number {
            let s = rows[i].clone();
            proof {
                assert(first_with_number(suffix, number as int) == Some(suffix[0]));
            }
            return Some(s);
        }
        proof {
            assert(suffix.drop_first() =~= vr.skip(i + 1));
        }
        i = i + 1;
    }
    proof {
        assert(vr.skip(vr.len() as int) =~= Seq::<SongView>::empty());
    }
    None
}

} // verus!
