//! Byte-level text primitives used by the catalog search: whitespace
//! detection, ASCII case folding, prefix and substring matching, and the
//! decimal text form of a catalog number.
//!
//! All reasoning is done over UTF-8 byte sequences. ASCII-only case
//! folding matches the case-insensitivity the backing store applies to
//! `LIKE` patterns; multi-byte characters compare literally.

use vstd::prelude::*;
use vstd::string::StrSliceExecFns;

verus! {

/// The UTF-8 bytes of a character sequence.
pub open spec fn utf8_bytes(s: Seq<char>) -> Seq<u8> {
    vstd::utf8::encode_utf8(s)
}

/// A Unicode whitespace character: the characters `str::trim` strips,
/// i.e. those with the White_Space property.
pub open spec fn is_ws_char(c: char) -> bool {
    ||| ('\u{0009}' <= c && c <= '\u{000D}')
    ||| c == ' '
    ||| c == '\u{0085}'
    ||| c == '\u{00A0}'
    ||| c == '\u{1680}'
    ||| ('\u{2000}' <= c && c <= '\u{200A}')
    ||| c == '\u{2028}'
    ||| c == '\u{2029}'
    ||| c == '\u{202F}'
    ||| c == '\u{205F}'
    ||| c == '\u{3000}'
}

/// Every character of `s` is whitespace (vacuously true of the empty
/// sequence), so a query with this text asks for nothing.
pub open spec fn ws_only(s: Seq<char>) -> bool {
    forall|i: int| 0 <= i < s.len() ==> is_ws_char(#[trigger] s[i])
}

/// ASCII case folding of one byte: `A`..`Z` map to `a`..`z`, all other
/// bytes are unchanged.
pub open spec fn lower_byte(b: u8) -> u8 {
    if 65 <= b && b <= 90 {
        (b + 32) as u8
    } else {
        b
    }
}

/// ASCII case folding applied to a whole byte sequence.
pub open spec fn lower_bytes(s: Seq<u8>) -> Seq<u8> {
    s.map_values(|b: u8| lower_byte(b))
}

/// `p` is a prefix of `s`.
pub open spec fn is_prefix(p: Seq<u8>, s: Seq<u8>) -> bool {
    p.len() <= s.len() && p == s.subrange(0, p.len() as int)
}

/// `p` occurs in `s` starting at position `i`.
pub open spec fn occurs_at(s: Seq<u8>, p: Seq<u8>, i: int) -> bool {
    0 <= i && i + p.len() <= s.len() && p == s.subrange(i, i + p.len() as int)
}

/// `p` occurs somewhere in `s` as a contiguous subsequence.
pub open spec fn contains_sub(s: Seq<u8>, p: Seq<u8>) -> bool {
    exists|i: int| occurs_at(s, p, i)
}

/// The decimal digits (as ASCII bytes) of a nonnegative number, most
/// significant first, with no leading zeros except for zero itself.
pub open spec fn dec_digits(n: nat) -> Seq<u8>
    decreases n,
{
    if n < 10 {
        seq![(48 + n) as u8]
    } else {
        dec_digits(n / 10).push((48 + n % 10) as u8)
    }
}

/// The text form of a possibly negative number: a minus sign followed by
/// the digits of its magnitude, or just the digits.
pub open spec fn int_text(n: int) -> Seq<u8> {
    if n < 0 {
        seq![45u8] + dec_digits((-n) as nat)
    } else {
        dec_digits(n as nat)
    }
}

/// Whether `c` is Unicode whitespace.
pub fn is_ws_char_exec(c: char) -> (r: bool)
    ensures
        r == is_ws_char(c),
{
    ('\u{0009}' <= c && c <= '\u{000D}') || c == ' ' || c == '\u{0085}' || c == '\u{00A0}' || c
        == '\u{1680}' || ('\u{2000}' <= c && c <= '\u{200A}') || c == '\u{2028}' || c
        == '\u{2029}' || c == '\u{202F}' || c == '\u{205F}' || c == '\u{3000}'
}

/// Whether every character of `s` is whitespace, i.e. `s` trims to the
/// empty string.
pub fn str_all_ws(s: &str) -> (r: bool)
    ensures
        r == ws_only(s@),
{
    let n = s.unicode_len();
    let mut i: usize = 0;
    while i < n
        invariant
            0 <= i <= n,
            n == s@.len(),
            forall|j: int| 0 <= j < i ==> is_ws_char(#[trigger] s@[j]),
        decreases n - i,
    {
        if !is_ws_char_exec(s.get_char(i)) {
            return false;
        }
        i = i + 1;
    }
    true
}

/// ASCII case folding of a byte vector.
pub fn to_lower(v: &Vec<u8>) -> (r: Vec<u8>)
    ensures
        r@ == lower_bytes(v@),
{
    let mut r: Vec<u8> = Vec::new();
    let mut i: usize = 0;
    while i < v.len()
        invariant
            0 <= i <= v@.len(),
            r@.len() == i,
            forall|j: int| 0 <= j < i ==> r@[j] == lower_byte(#[trigger] v@[j]),
        decreases v@.len() - i,
    {
        let b = v[i];
        if 65 <= b && b <= 90 {
            r.push(b + 32);
        } else {
            r.push(b);
        }
        i = i + 1;
    }
    proof {
        assert(r@ =~= lower_bytes(v@));
    }
    r
}

/// Whether two byte vectors hold the same bytes.
pub fn bytes_eq(a: &Vec<u8>, b: &Vec<u8>) -> (r: bool)
    ensures
        r == (a@ == b@),
{
    if a.len() != b.len() {
        proof {
            assert(a@ != b@);
        }
        return false;
    }
    let mut i: usize = 0;
    while i < a.len()
        invariant
            0 <= i <= a@.len(),
            a@.len() == b@.len(),
            forall|j: int| 0 <= j < i ==> a@[j] == b@[j],
        decreases a@.len() - i,
    {
        if a[i] != b[i] {
            return false;
        }
        i = i + 1;
    }
    proof {
        assert(a@ =~= b@);
    }
    true
}

/// Whether `p` is a prefix of `s`.
pub fn prefix_check(p: &Vec<u8>, s: &Vec<u8>) -> (r: bool)
    ensures
        r == is_prefix(p@, s@),
{
    if p.len() > s.len() {
        return false;
    }
    let mut i: usize = 0;
    while i < p.len()
        invariant
            0 <= i <= p@.len(),
            p@.len() <= s@.len(),
            forall|j: int| 0 <= j < i ==> p@[j] == s@[j],
        decreases p@.len() - i,
    {
        if p[i] != s[i] {
            proof {
                assert(s@.subrange(0, p@.len() as int)[i as int] == s@[i as int]);
            }
            return false;
        }
        i = i + 1;
    }
    proof {
        assert(p@ =~= s@.subrange(0, p@.len() as int));
    }
    true
}

/// Whether `p` occurs in `s` as a contiguous subsequence.
pub fn substring_check(s: &Vec<u8>, p: &Vec<u8>) -> (r: bool)
    ensures
        r == contains_sub(s@, p@),
{
    if p.len() > s.len() {
        proof {
            assert(forall|i: int| !occurs_at(s@, p@, i));
        }
        return false;
    }
    let n = s.len();
    let pl = p.len();
    if pl == 0 {
        proof {
            assert(p@ =~= s@.subrange(0, 0));
            assert(occurs_at(s@, p@, 0));
        }
        return true;
    }
    let mut start: usize = 0;
    while start <= n - pl
        invariant
            n == s@.len(),
            pl == p@.len(),
            1 <= p@.len() <= s@.len(),
            0 <= start <= s@.len() - p@.len() + 1,
            forall|i: int| 0 <= i < start ==> !occurs_at(s@, p@, i),
        decreases s@.len() - p@.len() - start + 1,
    {
        let mut k: usize = 0;
        let mut hit = true;
        while k < pl
            invariant
                n == s@.len(),
                pl == p@.len(),
                p@.len() <= s@.len(),
                0 <= start <= s@.len() - p@.len(),
                0 <= k <= p@.len(),
                hit ==> forall|j: int| 0 <= j < k ==> p@[j] == s@[start + j],
                !hit ==> !occurs_at(s@, p@, start as int),
            decreases p@.len() - k,
        {
            if p[k] != s[start + k] {
                proof {
                    assert(s@.subrange(start as int, start + p@.len() as int)[k as int] == s@[start
                        + k]);
                }
                hit = false;
                k = p.len();
            } else {
                k = k + 1;
            }
        }
        if hit {
            proof {
                assert(p@ =~= s@.subrange(start as int, start + p@.len() as int));
                assert(occurs_at(s@, p@, start as int));
            }
            return true;
        }
        start = start + 1;
    }
    proof {
        assert(forall|i: int| !occurs_at(s@, p@, i));
    }
    false
}

/// The decimal text form of a catalog number, as UTF-8 bytes.
pub fn number_text(n: i64) -> (r: Vec<u8>)
    ensures
        r@ == int_text(n as int),
{
    let neg = n < 0;
    let mut m: u64 = if n >= 0 {
        n as u64
    } else {
        (-(n as i128)) as u64
    };
    let ghost m0: nat = m as nat;
    let mut ds: Vec<u8> = Vec::new();
    ds.push(48 + (m % 10) as u8);
    m = m / 10;
    proof {
        if m0 < 10 {
            assert(dec_digits(m0) =~= ds@.reverse());
        } else {
            assert(dec_digits(m0) =~= dec_digits(m as nat) + ds@.reverse());
        }
    }
    while m > 0
        invariant
            m > 0 ==> dec_digits(m0) == dec_digits(m as nat) + ds@.reverse(),
            m == 0 ==> dec_digits(m0) == ds@.reverse(),
        decreases m,
    {
        let ghost pre: Seq<u8> = ds@;
        let ghost mm: nat = m as nat;
        ds.push(48 + (m % 10) as u8);
        m = m / 10;
        proof {
            assert(ds@.reverse() =~= seq![(48 + mm % 10) as u8] + pre.reverse());
            if m > 0 {
                assert(dec_digits(mm) == dec_digits(m as nat).push((48 + mm % 10) as u8));
                assert(dec_digits(m as nat) + ds@.reverse() =~= (dec_digits(m as nat).push(
                    (48 + mm % 10) as u8,
                )) + pre.reverse());
            } else {
                assert(dec_digits(mm) =~= seq![(48 + mm % 10) as u8]);
                assert(ds@.reverse() =~= dec_digits(mm) + pre.reverse());
            }
        }
    }
    let mut r: Vec<u8> = Vec::new();
    let ghost pl: int = if neg {
        1int
    } else {
        0int
    };
    if neg {
        r.push(45);
    }
    let dl = ds.len();
    let mut i: usize = dl;
    while i > 0
        invariant
            0 <= i <= dl,
            dl == ds@.len(),
            r@.len() == pl + (dl - i),
            pl == if neg {
                1int
            } else {
                0int
            },
            neg ==> r@[0] == 45,
            forall|k: int| 0 <= k < dl - i ==> #[trigger] r@[pl + k] == ds@[dl - 1 - k],
        decreases i,
    {
        i = i - 1;
        r.push(ds[i]);
    }
    proof {
        assert(forall|k: int| 0 <= k < dl ==> r@[pl + k] == #[trigger] ds@.reverse()[k]);
        assert(r@ =~= int_text(n as int));
    }
    r
}

} // verus!
