//! Character-level string helpers: splitting on a separator, joining, and
//! comparison, with the spec-level split/join pair proved to be mutual
//! inverses.

use vstd::prelude::*;
use vstd::string::StrSliceExecFns;
use vstd::string::StringExecFns;

verus! {

/// The segments of `s` between occurrences of `c`. A string with no
/// separator is one segment; every separator ends a segment, so the result
/// always holds one segment more than there are separators.
pub open spec fn split_char(s: Seq<char>, c: char) -> Seq<Seq<char>>
    decreases s.len(),
{
    if s.len() == 0 {
        seq![Seq::<char>::empty()]
    } else if s.last() == c {
        split_char(s.drop_last(), c).push(Seq::<char>::empty())
    } else {
        let r = split_char(s.drop_last(), c);
        r.update(r.len() - 1, r.last().push(s.last()))
    }
}

/// The segments re-assembled with `c` between them.
pub open spec fn join_char(segs: Seq<Seq<char>>, c: char) -> Seq<char>
    decreases segs.len(),
{
    if segs.len() == 0 {
        Seq::<char>::empty()
    } else if segs.len() == 1 {
        segs[0]
    } else {
        join_char(segs.drop_last(), c) + seq![c] + segs.last()
    }
}

pub proof fn lemma_split_nonempty(s: Seq<char>, c: char)
    ensures
        split_char(s, c).len() >= 1,
    decreases s.len(),
{
    if s.len() > 0 {
        lemma_split_nonempty(s.drop_last(), c);
    }
}

proof fn lemma_join_extend_last(segs: Seq<Seq<char>>, c: char, ch: char)
    requires
        segs.len() >= 1,
    ensures
        join_char(segs.update(segs.len() - 1, segs.last().push(ch)), c) == join_char(
            segs,
            c,
        ).push(ch),
{
    let upd = segs.update(segs.len() - 1, segs.last().push(ch));
    if segs.len() == 1 {
        assert(join_char(upd, c) =~= join_char(segs, c).push(ch));
    } else {
        assert(upd.drop_last() =~= segs.drop_last());
        assert(join_char(upd, c) =~= join_char(segs, c).push(ch));
    }
}

/// Joining the segments of a split restores the original string.
pub proof fn lemma_join_split(s: Seq<char>, c: char)
    ensures
        join_char(split_char(s, c), c) == s,
    decreases s.len(),
{
    if s.len() == 0 {
    } else if s.last() == c {
        lemma_join_split(s.drop_last(), c);
        lemma_split_nonempty(s.drop_last(), c);
        let sp = split_char(s.drop_last(), c);
        assert(sp.push(Seq::<char>::empty()).drop_last() =~= sp);
        assert(join_char(sp.push(Seq::<char>::empty()), c) =~= join_char(sp, c) + seq![c]);
        assert(join_char(sp, c) + seq![c] =~= s);
    } else {
        lemma_join_split(s.drop_last(), c);
        lemma_split_nonempty(s.drop_last(), c);
        lemma_join_extend_last(split_char(s.drop_last(), c), c, s.last());
        assert(join_char(split_char(s.drop_last(), c), c).push(s.last()) =~= s);
    }
}

/// The views of a sequence of owned strings.
pub open spec fn views_of(v: Seq<String>) -> Seq<Seq<char>> {
    v.map_values(|x: String| x@)
}

/// Split a string on `sep`.
pub fn split_str(s: &str, sep: char) -> (r: Vec<String>)
    ensures
        views_of(r@) == split_char(s@, sep),
        r@.len() >= 1,
{
    let n = s.unicode_len();
    let mut segs: Vec<String> = Vec::new();
    let mut seg_start: usize = 0;
    let mut i: usize = 0;
    proof {
        assert(views_of(segs@).push(s@.subrange(0, 0)) =~~= split_char(s@.take(0), sep));
    }
    while i < n
        invariant
            n == s@.len(),
            i <= n,
            seg_start <= i,
            views_of(segs@).push(s@.subrange(seg_start as int, i as int)) == split_char(
                s@.take(i as int),
                sep,
            ),
            forall|j: int| seg_start <= j < i ==> s@[j] != sep,
        decreases n - i,
    {
        let ch = s.get_char(i);
        proof {
            assert(s@.take(i as int + 1).drop_last() =~= s@.take(i as int));
            assert(s@.take(i as int + 1).last() == s@[i as int]);
        }
        if ch == sep {
            let seg = s.substring_char(seg_start, i);
            segs.push(seg.to_owned());
            proof {
                assert(views_of(segs@).push(Seq::<char>::empty()) =~~= split_char(
                    s@.take(i as int + 1),
                    sep,
                ));
                assert(views_of(segs@).push(s@.subrange(i as int + 1, i as int + 1)) =~~= split_char(
                    s@.take(i as int + 1),
                    sep,
                ));
            }
            seg_start = i + 1;
        } else {
            proof {
                let prev = split_char(s@.take(i as int), sep);
                lemma_split_nonempty(s@.take(i as int), sep);
                assert(prev.last() == s@.subrange(seg_start as int, i as int));
                assert(s@.subrange(seg_start as int, i as int).push(s@[i as int]) =~= s@.subrange(
                    seg_start as int,
                    i as int + 1,
                ));
                assert(views_of(segs@).push(s@.subrange(seg_start as int, i as int + 1))
                    =~~= split_char(s@.take(i as int + 1), sep));
            }
        }
        i = i + 1;
    }
    let last = s.substring_char(seg_start, n);
    segs.push(last.to_owned());
    proof {
        assert(s@.take(n as int) =~= s@);
        assert(views_of(segs@) =~~= split_char(s@, sep));
    }
    segs
}

/// Relies on std's `String::push`: appends exactly the given character.
pub assume_specification[ String::push ](s: &mut String, c: char)
    ensures
        final(s)@ == old(s)@.push(c),
;

/// Character-wise string equality.
pub fn str_eq(a: &str, b: &str) -> (r: bool)
    ensures
        r == (a@ == b@),
{
    let n = a.unicode_len();
    if n != b.unicode_len() {
        proof {
            assert(a@.len() != b@.len());
        }
        return false;
    }
    let mut i: usize = 0;
    while i < n
        invariant
            n == a@.len(),
            n == b@.len(),
            i <= n,
            forall|j: int| 0 <= j < i ==> a@[j] == b@[j],
        decreases n - i,
    {
        if a.get_char(i) != b.get_char(i) {
            return false;
        }
        i = i + 1;
    }
    proof {
        assert(a@ =~= b@);
    }
    true
}

/// Whether `needle` occurs contiguously in `hay` starting at `at`.
pub open spec fn occurs_at(hay: Seq<char>, needle: Seq<char>, at: int) -> bool {
    0 <= at && at + needle.len() <= hay.len() && hay.subrange(at, at + needle.len()) == needle
}

/// Whether `needle` occurs contiguously anywhere in `hay`. The empty string
/// occurs in every string.
pub open spec fn contains_sub(hay: Seq<char>, needle: Seq<char>) -> bool {
    exists|at: int| occurs_at(hay, needle, at)
}

/// Substring search, the containment test behind display-name filters.
pub fn str_contains(hay: &str, needle: &str) -> (r: bool)
    ensures
        r == contains_sub(hay@, needle@),
{
    let n = hay.unicode_len();
    let m = needle.unicode_len();
    if m > n {
        proof {
            assert(forall|at: int| !occurs_at(hay@, needle@, at));
        }
        return false;
    }
    if m == 0 {
        proof {
            assert(hay@.subrange(0, 0) =~= needle@);
            assert(occurs_at(hay@, needle@, 0));
        }
        return true;
    }
    let mut at: usize = 0;
    while at <= n - m
        invariant
            n == hay@.len(),
            m == needle@.len(),
            1 <= m <= n,
            at <= n - m + 1,
            forall|p: int| 0 <= p < at ==> !occurs_at(hay@, needle@, p),
        decreases n - at,
    {
        let mut j: usize = 0;
        let mut hit = true;
        while j < m
            invariant
                n == hay@.len(),
                m == needle@.len(),
                at + m <= n,
                j <= m,
                hit ==> forall|q: int| 0 <= q < j ==> hay@[at + q] == needle@[q],
                !hit ==> !occurs_at(hay@, needle@, at as int),
            decreases m - j,
        {
            if hay.get_char(at + j) != needle.get_char(j) {
                proof {
                    assert(hay@.subrange(at as int, at + m) != needle@) by {
                        assert(hay@.subrange(at as int, at + m)[j as int] != needle@[j as int]);
                    }
                }
                hit = false;
                j = m;
            } else {
                j = j + 1;
            }
        }
        if hit {
            proof {
                assert(hay@.subrange(at as int, at + m) =~= needle@);
                assert(occurs_at(hay@, needle@, at as int));
            }
            return true;
        }
        at = at + 1;
    }
    proof {
        assert forall|p: int| !occurs_at(hay@, needle@, p) by {
            if 0 <= p && p + needle@.len() <= hay@.len() {
                assert(p < at);
            }
        }
    }
    false
}


/// The decimal digits of `n`, most significant first.
pub open spec fn dec_digits(n: nat) -> Seq<char>
    decreases n,
{
    if n < 10 {
        seq![((48 + n) as u8) as char]
    } else {
        dec_digits(n / 10) + seq![((48 + (n % 10)) as u8) as char]
    }
}

/// The decimal form of a signed value.
pub open spec fn dec_i32(v: i32) -> Seq<char> {
    if v < 0 {
        seq!['-'] + dec_digits((0 - v as int) as nat)
    } else {
        dec_digits(v as nat)
    }
}

/// The digit characters of `digs` (least significant first) read most
/// significant first.
pub open spec fn rev_digit_chars(digs: Seq<u8>) -> Seq<char> {
    Seq::new(digs.len(), |i: int| ((48 + digs[digs.len() - 1 - i]) as u8) as char)
}

/// Format a signed value in decimal.
pub fn i32_to_string(v: i32) -> (r: String)
    ensures
        r@ == dec_i32(v),
{
    let neg = v < 0;
    let mut m: u64 = if v < 0 {
        (-(v as i64)) as u64
    } else {
        v as u64
    };
    let ghost orig: nat = m as nat;
    let mut digs: Vec<u8> = Vec::new();
    if m == 0 {
        digs.push(0);
        proof {
            assert(rev_digit_chars(digs@) =~= dec_digits(orig));
        }
    } else {
        while m > 0
            invariant
                orig < 0x1_0000_0000_0000_0000,
                m <= orig,
                m > 0 ==> digs@.len() < 20,
                digs@.len() <= 20,
                forall|j: int| 0 <= j < digs@.len() ==> digs@[j] < 10,
                m > 0 ==> dec_digits(orig) =~= dec_digits(m as nat) + rev_digit_chars(digs@),
                m == 0 ==> dec_digits(orig) =~= rev_digit_chars(digs@),
            decreases m,
        {
            let d = (m % 10) as u8;
            let ghost prev = digs@;
            let ghost m0: nat = m as nat;
            digs.push(d);
            m = m / 10;
            proof {
                assert(rev_digit_chars(digs@) =~= seq![((48 + d) as u8) as char]
                    + rev_digit_chars(prev));
                if m0 >= 10 {
                    assert(dec_digits(m0) == dec_digits(m0 / 10) + seq![
                        ((48 + (m0 % 10)) as u8) as char,
                    ]);
                    assert(dec_digits(m0) + rev_digit_chars(prev) =~= dec_digits(m as nat)
                        + rev_digit_chars(digs@));
                } else {
                    assert(dec_digits(m0) =~= seq![((48 + d) as u8) as char]);
                    assert(dec_digits(m0) + rev_digit_chars(prev) =~= rev_digit_chars(digs@));
                }
                assert(digs@.len() <= 20) by {
                    assert(prev.len() < 20);
                }
                if m > 0 {
                    assert(digs@.len() < 20) by {
                        lemma_dec_digits_len(orig, m as nat, digs@.len() as int);
                    }
                }
            }
        }
    }
    let mut out = String::new();
    if neg {
        out.push('-');
    }
    let n = digs.len();
    let mut i: usize = 0;
    while i < n
        invariant
            n == digs@.len(),
            i <= n,
            forall|j: int| 0 <= j < n ==> digs@[j] < 10,
            out@ =~= (if neg {
                seq!['-']
            } else {
                Seq::<char>::empty()
            }) + rev_digit_chars(digs@).take(i as int),
        decreases n - i,
    {
        out.push((48 + digs[n - 1 - i]) as char);
        proof {
            assert(out@ =~= (if neg {
                seq!['-']
            } else {
                Seq::<char>::empty()
            }) + rev_digit_chars(digs@).take(i as int + 1));
        }
        i = i + 1;
    }
    proof {
        assert(rev_digit_chars(digs@).take(n as int) =~= rev_digit_chars(digs@));
        if neg {
            assert(out@ =~= dec_i32(v));
        } else {
            assert(out@ =~= dec_i32(v));
        }
    }
    out
}

/// A 64-bit value never yields 20 digits while a nonzero remainder is
/// still to be formatted.
proof fn lemma_dec_digits_len(orig: nat, m: nat, produced: int)
    requires
        dec_digits(orig).len() == dec_digits(m).len() + produced,
        orig < 0x1_0000_0000_0000_0000,
        m > 0,
    ensures
        produced < 20,
{
    lemma_dec_digits_len_bound(orig);
    assert(dec_digits(m).len() >= 1);
}

/// A 64-bit value has at most 20 decimal digits.
proof fn lemma_dec_digits_len_bound(n: nat)
    requires
        n < 0x1_0000_0000_0000_0000,
    ensures
        1 <= dec_digits(n).len() <= 20,
{
    lemma_pow10_20();
    lemma_dec_digits_small(n, 20);
    assert(dec_digits(n).len() >= 1);
}

proof fn lemma_pow10_20()
    ensures
        pow10(20) > 0x1_0000_0000_0000_0000,
{
    assert(pow10(1) == 10 * pow10(0));
    assert(pow10(2) == 10 * pow10(1));
    assert(pow10(3) == 10 * pow10(2));
    assert(pow10(4) == 10 * pow10(3));
    assert(pow10(5) == 10 * pow10(4));
    assert(pow10(6) == 10 * pow10(5));
    assert(pow10(7) == 10 * pow10(6));
    assert(pow10(8) == 10 * pow10(7));
    assert(pow10(9) == 10 * pow10(8));
    assert(pow10(10) == 10 * pow10(9));
    assert(pow10(11) == 10 * pow10(10));
    assert(pow10(12) == 10 * pow10(11));
    assert(pow10(13) == 10 * pow10(12));
    assert(pow10(14) == 10 * pow10(13));
    assert(pow10(15) == 10 * pow10(14));
    assert(pow10(16) == 10 * pow10(15));
    assert(pow10(17) == 10 * pow10(16));
    assert(pow10(18) == 10 * pow10(17));
    assert(pow10(19) == 10 * pow10(18));
    assert(pow10(20) == 10 * pow10(19));
}

/// Below `10^k` there are at most `k` digits.
proof fn lemma_dec_digits_small(n: nat, k: int)
    requires
        1 <= k,
        n < pow10(k as nat),
    ensures
        dec_digits(n).len() <= k,
    decreases k,
{
    if n >= 10 {
        assert(pow10(k as nat) == 10 * pow10((k - 1) as nat));
        assert(n / 10 < pow10((k - 1) as nat)) by (nonlinear_arith)
            requires
                n < 10 * pow10((k - 1) as nat),
                n >= 10,
        ;
        assert(k >= 2) by {
            if k == 1 {
                assert(pow10(1nat) == 10 * pow10(0nat));
                assert(pow10(0nat) == 1);
            }
        }
        lemma_dec_digits_small(n / 10, k - 1);
    }
}

/// `10^k`.
pub open spec fn pow10(k: nat) -> nat
    decreases k,
{
    if k == 0 {
        1
    } else {
        10 * pow10((k - 1) as nat)
    }
}

} // verus!
