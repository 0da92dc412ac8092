//! Character-sequence utilities: line splitting, substring search,
//! trimming and integer parsing, each specified over `Seq<char>`.

use vstd::prelude::*;

verus! {

/// The white-space characters recognized by [`trim_spec`]: the Unicode
/// `White_Space` set.
pub open spec fn is_space(c: char) -> bool {
    ||| c == ' '
    ||| '\u{9}' <= c <= '\u{d}'
    ||| c == '\u{85}'
    ||| c == '\u{a0}'
    ||| c == '\u{1680}'
    ||| '\u{2000}' <= c <= '\u{200a}'
    ||| c == '\u{2028}'
    ||| c == '\u{2029}'
    ||| c == '\u{202f}'
    ||| c == '\u{205f}'
    ||| c == '\u{3000}'
}

/// Runtime form of [`is_space`].
pub fn char_is_space(c: char) -> (r: bool)
    ensures
        r == is_space(c),
{
    c == ' ' || ('\u{9}' <= c && c <= '\u{d}') || c == '\u{85}' || c == '\u{a0}' || c == '\u{1680}'
        || ('\u{2000}' <= c && c <= '\u{200a}') || c == '\u{2028}' || c == '\u{2029}'
        || c == '\u{202f}' || c == '\u{205f}' || c == '\u{3000}'
}

/// Index of the first occurrence of `c` in `s`, or `s.len()` if absent.
pub open spec fn first_index_of(s: Seq<char>, c: char) -> int
    decreases s.len(),
{
    if s.len() == 0 {
        0
    } else if s[0] == c {
        0
    } else {
        1 + first_index_of(s.drop_first(), c)
    }
}

/// `first_index_of` finds the leftmost occurrence: nothing before it
/// matches, and it points at a match unless `c` is absent.
pub proof fn lemma_first_index_of(s: Seq<char>, c: char)
    ensures
        0 <= first_index_of(s, c) <= s.len(),
        forall|k: int| 0 <= k < first_index_of(s, c) ==> s[k] != c,
        first_index_of(s, c) < s.len() ==> s[first_index_of(s, c)] == c,
    decreases s.len(),
{
    if s.len() > 0 && s[0] != c {
        lemma_first_index_of(s.drop_first(), c);
        assert forall|k: int| 0 <= k < first_index_of(s, c) implies s[k] != c by {
            if k > 0 {
                assert(s.drop_first()[k - 1] != c);
            }
        }
    }
}

/// Index of the last occurrence of `c` in `s`, or `-1` if absent.
pub open spec fn last_index_of(s: Seq<char>, c: char) -> int
    decreases s.len(),
{
    if s.len() == 0 {
        -1
    } else if s.last() == c {
        s.len() - 1
    } else {
        last_index_of(s.drop_last(), c)
    }
}

/// `last_index_of` finds the rightmost occurrence: nothing after it
/// matches, and it points at a match unless `c` is absent.
pub proof fn lemma_last_index_of(s: Seq<char>, c: char)
    ensures
        -1 <= last_index_of(s, c) < s.len(),
        forall|k: int| last_index_of(s, c) < k < s.len() ==> s[k] != c,
        last_index_of(s, c) >= 0 ==> s[last_index_of(s, c)] == c,
    decreases s.len(),
{
    if s.len() > 0 && s.last() != c {
        lemma_last_index_of(s.drop_last(), c);
        assert forall|k: int| last_index_of(s, c) < k < s.len() implies s[k] != c by {
            if k < s.len() - 1 {
                assert(s.drop_last()[k] != c);
            }
        }
    }
}

/// Whether `pat` occurs in `s` starting at `i`.
pub open spec fn has_sub_at(s: Seq<char>, pat: Seq<char>, i: int) -> bool {
    0 <= i && i + pat.len() <= s.len() && s.subrange(i, i + pat.len()) == pat
}

/// Whether `pat` occurs anywhere in `s`.
pub open spec fn contains_sub(s: Seq<char>, pat: Seq<char>) -> bool {
    exists|i: int| has_sub_at(s, pat, i)
}

/// Index of the leftmost occurrence of `pat` in `s` (meaningful when
/// `contains_sub(s, pat)`).
pub open spec fn sub_pos(s: Seq<char>, pat: Seq<char>) -> int
    decreases s.len(),
{
    if pat.len() <= s.len() && s.subrange(0, pat.len() as int) == pat {
        0
    } else if s.len() == 0 {
        0
    } else {
        1 + sub_pos(s.drop_first(), pat)
    }
}

/// `sub_pos` finds the leftmost occurrence when one exists.
pub proof fn lemma_sub_pos(s: Seq<char>, pat: Seq<char>)
    requires
        contains_sub(s, pat),
    ensures
        has_sub_at(s, pat, sub_pos(s, pat)),
        forall|j: int| 0 <= j < sub_pos(s, pat) ==> !has_sub_at(s, pat, j),
    decreases s.len(),
{
    if pat.len() <= s.len() && s.subrange(0, pat.len() as int) == pat {
    } else {
        let w = choose|i: int| has_sub_at(s, pat, i);
        assert(w != 0);
        assert(has_sub_at(s.drop_first(), pat, w - 1)) by {
            assert(s.drop_first().subrange(w - 1, w - 1 + pat.len()) =~= s.subrange(
                w,
                w + pat.len(),
            ));
        }
        lemma_sub_pos(s.drop_first(), pat);
        let p = sub_pos(s.drop_first(), pat);
        assert(has_sub_at(s, pat, p + 1)) by {
            assert(s.subrange(p + 1, p + 1 + pat.len()) =~= s.drop_first().subrange(
                p,
                p + pat.len(),
            ));
        }
        assert forall|j: int| 0 <= j < sub_pos(s, pat) implies !has_sub_at(s, pat, j) by {
            if j > 0 && has_sub_at(s, pat, j) {
                assert(s.drop_first().subrange(j - 1, j - 1 + pat.len()) =~= s.subrange(
                    j,
                    j + pat.len(),
                ));
                assert(has_sub_at(s.drop_first(), pat, j - 1));
            }
        }
    }
}

/// Leading white-space removed.
pub open spec fn trim_start_spec(s: Seq<char>) -> Seq<char>
    decreases s.len(),
{
    if s.len() > 0 && is_space(s[0]) {
        trim_start_spec(s.drop_first())
    } else {
        s
    }
}

/// Trailing white-space removed.
pub open spec fn trim_end_spec(s: Seq<char>) -> Seq<char>
    decreases s.len(),
{
    if s.len() > 0 && is_space(s.last()) {
        trim_end_spec(s.drop_last())
    } else {
        s
    }
}

/// White-space removed from both ends.
pub open spec fn trim_spec(s: Seq<char>) -> Seq<char> {
    trim_end_spec(trim_start_spec(s))
}

/// `trim_start_spec` drops exactly the maximal run of leading spaces.
pub proof fn lemma_trim_start_skip(s: Seq<char>, k: int)
    requires
        0 <= k <= s.len(),
        forall|j: int| 0 <= j < k ==> is_space(s[j]),
        k < s.len() ==> !is_space(s[k]),
    ensures
        trim_start_spec(s) =~= s.skip(k),
    decreases s.len(),
{
    if k == 0 {
        if s.len() > 0 {
            assert(!is_space(s[0]));
        }
        assert(s.skip(0) =~= s);
    } else {
        assert(is_space(s[0]));
        lemma_trim_start_skip(s.drop_first(), k - 1);
        assert(s.drop_first().skip(k - 1) =~= s.skip(k));
    }
}

/// `trim_end_spec` drops exactly the maximal run of trailing spaces.
pub proof fn lemma_trim_end_take(s: Seq<char>, k: int)
    requires
        0 <= k <= s.len(),
        forall|j: int| k <= j < s.len() ==> is_space(s[j]),
        k > 0 ==> !is_space(s[k - 1]),
    ensures
        trim_end_spec(s) =~= s.take(k),
    decreases s.len(),
{
    if k == s.len() {
        if s.len() > 0 {
            assert(!is_space(s.last()));
        }
        assert(s.take(k) =~= s);
    } else {
        assert(is_space(s.last()));
        lemma_trim_end_take(s.drop_last(), k);
        assert(s.drop_last().take(k) =~= s.take(k));
    }
}

/// Decimal value of a digit run (most significant first).
pub open spec fn digits_val(s: Seq<char>) -> int
    decreases s.len(),
{
    if s.len() == 0 {
        0
    } else {
        digits_val(s.drop_last()) * 10 + (s.last() as int - '0' as int)
    }
}

pub open spec fn is_digit(c: char) -> bool {
    '0' <= c <= '9'
}

pub open spec fn all_digits(s: Seq<char>) -> bool {
    forall|i: int| 0 <= i < s.len() ==> is_digit(#[trigger] s[i])
}

/// Whether the run starts with a minus sign.
pub open spec fn parse_neg(s: Seq<char>) -> bool {
    s.len() > 0 && s[0] == '-'
}

/// The digit run after an optional leading sign.
pub open spec fn parse_digits(s: Seq<char>) -> Seq<char> {
    if s.len() > 0 && (s[0] == '+' || s[0] == '-') {
        s.drop_first()
    } else {
        s
    }
}

/// How `str::parse::<i32>` reads a run of characters: an optional sign,
/// then one or more decimal digits, value within the `i32` range;
/// anything else is no number.
pub open spec fn spec_parse_i32(s: Seq<char>) -> Option<i32> {
    let ds = parse_digits(s);
    if ds.len() > 0 && all_digits(ds) {
        let v = if parse_neg(s) {
            -digits_val(ds)
        } else {
            digits_val(ds)
        };
        if i32::MIN <= v <= i32::MAX {
            Some(v as i32)
        } else {
            None
        }
    } else {
        None
    }
}

/// A digit run's value only grows when digits are appended.
pub proof fn lemma_digits_val_grows(s: Seq<char>, k: int)
    requires
        0 <= k <= s.len(),
        all_digits(s),
    ensures
        digits_val(s) >= digits_val(s.take(k)),
        digits_val(s) >= 0,
        digits_val(s.take(k)) >= 0,
    decreases s.len() - k,
{
    lemma_digits_val_nonneg(s.take(k));
    lemma_digits_val_nonneg(s);
    if k < s.len() {
        lemma_digits_val_grows(s, k + 1);
        assert(s.take(k + 1).drop_last() =~= s.take(k));
        assert(digits_val(s.take(k + 1)) == digits_val(s.take(k)) * 10 + (s[k] as int
            - '0' as int));
        assert(is_digit(s[k]));
    } else {
        assert(s.take(k) =~= s);
    }
}

pub proof fn lemma_digits_val_nonneg(s: Seq<char>)
    requires
        all_digits(s),
    ensures
        digits_val(s) >= 0,
    decreases s.len(),
{
    if s.len() > 0 {
        assert(all_digits(s.drop_last())) by {
            assert(forall|i: int|
                0 <= i < s.drop_last().len() ==> s.drop_last()[i] == #[trigger] s[i]);
        }
        lemma_digits_val_nonneg(s.drop_last());
        assert(is_digit(s.last()));
    }
}

} // verus!

verus! {

/// An index before which `c` is absent and at which `c` sits (or the
/// length, when `c` is absent) is exactly `first_index_of`.
pub proof fn lemma_first_index_is(s: Seq<char>, c: char, i: int)
    requires
        0 <= i <= s.len(),
        forall|k: int| 0 <= k < i ==> s[k] != c,
        i < s.len() ==> s[i] == c,
    ensures
        first_index_of(s, c) == i,
{
    lemma_first_index_of(s, c);
    let f = first_index_of(s, c);
    if f < i {
        assert(s[f] == c);
    }
    if f > i {
        assert(s[i] != c);
    }
}

/// An index after which `c` is absent and at which `c` sits (or `-1`,
/// when `c` is absent) is exactly `last_index_of`.
pub proof fn lemma_last_index_is(s: Seq<char>, c: char, i: int)
    requires
        -1 <= i < s.len(),
        forall|k: int| i < k < s.len() ==> s[k] != c,
        i >= 0 ==> s[i] == c,
    ensures
        last_index_of(s, c) == i,
{
    lemma_last_index_of(s, c);
    let f = last_index_of(s, c);
    if f > i {
        assert(s[f] == c);
    }
    if f < i {
        assert(s[i] != c);
    }
}

/// Index of the first occurrence of `c`, or the length if absent.
pub fn find_char(s: &str, c: char) -> (r: usize)
    ensures
        r as int == first_index_of(s@, c),
{
    let n = s.unicode_len();
    let mut i: usize = 0;
    while i < n
        invariant
            i <= n,
            n == s@.len(),
            forall|k: int| 0 <= k < i ==> s@[k] != c,
        decreases n - i,
    {
        if s.get_char(i) == c {
            proof {
                lemma_first_index_is(s@, c, i as int);
            }
            return i;
        }
        i += 1;
    }
    proof {
        lemma_first_index_is(s@, c, n as int);
    }
    n
}

/// Index just past the last occurrence of `c`, zero if absent: the
/// runtime form of `last_index_of` shifted by one so that it fits
/// `usize`.
pub fn rfind_char(s: &str, c: char) -> (r: usize)
    ensures
        r as int == last_index_of(s@, c) + 1,
{
    let n = s.unicode_len();
    let mut i: usize = n;
    while i > 0
        invariant
            i <= n,
            n == s@.len(),
            forall|k: int| i <= k < s@.len() ==> s@[k] != c,
        decreases i,
    {
        if s.get_char(i - 1) == c {
            proof {
                lemma_last_index_is(s@, c, i - 1);
            }
            return i;
        }
        i -= 1;
    }
    proof {
        lemma_last_index_is(s@, c, -1);
    }
    0
}

/// Index of the leftmost occurrence of `needle` in `hay`, if any.
pub fn find_sub(hay: &str, needle: &str) -> (r: Option<usize>)
    ensures
        contains_sub(hay@, needle@) ==> (r matches Some(i) && i as int == sub_pos(hay@, needle@)),
        !contains_sub(hay@, needle@) ==> r is None,
{
    let n = hay.unicode_len();
    let m = needle.unicode_len();
    if m > n {
        proof {
            assert(!contains_sub(hay@, needle@));
        }
        return None;
    }
    let limit = n - m;
    let mut i: usize = 0;
    loop
        invariant
            0 <= i <= limit,
            limit == n - m,
            m <= n,
            n == hay@.len(),
            m == needle@.len(),
            forall|j: int| 0 <= j < i ==> !has_sub_at(hay@, needle@, j),
        ensures
            forall|j: int| 0 <= j <= limit ==> !has_sub_at(hay@, needle@, j),
        decreases limit - i,
    {
        let mut j: usize = 0;
        let mut matches = true;
        while j < m
            invariant
                0 <= j <= m,
                i + m <= n,
                n == hay@.len(),
                m == needle@.len(),
                matches ==> forall|k: int| 0 <= k < j ==> hay@[i + k] == needle@[k],
                !matches ==> !has_sub_at(hay@, needle@, i as int),
            decreases m - j,
        {
            if hay.get_char(i + j) != needle.get_char(j) {
                proof {
                    if has_sub_at(hay@, needle@, i as int) {
                        assert(hay@.subrange(i as int, i + m)[j as int] == needle@[j as int]);
                    }
                }
                matches = false;
                j = m;
            } else {
                j += 1;
            }
        }
        if matches {
            proof {
                assert(hay@.subrange(i as int, i + m) =~= needle@);
                assert(has_sub_at(hay@, needle@, i as int));
                lemma_sub_pos(hay@, needle@);
                let p = sub_pos(hay@, needle@);
                if p < i {
                    assert(!has_sub_at(hay@, needle@, p));
                }
            }
            return Some(i);
        }
        proof {
            assert(!has_sub_at(hay@, needle@, i as int));
        }
        if i == limit {
            break;
        }
        i += 1;
    }
    proof {
        assert forall|j: int| !has_sub_at(hay@, needle@, j) by {
            if 0 <= j && j + m <= n {
                assert(!has_sub_at(hay@, needle@, j));
            }
        }
    }
    None
}

/// White-space trimmed from both ends, as [`trim_spec`] describes.
pub fn trim(s: &str) -> (r: &str)
    ensures
        r@ == trim_spec(s@),
{
    let n = s.unicode_len();
    let mut a: usize = 0;
    while a < n && char_is_space(s.get_char(a))
        invariant
            a <= n,
            n == s@.len(),
            forall|k: int| 0 <= k < a ==> is_space(s@[k]),
        decreases n - a,
    {
        a += 1;
    }
    let mut b: usize = n;
    while b > a && char_is_space(s.get_char(b - 1))
        invariant
            a <= b <= n,
            n == s@.len(),
            forall|k: int| b <= k < n ==> is_space(s@[k]),
        decreases b,
    {
        b -= 1;
    }
    proof {
        lemma_trim_start_skip(s@, a as int);
        let t = s@.skip(a as int);
        assert forall|j: int| b - a <= j < t.len() implies is_space(t[j]) by {
            assert(t[j] == s@[a + j]);
        }
        lemma_trim_end_take(t, b - a);
        assert(t.take(b - a) =~= s@.subrange(a as int, b as int));
    }
    s.substring_char(a, b)
}

/// Leading occurrences of `c` removed: the start index of the remainder.
pub fn skip_leading(s: &str, c: char) -> (r: usize)
    ensures
        r <= s@.len(),
        forall|k: int| 0 <= k < r ==> s@[k] == c,
        r < s@.len() ==> s@[r as int] != c,
{
    let n = s.unicode_len();
    let mut a: usize = 0;
    while a < n && s.get_char(a) == c
        invariant
            a <= n,
            n == s@.len(),
            forall|k: int| 0 <= k < a ==> s@[k] == c,
        decreases n - a,
    {
        a += 1;
    }
    a
}

/// Read a run of characters the way `str::parse::<i32>` does.
pub fn parse_i32(s: &str) -> (r: Option<i32>)
    ensures
        r == spec_parse_i32(s@),
{
    let n = s.unicode_len();
    if n == 0 {
        return None;
    }
    let c0 = s.get_char(0);
    let neg = c0 == '-';
    let start: usize = if c0 == '-' || c0 == '+' {
        1
    } else {
        0
    };
    let ghost ds = s@.skip(start as int);
    proof {
        assert(s@.drop_first() =~= s@.skip(1));
        assert(s@.skip(0) =~= s@);
    }
    if start == n {
        proof {
            assert(ds.len() == 0);
        }
        return None;
    }
    let bound: i64 = if neg {
        2147483648
    } else {
        2147483647
    };
    let mut acc: i64 = 0;
    let mut i: usize = start;
    while i < n
        invariant
            start <= i <= n,
            n == s@.len(),
            start == 0 || start == 1,
            start == 1 ==> (s@[0] == '+' || s@[0] == '-'),
            start == 0 ==> !(s@[0] == '+' || s@[0] == '-'),
            neg == (s@[0] == '-' && start == 1),
            ds == s@.skip(start as int),
            bound == if neg { 2147483648i64 } else { 2147483647i64 },
            0 <= acc <= bound,
            acc == digits_val(s@.subrange(start as int, i as int)),
            forall|k: int| start <= k < i ==> is_digit(#[trigger] s@[k]),
        decreases n - i,
    {
        let c = s.get_char(i);
        if c < '0' || c > '9' {
            proof {
                assert(s@.drop_first() =~= s@.skip(1));
                assert(s@.skip(0) =~= s@);
                assert(parse_digits(s@) == ds);
                assert(parse_neg(s@) == neg);
                assert(!is_digit(s@[i as int]));
                assert(ds[i - start] == s@[i as int]);
                assert(!all_digits(ds));
            }
            return None;
        }
        let d: i64 = (c as u32 as i64) - 48;
        proof {
            assert('0' as u32 == 48);
            assert(0 <= d <= 9);
        }
        let next = acc * 10 + d;
        proof {
            assert(s@.subrange(start as int, i + 1).drop_last() =~= s@.subrange(
                start as int,
                i as int,
            ));
            assert(s@.subrange(start as int, i + 1).last() == s@[i as int]);
            assert(s@[i as int] as int - '0' as int == d);
        }
        if next > bound {
            proof {
                assert(s@.drop_first() =~= s@.skip(1));
                assert(s@.skip(0) =~= s@);
                assert(parse_digits(s@) == ds);
                assert(parse_neg(s@) == neg);
                let pre = s@.subrange(start as int, i + 1);
                if all_digits(ds) {
                    assert(pre =~= ds.take(i + 1 - start));
                    assert(digits_val(pre) == digits_val(ds.take(i + 1 - start)));
                    lemma_digits_val_grows(ds, i + 1 - start);
                    assert(digits_val(ds) >= next);
                    if neg {
                        assert(-digits_val(ds) < i32::MIN as int);
                    } else {
                        assert(digits_val(ds) > i32::MAX as int);
                    }
                }
                assert(spec_parse_i32(s@) is None);
            }
            return None;
        }
        acc = next;
        i += 1;
    }
    proof {
        assert(s@.drop_first() =~= s@.skip(1));
        assert(s@.skip(0) =~= s@);
        assert(parse_digits(s@) == ds);
        assert(parse_neg(s@) == neg);
        assert(s@.subrange(start as int, n as int) =~= ds);
        assert(all_digits(ds));
        assert(acc == digits_val(ds));
        assert(ds.len() > 0);
    }
    if neg {
        let v = -acc;
        proof {
            assert(i32::MIN as int <= v <= i32::MAX as int);
            assert(spec_parse_i32(s@) == Some(v as i32));
        }
        Some(v as i32)
    } else {
        proof {
            assert(spec_parse_i32(s@) == Some(acc as i32));
        }
        Some(acc as i32)
    }
}

} // verus!

verus! {

/// One terminating carriage return removed, as line splitting does for
/// `\r\n` endings.
pub open spec fn strip_cr(l: Seq<char>) -> Seq<char> {
    if l.len() > 0 && l.last() == '\r' {
        l.drop_last()
    } else {
        l
    }
}

/// The lines of a character run: segments split at `\n`, each stripped of
/// one terminating `\r`; a final segment without a terminator is kept as
/// is, and a terminator at the very end opens no further line.
pub open spec fn spec_lines(s: Seq<char>) -> Seq<Seq<char>>
    decreases s.len(),
{
    if s.len() == 0 {
        Seq::empty()
    } else {
        let i = first_index_of(s, '\n');
        if 0 <= i < s.len() {
            seq![strip_cr(s.take(i))] + spec_lines(s.skip(i + 1))
        } else {
            seq![s]
        }
    }
}

/// Splitting distributes over a prefix that ends at a line boundary.
pub proof fn lemma_lines_concat(a: Seq<char>, b: Seq<char>)
    requires
        a.len() == 0 || a.last() == '\n',
    ensures
        spec_lines(a + b) == spec_lines(a) + spec_lines(b),
    decreases a.len(),
{
    if a.len() == 0 {
        assert(a + b =~= b);
        assert(spec_lines(a) + spec_lines(b) =~= spec_lines(b));
    } else {
        lemma_first_index_of(a, '\n');
        let i = first_index_of(a, '\n');
        assert(i < a.len()) by {
            if i == a.len() {
                assert(a[a.len() - 1] != '\n');
            }
        }
        assert(a[i] == '\n');
        assert(forall|k: int| 0 <= k < i ==> (a + b)[k] == a[k]);
        assert((a + b)[i] == a[i]);
        lemma_first_index_is(a + b, '\n', i);
        if b.len() == 0 {
            assert(a + b =~= a);
            assert(spec_lines(a) + spec_lines(b) =~= spec_lines(a));
        } else {
            assert((a + b).len() > 0);
            assert((a + b).take(i) =~= a.take(i));
            assert((a + b).skip(i + 1) =~= a.skip(i + 1) + b);
            if i + 1 == a.len() {
                assert(a.skip(i + 1).len() == 0);
            } else {
                assert(a.skip(i + 1).last() == a.last());
            }
            lemma_lines_concat(a.skip(i + 1), b);
            assert(spec_lines(a + b) == seq![strip_cr(a.take(i))] + (spec_lines(a.skip(i + 1))
                + spec_lines(b)));
            assert(spec_lines(a) == seq![strip_cr(a.take(i))] + spec_lines(a.skip(i + 1)));
            assert(seq![strip_cr(a.take(i))] + (spec_lines(a.skip(i + 1)) + spec_lines(b)) =~= (
            seq![strip_cr(a.take(i))] + spec_lines(a.skip(i + 1))) + spec_lines(b));
        }
    }
}

/// A newline-free segment closed by one `\n` is exactly one line; bare, it
/// is one unterminated line.
pub proof fn lemma_lines_single(seg: Seq<char>)
    requires
        forall|k: int| 0 <= k < seg.len() ==> seg[k] != '\n',
    ensures
        spec_lines(seg.push('\n')) == seq![strip_cr(seg)],
        seg.len() > 0 ==> spec_lines(seg) == seq![seg],
{
    let s = seg.push('\n');
    assert(forall|k: int| 0 <= k < seg.len() ==> s[k] == seg[k]);
    lemma_first_index_is(s, '\n', seg.len() as int);
    assert(s.take(seg.len() as int) =~= seg);
    assert(s.skip(seg.len() as int + 1).len() == 0);
    assert(spec_lines(s.skip(seg.len() as int + 1)) =~= Seq::<Seq<char>>::empty());
    assert(spec_lines(s) =~= seq![strip_cr(seg)]);
    if seg.len() > 0 {
        lemma_first_index_is(seg, '\n', seg.len() as int);
    }
}

/// Split a run of text into lines, as [`spec_lines`] describes.
pub fn split_lines<'a>(s: &'a str) -> (r: Vec<&'a str>)
    ensures
        r.deep_view() == spec_lines(s@),
{
    let n = s.unicode_len();
    let mut r: Vec<&str> = Vec::new();
    let mut start: usize = 0;
    let mut i: usize = 0;
    while i < n
        invariant
            start <= i <= n,
            n == s@.len(),
            start == 0 || s@[start - 1] == '\n',
            forall|k: int| start <= k < i ==> s@[k] != '\n',
            r.deep_view() == spec_lines(s@.take(start as int)),
        decreases n - i,
    {
        if s.get_char(i) == '\n' {
            let line = if i > start && s.get_char(i - 1) == '\r' {
                s.substring_char(start, i - 1)
            } else {
                s.substring_char(start, i)
            };
            r.push(line);
            proof {
                let a = s@.take(start as int);
                let seg = s@.subrange(start as int, i as int);
                assert(line@ =~= strip_cr(seg));
                assert(a.len() == 0 || a.last() == '\n');
                assert(s@.take(i + 1) =~= a + seg.push('\n'));
                lemma_lines_concat(a, seg.push('\n'));
                lemma_lines_single(seg);
                assert(r.deep_view() =~~= spec_lines(s@.take(i + 1)));
            }
            start = i + 1;
        }
        i += 1;
    }
    if start < n {
        let line = s.substring_char(start, n);
        r.push(line);
        proof {
            let a = s@.take(start as int);
            let seg = s@.subrange(start as int, n as int);
            assert(s@ =~= a + seg);
            assert(a.len() == 0 || a.last() == '\n');
            lemma_lines_concat(a, seg);
            lemma_lines_single(seg);
            assert(r.deep_view() =~~= spec_lines(s@));
        }
    } else {
        proof {
            assert(s@.take(start as int) =~= s@);
        }
    }
    r
}

} // verus!

verus! {

/// Every occurrence of `pat` replaced by `sub`, scanning left to right
/// over non-overlapping matches. An empty pattern replaces nothing.
pub open spec fn replace_spec(s: Seq<char>, pat: Seq<char>, sub: Seq<char>) -> Seq<char>
    decreases s.len(),
{
    if pat.len() == 0 {
        s
    } else if contains_sub(s, pat) && 0 <= sub_pos(s, pat) && sub_pos(s, pat) + pat.len()
        <= s.len() {
        let p = sub_pos(s, pat);
        s.take(p) + sub + replace_spec(s.skip(p + pat.len()), pat, sub)
    } else {
        s
    }
}

/// Replace every occurrence of `pat` in `s` by `sub`, as
/// [`replace_spec`] describes.
pub fn replace_all(s: &str, pat: &str, sub: &str) -> (r: String)
    requires
        pat@.len() > 0,
    ensures
        r@ == replace_spec(s@, pat@, sub@),
{
    let patl = pat.unicode_len();
    let mut out = String::new();
    let mut rem: &str = s;
    loop
        invariant
            patl == pat@.len(),
            patl > 0,
            replace_spec(s@, pat@, sub@) == out@ + replace_spec(rem@, pat@, sub@),
        decreases rem@.len(),
    {
        match find_sub(rem, pat) {
            Some(p) => {
                proof {
                    lemma_sub_pos(rem@, pat@);
                }
                let rlen = rem.unicode_len();
                let ghost rem0 = rem@;
                let ghost out0 = out@;
                out.append(rem.substring_char(0, p));
                out.append(sub);
                rem = rem.substring_char(p + patl, rlen);
                proof {
                    assert(rem0.take(p as int) =~= rem0.subrange(0, p as int));
                    assert(rem@ =~= rem0.skip(p + patl));
                    assert(replace_spec(rem0, pat@, sub@) == rem0.take(p as int) + sub@
                        + replace_spec(rem@, pat@, sub@));
                    assert(out@ + replace_spec(rem@, pat@, sub@) =~= out0 + (rem0.take(p as int)
                        + sub@ + replace_spec(rem@, pat@, sub@)));
                }
            },
            None => {
                let ghost rem0 = rem@;
                out.append(rem);
                proof {
                    assert(replace_spec(rem0, pat@, sub@) == rem0);
                }
                return out;
            },
        }
    }
}

} // verus!
