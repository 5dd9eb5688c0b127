//! Character-level helpers: exact string comparison, substring search,
//! case-folded matching, splitting and decimal numbers.

use vstd::prelude::*;

verus! {

/// The character sequences held by a sequence of strings.
pub open spec fn views(v: Seq<String>) -> Seq<Seq<char>> {
    v.map_values(|s: String| s@)
}

/// `p` occurs in `t` as a contiguous run.
pub open spec fn is_substring(p: Seq<char>, t: Seq<char>) -> bool {
    exists|i: int| 0 <= i && i + p.len() <= t.len() && #[trigger] t.subrange(i, i + p.len()) == p
}

/// The characters of `s`, in order.
pub fn chars_of(s: &str) -> (r: Vec<char>)
    ensures
        r@ == s@,
{
    let n = s.unicode_len();
    let mut r: Vec<char> = Vec::new();
    let mut i: usize = 0;
    while i < n
        invariant
            n == s@.len(),
            i <= n,
            r@ == s@.subrange(0, i as int),
        decreases n - i,
    {
        r.push(s.get_char(i));
        i += 1;
        assert(r@ =~= s@.subrange(0, i as int));
    }
    assert(r@ =~= s@);
    r
}

/// Whether two strings hold the same characters.
pub fn same_text(a: &str, b: &str) -> (r: bool)
    ensures
        r == (a@ == b@),
{
    let x = chars_of(a);
    let y = chars_of(b);
    if x.len() != y.len() {
        return false;
    }
    let mut i: usize = 0;
    while i < x.len()
        invariant
            x@ == a@,
            y@ == b@,
            x.len() == y.len(),
            i <= x.len(),
            forall|k: int| 0 <= k < i ==> x@[k] == y@[k],
        decreases x.len() - i,
    {
        if x[i] != y[i] {
            return false;
        }
        i += 1;
    }
    assert(x@ =~= y@);
    true
}

/// Whether `text` contains `pattern`, compared character by character.
pub fn contains_text(text: &str, pattern: &str) -> (r: bool)
    ensures
        r == is_substring(pattern@, text@),
{
    let t = chars_of(text);
    let p = chars_of(pattern);
    if p.len() > t.len() {
        return false;
    }
    let last = t.len() - p.len();
    let mut i: usize = 0;
    while i <= last
        invariant
            t@ == text@,
            p@ == pattern@,
            last == t.len() - p.len(),
            p.len() <= t.len(),
            forall|k: int| 0 <= k < i ==> #[trigger] t@.subrange(k, k + p.len()) != p@,
        decreases last + 1 - i,
    {
        let mut j: usize = 0;
        while j < p.len() && t[i + j] == p[j]
            invariant
                t@ == text@,
                p@ == pattern@,
                i <= last,
                last == t.len() - p.len(),
                j <= p.len(),
                forall|q: int| 0 <= q < j ==> t@[i + q] == p@[q],
            decreases p.len() - j,
        {
            j += 1;
        }
        if j == p.len() {
            assert(t@.subrange(i as int, i + p.len()) =~= p@);
            return true;
        }
        assert(t@.subrange(i as int, i + p.len())[j as int] != p@[j as int]);
        i += 1;
    }
    assert forall|k: int| 0 <= k && k + pattern@.len() <= text@.len() implies #[trigger] text@.subrange(
        k,
        k + pattern@.len(),
    ) != pattern@ by {
        assert(k < i);
    }
    false
}

/// Lexicographic order of texts, character by character.
pub open spec fn text_le(a: Seq<char>, b: Seq<char>) -> bool
    decreases a.len(),
{
    if a.len() == 0 {
        true
    } else if b.len() == 0 {
        false
    } else if a[0] != b[0] {
        a[0] < b[0]
    } else {
        text_le(a.drop_first(), b.drop_first())
    }
}

/// Whether `a` comes no later than `b` in lexicographic order.
pub fn text_before_or_same(a: &str, b: &str) -> (r: bool)
    ensures
        r == text_le(a@, b@),
{
    let x = chars_of(a);
    let y = chars_of(b);
    assert(x@.subrange(0, x@.len() as int) =~= x@);
    assert(y@.subrange(0, y@.len() as int) =~= y@);
    let mut i: usize = 0;
    while i < x.len() && i < y.len() && x[i] == y[i]
        invariant
            x@ == a@,
            y@ == b@,
            i <= x@.len(),
            i <= y@.len(),
            text_le(a@, b@) == text_le(
                x@.subrange(i as int, x@.len() as int),
                y@.subrange(i as int, y@.len() as int),
            ),
        decreases x@.len() - i,
    {
        assert(x@.subrange(i as int, x@.len() as int).drop_first() =~= x@.subrange(
            i + 1,
            x@.len() as int,
        ));
        assert(y@.subrange(i as int, y@.len() as int).drop_first() =~= y@.subrange(
            i + 1,
            y@.len() as int,
        ));
        i += 1;
    }
    if i == x.len() {
        true
    } else if i == y.len() {
        false
    } else {
        x[i] < y[i]
    }
}

/// What `str::to_lowercase` makes of a character sequence.
pub uninterp spec fn lower_of(s: Seq<char>) -> Seq<char>;

/// Relies on `str::to_lowercase`: the result depends on the characters
/// alone, and an empty string stays empty.
#[verifier::external_body]
fn lowercase(s: &str) -> (r: String)
    ensures
        r@ == lower_of(s@),
        s@.len() == 0 ==> r@.len() == 0,
{
    s.to_lowercase()
}

/// The case-insensitive text rule: an empty pattern accepts everything,
/// any other accepts a text whose lower case holds the pattern's lower case.
pub open spec fn text_matches(pattern: Seq<char>, text: Seq<char>) -> bool {
    pattern.len() == 0 || is_substring(lower_of(pattern), lower_of(text))
}

/// Case-insensitive substring test; an empty pattern always matches.
pub fn no_case_contains(pattern: &str, text: &str) -> (r: bool)
    ensures
        r == text_matches(pattern@, text@),
{
    if pattern.unicode_len() != 0 {
        let t = lowercase(text);
        let p = lowercase(pattern);
        contains_text(t.as_str(), p.as_str())
    } else {
        true
    }
}

/// Relies on `String::push`: the character is appended at the end.
#[verifier::external_body]
pub(crate) fn push_char(s: &mut String, c: char)
    ensures
        final(s)@ == old(s)@.push(c),
{
    s.push(c)
}

/// Removes the last character and returns it; an empty string stays empty.
pub(crate) fn pop_char(s: &mut String) -> (r: Option<char>)
    ensures
        old(s)@.len() == 0 ==> r is None && final(s)@ == old(s)@,
        old(s)@.len() > 0 ==> r == Some(old(s)@.last()) && final(s)@ == old(s)@.drop_last(),
{
    let n = s.as_str().unicode_len();
    if n == 0 {
        return None;
    }
    let c = s.as_str().get_char(n - 1);
    let rest = String::from_str(s.as_str().substring_char(0, n - 1));
    assert(rest@ =~= old(s)@.drop_last());
    *s = rest;
    Some(c)
}

/// The pieces joined back together with `sep` between them.
pub open spec fn join_with(ps: Seq<Seq<char>>, sep: char) -> Seq<char>
    decreases ps.len(),
{
    if ps.len() == 0 {
        Seq::empty()
    } else if ps.len() == 1 {
        ps[0]
    } else {
        join_with(ps.drop_last(), sep) + seq![sep] + ps.last()
    }
}

/// `s` split at every `sep`: no piece holds `sep`, and joining the pieces
/// with `sep` gives `s` back. An empty `s` gives no pieces at all.
pub open spec fn is_split_of(ps: Seq<Seq<char>>, s: Seq<char>, sep: char) -> bool {
    if s.len() == 0 {
        ps.len() == 0
    } else {
        &&& ps.len() > 0
        &&& join_with(ps, sep) == s
        &&& forall|i: int| 0 <= i < ps.len() ==> !(#[trigger] ps[i]).contains(sep)
    }
}

/// Splits a `;`-separated list; an empty text gives an empty list.
pub fn to_string_list(slice: &str) -> (r: Vec<String>)
    ensures
        is_split_of(views(r@), slice@, ';'),
{
    let n = slice.unicode_len();
    let mut r: Vec<String> = Vec::new();
    if n == 0 {
        assert(views(r@) =~= Seq::<Seq<char>>::empty());
        return r;
    }
    let ghost s = slice@;
    let mut start: usize = 0;
    let mut i: usize = 0;
    while i < n
        invariant
            n == s.len(),
            s == slice@,
            start <= i <= n,
            r@.len() == 0 ==> start == 0,
            r@.len() > 0 ==> join_with(views(r@), ';') + seq![';'] == s.subrange(0, start as int),
            forall|k: int| start <= k < i ==> s[k] != ';',
            forall|k: int| 0 <= k < r@.len() ==> !(#[trigger] views(r@)[k]).contains(';'),
        decreases n - i,
    {
        if slice.get_char(i) == ';' {
            let piece = String::from_str(slice.substring_char(start, i));
            let ghost old_r = r@;
            r.push(piece);
            proof {
                let pv = s.subrange(start as int, i as int);
                assert(views(r@) =~= views(old_r).push(pv));
                assert(views(r@).drop_last() =~= views(old_r));
                assert(!pv.contains(';'));
                if old_r.len() == 0 {
                    assert(join_with(views(r@), ';') == pv);
                    assert(pv + seq![';'] =~= s.subrange(0, i + 1));
                } else {
                    assert(join_with(views(r@), ';') == join_with(views(old_r), ';') + seq![';'] + pv);
                    assert(s.subrange(0, start as int) + pv + seq![';'] =~= s.subrange(0, i + 1));
                }
            }
            start = i + 1;
        }
        i += 1;
    }
    let piece = String::from_str(slice.substring_char(start, n));
    let ghost old_r = r@;
    r.push(piece);
    proof {
        let pv = s.subrange(start as int, n as int);
        assert(views(r@) =~= views(old_r).push(pv));
        assert(views(r@).drop_last() =~= views(old_r));
        assert(!pv.contains(';'));
        if old_r.len() == 0 {
            assert(pv =~= s);
        } else {
            assert(s.subrange(0, start as int) + pv =~= s);
        }
    }
    r
}

/// A character is a decimal digit.
pub open spec fn is_digit(c: char) -> bool {
    '0' <= c && c <= '9'
}

/// A non-empty run of decimal digits.
pub open spec fn is_digits(s: Seq<char>) -> bool {
    s.len() > 0 && forall|i: int| 0 <= i < s.len() ==> is_digit(#[trigger] s[i])
}

/// The number that a run of decimal digits writes.
pub open spec fn digits_value(s: Seq<char>) -> nat
    decreases s.len(),
{
    if s.len() == 0 {
        0
    } else {
        10 * digits_value(s.drop_last()) + ((s.last() as u32 - '0' as u32) as nat)
    }
}

proof fn lemma_digits_value_grows(s: Seq<char>, j: int)
    requires
        0 <= j <= s.len(),
        forall|i: int| 0 <= i < s.len() ==> is_digit(#[trigger] s[i]),
    ensures
        digits_value(s.subrange(0, j)) <= digits_value(s),
    decreases s.len(),
{
    if j < s.len() {
        assert(s.drop_last().subrange(0, j) =~= s.subrange(0, j));
        lemma_digits_value_grows(s.drop_last(), j);
    } else {
        assert(s.subrange(0, j) =~= s);
    }
}

/// A number of completed items over a total, written `done/total` in
/// decimal, where both numbers fit in a `usize`.
pub open spec fn is_count_pair(s: Seq<char>) -> bool {
    exists|k: int|
        0 <= k < s.len() && #[trigger] s[k] == '/' && is_digits(s.subrange(0, k)) && is_digits(
            s.subrange(k + 1, s.len() as int),
        ) && digits_value(s.subrange(0, k)) <= usize::MAX && digits_value(
            s.subrange(k + 1, s.len() as int),
        ) <= usize::MAX
}

/// The pair that a `done/total` text writes, if it is one.
pub open spec fn count_pair_of(s: Seq<char>) -> Option<(usize, usize)> {
    if is_count_pair(s) {
        let k = choose|k: int|
            0 <= k < s.len() && #[trigger] s[k] == '/' && is_digits(s.subrange(0, k)) && is_digits(
                s.subrange(k + 1, s.len() as int),
            ) && digits_value(s.subrange(0, k)) <= usize::MAX && digits_value(
                s.subrange(k + 1, s.len() as int),
            ) <= usize::MAX;
        Some(
            (
                digits_value(s.subrange(0, k)) as usize,
                digits_value(s.subrange(k + 1, s.len() as int)) as usize,
            ),
        )
    } else {
        None
    }
}

/// Reads the digits `cs[lo..hi]` as a number, if they are digits and the
/// number fits.
fn parse_decimal(cs: &Vec<char>, lo: usize, hi: usize) -> (r: Option<usize>)
    requires
        lo <= hi <= cs@.len(),
    ensures
        r is Some <==> is_digits(cs@.subrange(lo as int, hi as int)) && digits_value(
            cs@.subrange(lo as int, hi as int),
        ) <= usize::MAX,
        r matches Some(v) ==> v == digits_value(cs@.subrange(lo as int, hi as int)),
{
    if lo == hi {
        return None;
    }
    let ghost s = cs@.subrange(lo as int, hi as int);
    let mut acc: usize = 0;
    let mut i: usize = lo;
    while i < hi
        invariant
            lo <= i <= hi <= cs@.len(),
            s == cs@.subrange(lo as int, hi as int),
            forall|k: int| lo <= k < i ==> is_digit(cs@[k]),
            acc == digits_value(cs@.subrange(lo as int, i as int)),
        decreases hi - i,
    {
        let c = cs[i];
        if !('0' <= c && c <= '9') {
            assert(s[i - lo] == c);
            return None;
        }
        let d = (c as u32 - '0' as u32) as usize;
        assert(cs@.subrange(lo as int, i + 1).drop_last() =~= cs@.subrange(lo as int, i as int));
        if acc > (usize::MAX - d) / 10 {
            proof {
                assert(forall|k: int| 0 <= k < s.len() ==> #[trigger] s[k] == cs@[lo + k]);
                if is_digits(s) {
                    assert(s.subrange(0, i + 1 - lo) =~= cs@.subrange(lo as int, i + 1));
                    lemma_digits_value_grows(s, i + 1 - lo);
                }
                assert(digits_value(cs@.subrange(lo as int, i + 1)) == 10 * acc + d);
                assert(10 * acc + d > usize::MAX) by (nonlinear_arith)
                    requires
                        acc > (usize::MAX - d) / 10,
                        d <= 9,
                ;
            }
            return None;
        }
        acc = acc * 10 + d;
        i += 1;
    }
    assert(cs@.subrange(lo as int, i as int) =~= s);
    Some(acc)
}

/// Reads a `done/total` pair; `None` for an empty or malformed text.
pub fn to_usizes(slice: &str) -> (r: Option<(usize, usize)>)
    ensures
        r == count_pair_of(slice@),
{
    let cs = chars_of(slice);
    let n = cs.len();
    let mut k: usize = 0;
    while k < n && cs[k] != '/'
        invariant
            cs@ == slice@,
            n == cs@.len(),
            k <= n,
            forall|q: int| 0 <= q < k ==> cs@[q] != '/',
        decreases n - k,
    {
        k += 1;
    }
    if k == n {
        assert(!is_count_pair(slice@));
        return None;
    }
    let a = parse_decimal(&cs, 0, k);
    let b = parse_decimal(&cs, k + 1, n);
    assert forall|q: int| 0 <= q < n && #[trigger] cs@[q] == '/' && is_digits(cs@.subrange(0, q)) implies q
        == k by {
        if q > k {
            assert(cs@.subrange(0, q)[k as int] == '/');
        }
    }
    match (a, b) {
        (Some(x), Some(y)) => {
            assert forall|q: int| 0 <= q < n && #[trigger] cs@[q] == '/' implies q == k by {
                if q > k {
                    assert(cs@.subrange(k + 1, n as int)[q - k - 1] == '/');
                }
            }
            Some((x, y))
        },
        _ => {
            proof {
                if is_count_pair(slice@) {
                    let q = choose|q: int|
                        0 <= q < slice@.len() && #[trigger] slice@[q] == '/' && is_digits(
                            slice@.subrange(0, q),
                        ) && is_digits(slice@.subrange(q + 1, slice@.len() as int))
                            && digits_value(slice@.subrange(0, q)) <= usize::MAX && digits_value(
                            slice@.subrange(q + 1, slice@.len() as int),
                        ) <= usize::MAX;
                    assert(q == k);
                }
            }
            None
        },
    }
}

} // verus!
