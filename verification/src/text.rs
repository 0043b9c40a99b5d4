//! Text as sequences of characters: searching, trimming, and the few
//! conversions between `str`, `String` and character vectors that the keymap
//! parser needs.

use vstd::prelude::*;

verus! {

broadcast use vstd::string::group_string_axioms;

/// Whether `c` has the Unicode `White_Space` property, which is what
/// `char::is_whitespace` and `str::trim` go by.
pub open spec fn is_whitespace(c: char) -> bool {
    ||| '\u{9}' <= c <= '\u{d}'
    ||| c == ' '
    ||| c == '\u{85}'
    ||| c == '\u{a0}'
    ||| c == '\u{1680}'
    ||| '\u{2000}' <= c <= '\u{200a}'
    ||| c == '\u{2028}'
    ||| c == '\u{2029}'
    ||| c == '\u{202f}'
    ||| c == '\u{205f}'
    ||| c == '\u{3000}'
}

/// Whether a character is white space.
pub fn char_is_whitespace(c: char) -> (b: bool)
    ensures
        b == is_whitespace(c),
{
    ('\u{9}' <= c && c <= '\u{d}') || c == ' ' || c == '\u{85}' || c == '\u{a0}' || c
        == '\u{1680}' || ('\u{2000}' <= c && c <= '\u{200a}') || c == '\u{2028}' || c
        == '\u{2029}' || c == '\u{202f}' || c == '\u{205f}' || c == '\u{3000}'
}

/// `s` without its leading white space.
pub open spec fn trim_start(s: Seq<char>) -> Seq<char>
    decreases s.len(),
{
    if s.len() > 0 && is_whitespace(s[0]) {
        trim_start(s.subrange(1, s.len() as int))
    } else {
        s
    }
}

/// `s` without its trailing white space.
pub open spec fn trim_end(s: Seq<char>) -> Seq<char>
    decreases s.len(),
{
    if s.len() > 0 && is_whitespace(s.last()) {
        trim_end(s.drop_last())
    } else {
        s
    }
}

/// `s` without its leading and trailing white space.
pub open spec fn trim(s: Seq<char>) -> Seq<char> {
    trim_end(trim_start(s))
}

/// Whether `n` occurs in `h` at index `i`.
pub open spec fn matches_at(h: Seq<char>, n: Seq<char>, i: int) -> bool {
    0 <= i && i + n.len() <= h.len() && h.subrange(i, i + n.len()) == n
}

/// The first index from `from` on at which `n` occurs in `h` and ends by `to`.
pub open spec fn find_in(h: Seq<char>, n: Seq<char>, from: int, to: int) -> Option<int>
    decreases to + 1 - from,
{
    if from < 0 || from + n.len() > to {
        None
    } else if matches_at(h, n, from) {
        Some(from)
    } else {
        find_in(h, n, from + 1, to)
    }
}

/// The first index at which `n` occurs in `h`.
pub open spec fn find(h: Seq<char>, n: Seq<char>) -> Option<int> {
    find_in(h, n, 0, h.len() as int)
}

/// Whether `s` begins with `p`.
pub open spec fn starts_with(s: Seq<char>, p: Seq<char>) -> bool {
    p.len() <= s.len() && s.subrange(0, p.len() as int) == p
}

/// The last index at which `c` occurs in `s`.
pub open spec fn rfind_char(s: Seq<char>, c: char) -> Option<int>
    decreases s.len(),
{
    if s.len() == 0 {
        None
    } else if s.last() == c {
        Some(s.len() - 1)
    } else {
        rfind_char(s.drop_last(), c)
    }
}

/// The decimal digits of `n`.
pub open spec fn decimal(n: nat) -> Seq<char>
    decreases n,
{
    if n < 10 {
        seq![digit_char(n)]
    } else {
        decimal(n / 10) + seq![digit_char(n % 10)]
    }
}

/// The digit character for `d`, below ten.
pub open spec fn digit_char(d: nat) -> char {
    (('0' as nat) + d) as char
}

/// The number of bytes `c` takes in UTF-8.
pub open spec fn utf8_width(c: char) -> nat {
    if (c as u32) < 0x80 {
        1
    } else if (c as u32) < 0x800 {
        2
    } else if (c as u32) < 0x10000 {
        3
    } else {
        4
    }
}

/// The number of bytes `s` takes in UTF-8, which is what `str::len` counts.
pub open spec fn utf8_len(s: Seq<char>) -> nat
    decreases s.len(),
{
    if s.len() == 0 {
        0
    } else {
        utf8_len(s.drop_last()) + utf8_width(s.last())
    }
}

/// Where `find_in` finds something, it lies in the searched range and
/// matches; where it finds nothing, nothing in the range matches.
pub proof fn lemma_find_in(h: Seq<char>, n: Seq<char>, from: int, to: int)
    ensures
        find_in(h, n, from, to) matches Some(i) ==> from <= i && i + n.len() <= to && matches_at(
            h,
            n,
            i,
        ) && forall|j: int| from <= j < i ==> !matches_at(h, n, j),
        find_in(h, n, from, to) is None && 0 <= from ==> forall|j: int|
            from <= j && j + n.len() <= to ==> !matches_at(h, n, j),
    decreases to + 1 - from,
{
    if from < 0 || from + n.len() > to {
    } else if matches_at(h, n, from) {
    } else {
        lemma_find_in(h, n, from + 1, to);
    }
}

/// Dropping white space never makes a sequence longer.
pub proof fn lemma_trim_len(s: Seq<char>)
    ensures
        trim_start(s).len() <= s.len(),
        trim_end(s).len() <= s.len(),
        trim(s).len() <= s.len(),
    decreases s.len(),
{
    if s.len() > 0 {
        lemma_trim_len(s.subrange(1, s.len() as int));
        lemma_trim_len(s.drop_last());
    }
    lemma_trim_end_len(trim_start(s));
}

proof fn lemma_trim_end_len(s: Seq<char>)
    ensures
        trim_end(s).len() <= s.len(),
    decreases s.len(),
{
    if s.len() > 0 {
        lemma_trim_end_len(s.drop_last());
    }
}

/// A character takes at least one byte, so a sequence takes at least as many
/// bytes as it has characters.
pub proof fn lemma_utf8_len_at_least_len(s: Seq<char>)
    ensures
        utf8_len(s) >= s.len(),
    decreases s.len(),
{
    if s.len() > 0 {
        lemma_utf8_len_at_least_len(s.drop_last());
    }
}

/// Whether `s` takes at most `bound` bytes in UTF-8.
pub fn utf8_len_at_most(s: &[char], bound: usize) -> (r: bool)
    ensures
        r == (utf8_len(s@) <= bound),
{
    let mut total: usize = 0;
    let mut i: usize = 0;
    while i < s.len()
        invariant
            i <= s@.len(),
            total == utf8_len(s@.subrange(0, i as int)),
            total <= bound,
        decreases s@.len() - i,
    {
        let c = s[i];
        let w: usize = if (c as u32) < 0x80 {
            1
        } else if (c as u32) < 0x800 {
            2
        } else if (c as u32) < 0x10000 {
            3
        } else {
            4
        };
        assert(s@.subrange(0, i + 1).drop_last() =~= s@.subrange(0, i as int));
        if w > bound - total {
            proof {
                lemma_utf8_len_prefix(s@, i + 1);
            }
            return false;
        }
        total = total + w;
        i += 1;
    }
    assert(s@.subrange(0, i as int) =~= s@);
    true
}

/// A prefix takes no more bytes than the whole.
pub proof fn lemma_utf8_len_prefix(s: Seq<char>, k: int)
    requires
        0 <= k <= s.len(),
    ensures
        utf8_len(s.subrange(0, k)) <= utf8_len(s),
    decreases s.len() - k,
{
    if k < s.len() {
        lemma_utf8_len_prefix(s, k + 1);
        assert(s.subrange(0, k + 1).drop_last() =~= s.subrange(0, k));
    } else {
        assert(s.subrange(0, k) =~= s);
    }
}

/// An optional index taken as an integer.
pub open spec fn opt_int(r: Option<usize>) -> Option<int> {
    match r {
        Some(i) => Some(i as int),
        None => None,
    }
}

/// The characters of `s` from `a` up to `b`.
pub fn sub_chars(s: &[char], a: usize, b: usize) -> (r: Vec<char>)
    requires
        a <= b <= s@.len(),
    ensures
        r@ == s@.subrange(a as int, b as int),
{
    let mut r: Vec<char> = Vec::new();
    let mut i = a;
    while i < b
        invariant
            a <= i <= b <= s@.len(),
            r@ == s@.subrange(a as int, i as int),
        decreases b - i,
    {
        r.push(s[i]);
        i += 1;
        assert(r@ =~= s@.subrange(a as int, i as int));
    }
    r
}

/// Appends the characters of `src` to `dst`.
pub fn push_chars(dst: &mut Vec<char>, src: &[char])
    ensures
        final(dst)@ == old(dst)@ + src@,
{
    let mut i: usize = 0;
    while i < src.len()
        invariant
            i <= src@.len(),
            dst@ == old(dst)@ + src@.subrange(0, i as int),
        decreases src@.len() - i,
    {
        dst.push(src[i]);
        i += 1;
        assert(dst@ =~= old(dst)@ + src@.subrange(0, i as int));
    }
    assert(src@.subrange(0, src@.len() as int) =~= src@);
}

/// Whether two character sequences are equal.
pub fn chars_eq(a: &[char], b: &[char]) -> (r: bool)
    ensures
        r == (a@ == b@),
{
    if a.len() != b.len() {
        return false;
    }
    let mut i: usize = 0;
    while i < a.len()
        invariant
            a@.len() == b@.len(),
            i <= a@.len(),
            forall|j: int| 0 <= j < i ==> a@[j] == b@[j],
        decreases a@.len() - i,
    {
        if a[i] != b[i] {
            return false;
        }
        i += 1;
    }
    assert(a@ =~= b@);
    true
}

/// Whether `n` occurs in `h` at index `i`.
pub fn matches_at_exec(h: &[char], n: &[char], i: usize) -> (r: bool)
    ensures
        r == matches_at(h@, n@, i as int),
{
    if n.len() > h.len() || i > h.len() - n.len() {
        return false;
    }
    let mut j: usize = 0;
    while j < n.len()
        invariant
            i + n@.len() <= h@.len(),
            h@.len() <= usize::MAX,
            j <= n@.len(),
            forall|k: int| 0 <= k < j ==> h@[i + k] == n@[k],
        decreases n@.len() - j,
    {
        if h[i + j] != n[j] {
            assert(h@.subrange(i as int, i + n@.len())[j as int] != n@[j as int]);
            return false;
        }
        j += 1;
    }
    assert(h@.subrange(i as int, i + n@.len()) =~= n@);
    true
}

/// The first index from `from` on at which `n` occurs in `h` and ends by `to`.
pub fn find_chars(h: &[char], n: &[char], from: usize, to: usize) -> (r: Option<usize>)
    requires
        to <= h@.len(),
    ensures
        opt_int(r) == find_in(h@, n@, from as int, to as int),
{
    if n.len() > to || from > to - n.len() {
        return None;
    }
    let last = to - n.len();
    let mut i = from;
    while i <= last
        invariant
            from <= i,
            last + n@.len() == to,
            to <= h@.len(),
            find_in(h@, n@, from as int, to as int) == find_in(h@, n@, i as int, to as int),
        decreases last + 1 - i,
    {
        if matches_at_exec(h, n, i) {
            return Some(i);
        }
        if i == last {
            assert(find_in(h@, n@, i + 1, to as int) is None);
            return None;
        }
        i += 1;
    }
    None
}

/// Whether `s` begins with `p`.
pub fn starts_with_chars(s: &[char], p: &[char]) -> (r: bool)
    ensures
        r == starts_with(s@, p@),
{
    if p.len() > s.len() {
        return false;
    }
    let r = matches_at_exec(s, p, 0);
    r
}

/// The last index at which `c` occurs in `s`.
pub fn rfind_char_exec(s: &[char], c: char) -> (r: Option<usize>)
    ensures
        opt_int(r) == rfind_char(s@, c),
{
    let mut i = s.len();
    assert(s@.subrange(0, i as int) =~= s@);
    while i > 0
        invariant
            i <= s@.len(),
            rfind_char(s@, c) == rfind_char(s@.subrange(0, i as int), c),
        decreases i,
    {
        let ghost t = s@.subrange(0, i as int);
        if s[i - 1] == c {
            return Some(i - 1);
        }
        assert(t.drop_last() =~= s@.subrange(0, i - 1));
        i -= 1;
    }
    None
}

/// The bounds of `s` from `lo` up to `hi` once leading and trailing white
/// space are dropped.
pub fn trim_range(s: &[char], lo: usize, hi: usize) -> (r: (usize, usize))
    requires
        lo <= hi <= s@.len(),
    ensures
        lo <= r.0 <= r.1 <= hi,
        s@.subrange(r.0 as int, r.1 as int) == trim(s@.subrange(lo as int, hi as int)),
{
    let mut a = lo;
    while a < hi && char_is_whitespace(s[a])
        invariant
            lo <= a <= hi <= s@.len(),
            trim_start(s@.subrange(lo as int, hi as int)) == trim_start(
                s@.subrange(a as int, hi as int),
            ),
        decreases hi - a,
    {
        assert(s@.subrange(a as int, hi as int).subrange(1, hi - a) =~= s@.subrange(
            a + 1,
            hi as int,
        ));
        a += 1;
    }
    let mut b = hi;
    while b > a && char_is_whitespace(s[b - 1])
        invariant
            lo <= a <= b <= hi <= s@.len(),
            trim_end(s@.subrange(a as int, hi as int)) == trim_end(
                s@.subrange(a as int, b as int),
            ),
        decreases b - a,
    {
        assert(s@.subrange(a as int, b as int).drop_last() =~= s@.subrange(a as int, b - 1));
        b -= 1;
    }
    (a, b)
}

/// The characters of `s` without leading and trailing white space.
pub fn trim_chars(s: &[char]) -> (r: Vec<char>)
    ensures
        r@ == trim(s@),
{
    let (a, b) = trim_range(s, 0, s.len());
    assert(s@.subrange(0, s@.len() as int) =~= s@);
    sub_chars(s, a, b)
}

/// The decimal digits of `n`.
pub fn decimal_chars(n: usize) -> (r: Vec<char>)
    ensures
        r@ == decimal(n as nat),
    decreases n,
{
    if n < 10 {
        let d = char_of_digit(n as u8);
        let mut r = Vec::new();
        r.push(d);
        assert(r@ =~= decimal(n as nat));
        r
    } else {
        let mut r = decimal_chars(n / 10);
        r.push(char_of_digit((n % 10) as u8));
        r
    }
}

/// The digit character for `d`, below ten.
fn char_of_digit(d: u8) -> (c: char)
    requires
        d < 10,
    ensures
        c == digit_char(d as nat),
{
    if d == 0 {
        '0'
    } else if d == 1 {
        '1'
    } else if d == 2 {
        '2'
    } else if d == 3 {
        '3'
    } else if d == 4 {
        '4'
    } else if d == 5 {
        '5'
    } else if d == 6 {
        '6'
    } else if d == 7 {
        '7'
    } else if d == 8 {
        '8'
    } else {
        '9'
    }
}

/// The characters of a string.
pub fn str_chars(s: &str) -> (v: Vec<char>)
    ensures
        v@ == s@,
{
    let mut v: Vec<char> = Vec::new();
    for c in it: s.chars()
        invariant
            it.seq() == s@,
            v@ == it.seq().take(it.index() as int),
    {
        v.push(c);
    }
    v
}

/// The string made of the characters of `v`; `String` implements
/// `FromIterator<&char>` by pushing each character in turn.
#[verifier::external_body]
pub fn string_from_chars(v: &[char]) -> (s: String)
    ensures
        s@ == v@,
{
    String::from_iter(v)
}

} // verus!
