//! Character-level text handling shared by the parsers and formatters.
//!
//! Text is modelled as a sequence of Unicode scalar values (`Seq<char>`), the
//! view Verus gives to `str` and `String`.
use vstd::prelude::*;

verus! {

/// `String::push` appends one character.
pub assume_specification[ String::push ](s: &mut String, ch: char)
    ensures
        final(s)@ == old(s)@.push(ch),
;

// ---------------------------------------------------------------------------
// Character classes
// ---------------------------------------------------------------------------

/// The Unicode `White_Space` property, which `char::is_whitespace`,
/// `str::trim` and `str::split_whitespace` go by.
pub open spec fn is_white_space(c: char) -> bool {
    ||| ('\u{9}' <= c && c <= '\u{d}')
    ||| c == ' '
    ||| c == '\u{85}'
    ||| c == '\u{a0}'
    ||| c == '\u{1680}'
    ||| ('\u{2000}' <= c && c <= '\u{200a}')
    ||| c == '\u{2028}'
    ||| c == '\u{2029}'
    ||| c == '\u{202f}'
    ||| c == '\u{205f}'
    ||| c == '\u{3000}'
}

pub fn is_whitespace(c: char) -> (r: bool)
    ensures
        r == is_white_space(c),
{
    ('\u{9}' <= c && c <= '\u{d}') || c == ' ' || c == '\u{85}' || c == '\u{a0}' || c
        == '\u{1680}' || ('\u{2000}' <= c && c <= '\u{200a}') || c == '\u{2028}' || c
        == '\u{2029}' || c == '\u{202f}' || c == '\u{205f}' || c == '\u{3000}'
}

pub open spec fn is_digit(c: char) -> bool {
    '0' <= c && c <= '9'
}

pub open spec fn digit_char(d: int) -> char {
    (d + 48) as char
}

pub open spec fn digit_value(c: char) -> nat {
    (c as int - 48) as nat
}

/// The decimal digit character for `d`.
pub fn digit(d: u64) -> (c: char)
    requires
        d < 10,
    ensures
        c == digit_char(d as int),
        is_digit(c),
        digit_value(c) == d,
{
    let b: u8 = d as u8 + 48u8;
    b as char
}

// ---------------------------------------------------------------------------
// Conversions between `str`, `String` and `Vec<char>`
// ---------------------------------------------------------------------------

/// The characters of `s`, in order.
pub fn chars_of(s: &str) -> (v: Vec<char>)
    ensures
        v@ == s@,
{
    let mut v: Vec<char> = Vec::new();
    let n = s.unicode_len();
    let mut i: usize = 0;
    while i < n
        invariant
            n == s@.len(),
            i <= n,
            v@ == s@.subrange(0, i as int),
        decreases n - i,
    {
        let c = s.get_char(i);
        v.push(c);
        i = i + 1;
        assert(v@ =~= s@.subrange(0, i as int));
    }
    assert(v@ =~= s@);
    v
}

/// Appends the characters `v[from..to]` to `out`.
pub fn push_range(out: &mut String, v: &[char], from: usize, to: usize)
    requires
        from <= to <= v@.len(),
    ensures
        final(out)@ == old(out)@ + v@.subrange(from as int, to as int),
{
    let mut i = from;
    while i < to
        invariant
            from <= i <= to <= v@.len(),
            out@ == old(out)@ + v@.subrange(from as int, i as int),
        decreases to - i,
    {
        out.push(v[i]);
        i = i + 1;
        assert(out@ =~= old(out)@ + v@.subrange(from as int, i as int));
    }
}

/// A `String` holding the characters of `v`.
pub fn string_of(v: &[char]) -> (s: String)
    ensures
        s@ == v@,
{
    let mut s = String::new();
    push_range(&mut s, v, 0, v.len());
    assert(v@.subrange(0, v@.len() as int) =~= v@);
    s
}

/// The characters `v[from..to]`.
pub fn slice_chars(v: &[char], from: usize, to: usize) -> (r: Vec<char>)
    requires
        from <= to <= v@.len(),
    ensures
        r@ == v@.subrange(from as int, to as int),
{
    let mut r: Vec<char> = Vec::new();
    let mut i = from;
    while i < to
        invariant
            from <= i <= to <= v@.len(),
            r@ == v@.subrange(from as int, i as int),
        decreases to - i,
    {
        r.push(v[i]);
        i = i + 1;
        assert(r@ =~= v@.subrange(from as int, i as int));
    }
    r
}

/// Whether two character sequences are equal.
pub fn chars_eq(a: &[char], b: &[char]) -> (r: bool)
    ensures
        r == (a@ == b@),
{
    if a.len() != b.len() {
        return false;
    }
    let mut i: usize = 0;
    while i < a.len()
        invariant
            a@.len() == b@.len(),
            i <= a@.len(),
            forall|j: int| 0 <= j < i ==> a@[j] == b@[j],
        decreases a.len() - i,
    {
        if a[i] != b[i] {
            return false;
        }
        i = i + 1;
    }
    assert(a@ =~= b@);
    true
}

/// Whether the characters `v` spell the literal `lit`.
pub fn chars_eq_str(v: &[char], lit: &str) -> (r: bool)
    ensures
        r == (v@ == lit@),
{
    let l = chars_of(lit);
    chars_eq(v, l.as_slice())
}

// ---------------------------------------------------------------------------
// Lower-casing
// ---------------------------------------------------------------------------

/// The full Unicode lower-case mapping of a text, as `str::to_lowercase`
/// computes it (context-sensitive for the final sigma, and possibly changing
/// the length).
pub uninterp spec fn lowercase(s: Seq<char>) -> Seq<char>;

/// Calls `str::to_lowercase` on the characters `v`. The contract names the
/// result `lowercase(v)`: it is a function of the text alone; nothing more of
/// the Unicode case tables is stated here.
#[verifier::external_body]
pub(crate) fn to_lowercase(v: &[char]) -> (r: Vec<char>)
    ensures
        r@ == lowercase(v@),
{
    let s: String = v.iter().collect();
    s.to_lowercase().chars().collect()
}

// ---------------------------------------------------------------------------
// Trimming
// ---------------------------------------------------------------------------

/// The number of leading white-space characters.
pub open spec fn leading_ws(s: Seq<char>) -> nat
    decreases s.len(),
{
    if s.len() > 0 && is_white_space(s[0]) {
        1 + leading_ws(s.drop_first())
    } else {
        0
    }
}

/// The number of trailing white-space characters.
pub open spec fn trailing_ws(s: Seq<char>) -> nat
    decreases s.len(),
{
    if s.len() > 0 && is_white_space(s.last()) {
        1 + trailing_ws(s.drop_last())
    } else {
        0
    }
}

/// `s` without its leading and trailing white space (`str::trim`).
pub open spec fn trim(s: Seq<char>) -> Seq<char> {
    let a = leading_ws(s);
    if a == s.len() {
        Seq::empty()
    } else {
        s.subrange(a as int, s.len() - trailing_ws(s))
    }
}

pub proof fn lemma_leading_ws_bound(s: Seq<char>)
    ensures
        leading_ws(s) <= s.len(),
        forall|j: int| 0 <= j < leading_ws(s) ==> is_white_space(#[trigger] s[j]),
        leading_ws(s) < s.len() ==> !is_white_space(s[leading_ws(s) as int]),
    decreases s.len(),
{
    if s.len() > 0 && is_white_space(s[0]) {
        lemma_leading_ws_bound(s.drop_first());
        assert forall|j: int| 0 <= j < leading_ws(s) implies is_white_space(#[trigger] s[j]) by {
            if j > 0 {
                assert(s[j] == s.drop_first()[j - 1]);
            }
        }
    }
}

pub proof fn lemma_trailing_ws_bound(s: Seq<char>)
    ensures
        trailing_ws(s) <= s.len(),
        forall|j: int| s.len() - trailing_ws(s) <= j < s.len() ==> is_white_space(#[trigger] s[j]),
        trailing_ws(s) < s.len() ==> !is_white_space(s[s.len() - trailing_ws(s) - 1]),
    decreases s.len(),
{
    if s.len() > 0 && is_white_space(s.last()) {
        lemma_trailing_ws_bound(s.drop_last());
        assert forall|j: int| s.len() - trailing_ws(s) <= j < s.len() implies is_white_space(
            #[trigger] s[j],
        ) by {
            if j < s.len() - 1 {
                assert(s[j] == s.drop_last()[j]);
            }
        }
    }
}

/// Leading white space counted from position `i` on.
proof fn lemma_leading_ws_step(s: Seq<char>, i: int)
    requires
        0 <= i < s.len(),
        is_white_space(s[i]),
    ensures
        leading_ws(s.subrange(i, s.len() as int)) == 1 + leading_ws(
            s.subrange(i + 1, s.len() as int),
        ),
{
    assert(s.subrange(i, s.len() as int).drop_first() =~= s.subrange(i + 1, s.len() as int));
}

proof fn lemma_trailing_ws_step(s: Seq<char>, j: int)
    requires
        0 < j <= s.len(),
        is_white_space(s[j - 1]),
    ensures
        trailing_ws(s.subrange(0, j)) == 1 + trailing_ws(s.subrange(0, j - 1)),
{
    assert(s.subrange(0, j).drop_last() =~= s.subrange(0, j - 1));
}

/// The bounds `(a, b)` of `trim(v)` inside `v`.
pub fn trim_bounds(v: &[char]) -> (r: (usize, usize))
    ensures
        r.0 <= r.1 <= v@.len(),
        trim(v@) == v@.subrange(r.0 as int, r.1 as int),
{
    let n = v.len();
    let mut a: usize = 0;
    assert(v@.subrange(0, n as int) =~= v@);
    while a < n && is_whitespace(v[a])
        invariant
            n == v@.len(),
            a <= n,
            leading_ws(v@) == a + leading_ws(v@.subrange(a as int, n as int)),
        decreases n - a,
    {
        proof {
            lemma_leading_ws_step(v@, a as int);
        }
        a = a + 1;
    }
    proof {
        if a < n {
            assert(!is_white_space(v@.subrange(a as int, n as int)[0]));
        }
        assert(leading_ws(v@) == a);
        assert(v@.subrange(0, n as int) =~= v@);
    }
    if a == n {
        return (n, n);
    }
    let mut b: usize = n;
    while b > a && is_whitespace(v[b - 1])
        invariant
            n == v@.len(),
            a < n,
            a < b <= n,
            !is_white_space(v@[a as int]),
            trailing_ws(v@) == (n - b) + trailing_ws(v@.subrange(0, b as int)),
        decreases b,
    {
        proof {
            lemma_trailing_ws_step(v@, b as int);
        }
        b = b - 1;
    }
    proof {
        assert(b > a);
        assert(v@.subrange(0, b as int).last() == v@[b - 1]);
        assert(trailing_ws(v@.subrange(0, b as int)) == 0);
        assert(trailing_ws(v@) == n - b);
    }
    (a, b)
}

/// `trim(v)`.
pub fn trim_chars(v: &[char]) -> (r: Vec<char>)
    ensures
        r@ == trim(v@),
{
    let (a, b) = trim_bounds(v);
    slice_chars(v, a, b)
}

// ---------------------------------------------------------------------------
// Splitting on white space
// ---------------------------------------------------------------------------

/// The maximal runs of non-white-space characters of `s`, in order
/// (`str::split_whitespace`). Appending a character either ends nothing (white
/// space), extends the last word, or starts a new one.
pub open spec fn words(s: Seq<char>) -> Seq<Seq<char>>
    decreases s.len(),
{
    if s.len() == 0 {
        Seq::empty()
    } else {
        let init = words(s.drop_last());
        let c = s.last();
        if is_white_space(c) {
            init
        } else if s.len() > 1 && !is_white_space(s[s.len() - 2]) && init.len() > 0 {
            init.update(init.len() - 1, init.last().push(c))
        } else {
            init.push(seq![c])
        }
    }
}

/// A text that ends in a character other than white space has a word.
proof fn lemma_words_nonempty(s: Seq<char>)
    requires
        s.len() > 0,
        !is_white_space(s.last()),
    ensures
        words(s).len() > 0,
{
}

/// The words of two texts joined by a blank are the words of the first, then
/// those of the second.
pub proof fn lemma_words_of_joined(a: Seq<char>, b: Seq<char>)
    ensures
        words(a + seq![' '] + b) == words(a) + words(b),
    decreases b.len(),
{
    let s = a + seq![' '] + b;
    if b.len() == 0 {
        assert(s.drop_last() =~= a);
        assert(words(a) + words(b) =~= words(a));
    } else {
        let b1 = b.drop_last();
        let c = b.last();
        lemma_words_of_joined(a, b1);
        assert(s.drop_last() =~= a + seq![' '] + b1);
        assert(s.last() == c);
        let init = words(a) + words(b1);
        assert(words(s.drop_last()) == init);
        if b1.len() > 0 {
            assert(s[s.len() - 2] == b1.last());
            assert(b[b.len() - 2] == b1.last());
            if !is_white_space(b1.last()) {
                lemma_words_nonempty(b1);
            }
        } else {
            assert(s[s.len() - 2] == ' ');
            assert(words(b1).len() == 0);
        }
        if is_white_space(c) {
            assert(words(s) == init);
            assert(words(b) == words(b1));
        } else if s.len() > 1 && !is_white_space(s[s.len() - 2]) && init.len() > 0 {
            assert(b1.len() > 0 && words(b1).len() > 0);
            assert(words(b) == words(b1).update(words(b1).len() - 1, words(b1).last().push(c)));
            assert(words(s) =~= words(a) + words(b));
        } else {
            assert(words(b) == words(b1).push(seq![c]));
            assert(words(s) =~= words(a) + words(b));
        }
    }
}

/// The texts held by a sequence of character vectors.
pub open spec fn views(v: Seq<Vec<char>>) -> Seq<Seq<char>> {
    v.map_values(|w: Vec<char>| w@)
}

/// The words of `v`, in order.
pub fn split_whitespace(v: &[char]) -> (r: Vec<Vec<char>>)
    ensures
        views(r@) == words(v@),
{
    let mut done: Vec<Vec<char>> = Vec::new();
    let mut cur: Vec<char> = Vec::new();
    let mut in_word = false;
    let n = v.len();
    let mut i: usize = 0;
    while i < n
        invariant
            n == v@.len(),
            i <= n,
            in_word == (i > 0 && !is_white_space(v@[i - 1])),
            in_word ==> words(v@.subrange(0, i as int)) == views(done@).push(cur@),
            !in_word ==> words(v@.subrange(0, i as int)) == views(done@),
        decreases n - i,
    {
        let c = v[i];
        let ghost prefix = v@.subrange(0, i as int);
        let ghost next = v@.subrange(0, i + 1);
        proof {
            assert(next.drop_last() =~= prefix);
            assert(next.last() == c);
            if i > 0 {
                assert(next[next.len() - 2] == v@[i - 1]);
            }
        }
        if is_whitespace(c) {
            if in_word {
                let ghost before = done@;
                done.push(cur);
                cur = Vec::new();
                proof {
                    assert(views(done@) =~= views(before).push(words(prefix).last()));
                    assert(views(done@) =~= words(prefix));
                }
            }
            in_word = false;
        } else {
            if in_word {
                cur.push(c);
                proof {
                    let init = words(prefix);
                    assert(init.len() > 0);
                    assert(init.update(init.len() - 1, init.last().push(c)) =~= views(done@).push(
                        cur@,
                    ));
                }
            } else {
                cur = Vec::new();
                cur.push(c);
                proof {
                    assert(cur@ =~= seq![c]);
                }
            }
            in_word = true;
        }
        i = i + 1;
    }
    let ghost before = done@;
    let ghost last = cur@;
    if in_word {
        done.push(cur);
        proof {
            assert(views(done@) =~= views(before).push(last));
        }
    }
    proof {
        assert(v@.subrange(0, n as int) =~= v@);
    }
    done
}

// ---------------------------------------------------------------------------
// Searching
// ---------------------------------------------------------------------------

/// `n` occurs in `h` at position `i`.
pub open spec fn occurs_at(h: Seq<char>, n: Seq<char>, i: int) -> bool {
    0 <= i && i + n.len() <= h.len() && h.subrange(i, i + n.len()) == n
}

/// `n` occurs somewhere in `h` (`str::contains`).
pub open spec fn contains(h: Seq<char>, n: Seq<char>) -> bool {
    exists|i: int| occurs_at(h, n, i)
}

/// The first position at or after `i` where `n` occurs in `h`.
pub open spec fn find_from(h: Seq<char>, n: Seq<char>, i: int) -> Option<int>
    decreases h.len() + 1 - i,
{
    if i < 0 || i + n.len() > h.len() {
        None
    } else if h.subrange(i, i + n.len()) == n {
        Some(i)
    } else {
        find_from(h, n, i + 1)
    }
}

/// The first position where `n` occurs in `h` (`str::find`, counted in
/// characters).
pub open spec fn find(h: Seq<char>, n: Seq<char>) -> Option<int> {
    find_from(h, n, 0)
}

pub proof fn lemma_find_from(h: Seq<char>, n: Seq<char>, i: int)
    requires
        0 <= i,
    ensures
        find_from(h, n, i) matches Some(k) ==> i <= k && occurs_at(h, n, k) && forall|j: int|
            i <= j < k ==> !occurs_at(h, n, j),
        find_from(h, n, i) is None ==> forall|j: int| i <= j ==> !occurs_at(h, n, j),
    decreases h.len() + 1 - i,
{
    if i + n.len() > h.len() {
    } else if h.subrange(i, i + n.len()) == n {
    } else {
        lemma_find_from(h, n, i + 1);
    }
}

/// `find` gives the first occurrence, and nothing when there is none.
pub proof fn lemma_find(h: Seq<char>, n: Seq<char>)
    ensures
        find(h, n) matches Some(k) ==> occurs_at(h, n, k) && forall|j: int|
            0 <= j < k ==> !occurs_at(h, n, j),
        find(h, n) is None <==> !contains(h, n),
{
    lemma_find_from(h, n, 0);
}

fn matches_at(h: &[char], n: &[char], i: usize) -> (r: bool)
    requires
        i + n@.len() <= h@.len(),
    ensures
        r == (h@.subrange(i as int, i + n@.len()) == n@),
{
    let hl = h.len();
    let mut j: usize = 0;
    while j < n.len()
        invariant
            hl == h@.len(),
            i + n@.len() <= h@.len(),
            j <= n@.len(),
            forall|k: int| 0 <= k < j ==> h@[i + k] == n@[k],
        decreases n.len() - j,
    {
        if h[i + j] != n[j] {
            assert(h@.subrange(i as int, i + n@.len())[j as int] != n@[j as int]);
            return false;
        }
        j = j + 1;
    }
    assert(h@.subrange(i as int, i + n@.len()) =~= n@);
    true
}

/// The first position of `n` in `h`.
pub fn find_chars(h: &[char], n: &[char]) -> (r: Option<usize>)
    ensures
        r matches Some(k) ==> find(h@, n@) == Some(k as int),
        r is None ==> find(h@, n@) is None,
{
    if n.len() > h.len() {
        return None;
    }
    let last = h.len() - n.len();
    let mut i: usize = 0;
    loop
        invariant
            last + n@.len() == h@.len(),
            i <= last,
            find(h@, n@) == find_from(h@, n@, i as int),
        decreases last - i,
    {
        if matches_at(h, n, i) {
            return Some(i);
        }
        if i == last {
            assert(find_from(h@, n@, i + 1) is None);
            return None;
        }
        i = i + 1;
    }
}

/// Whether `n` occurs in `h`.
pub fn contains_chars(h: &[char], n: &[char]) -> (r: bool)
    ensures
        r == contains(h@, n@),
{
    proof {
        lemma_find(h@, n@);
    }
    find_chars(h, n).is_some()
}

/// The position of the first occurrence of `c` in `v`.
pub fn find_char(v: &[char], c: char) -> (r: Option<usize>)
    ensures
        r matches Some(k) ==> find(v@, seq![c]) == Some(k as int) && k < v@.len(),
        r is None ==> find(v@, seq![c]) is None,
{
    let needle = vec![c];
    proof {
        assert(needle@ =~= seq![c]);
        lemma_find(v@, seq![c]);
    }
    find_chars(v, needle.as_slice())
}

/// `v` starts with `p`.
pub open spec fn has_prefix(v: Seq<char>, p: Seq<char>) -> bool {
    p.len() <= v.len() && v.subrange(0, p.len() as int) == p
}

/// `v` ends with `p`.
pub open spec fn has_suffix(v: Seq<char>, p: Seq<char>) -> bool {
    p.len() <= v.len() && v.subrange(v.len() - p.len(), v.len() as int) == p
}

pub fn starts_with(v: &[char], p: &[char]) -> (r: bool)
    ensures
        r == has_prefix(v@, p@),
{
    if p.len() > v.len() {
        return false;
    }
    matches_at(v, p, 0)
}

pub fn ends_with(v: &[char], p: &[char]) -> (r: bool)
    ensures
        r == has_suffix(v@, p@),
{
    if p.len() > v.len() {
        return false;
    }
    matches_at(v, p, v.len() - p.len())
}

// ---------------------------------------------------------------------------
// Decimal numbers
// ---------------------------------------------------------------------------

/// The decimal representation of `n`, without leading zeros.
pub open spec fn decimal(n: nat) -> Seq<char>
    decreases n,
{
    if n < 10 {
        seq![digit_char(n as int)]
    } else {
        decimal(n / 10).push(digit_char((n % 10) as int))
    }
}

/// `s` left-padded with `'0'` to at least `width` characters.
pub open spec fn zero_pad(s: Seq<char>, width: nat) -> Seq<char>
    decreases width,
{
    if s.len() >= width {
        s
    } else {
        seq!['0'] + zero_pad(s, (width - 1) as nat)
    }
}

/// Appends the decimal representation of `n` to `out`.
pub fn push_decimal(out: &mut String, n: u64)
    ensures
        final(out)@ == old(out)@ + decimal(n as nat),
    decreases n,
{
    if n >= 10 {
        push_decimal(out, n / 10);
    }
    out.push(digit(n % 10));
    proof {
        if n >= 10 {
            assert(out@ =~= old(out)@ + decimal(n as nat));
        } else {
            assert(out@ =~= old(out)@ + decimal(n as nat));
        }
    }
}

pub proof fn lemma_decimal_len(n: nat)
    ensures
        decimal(n).len() >= 1,
        n < 10 <==> decimal(n).len() == 1,
    decreases n,
{
    if n >= 10 {
        lemma_decimal_len(n / 10);
    }
}

/// Appends `n` in decimal, padded with zeros to two digits (`{:02}`).
pub fn push_decimal_2(out: &mut String, n: u64)
    ensures
        final(out)@ == old(out)@ + zero_pad(decimal(n as nat), 2),
{
    proof {
        lemma_decimal_len(n as nat);
    }
    if n < 10 {
        out.push('0');
        proof {
            reveal_with_fuel(zero_pad, 3);
            assert(zero_pad(decimal(n as nat), 2) =~= seq!['0'] + decimal(n as nat));
        }
    }
    push_decimal(out, n);
    proof {
        reveal_with_fuel(zero_pad, 3);
        assert(out@ =~= old(out)@ + zero_pad(decimal(n as nat), 2));
    }
}

/// The decimal representation of `n` as a `String` (`u64::to_string`).
pub fn decimal_string(n: u64) -> (s: String)
    ensures
        s@ == decimal(n as nat),
{
    let mut s = String::new();
    push_decimal(&mut s, n);
    assert(s@ =~= decimal(n as nat));
    s
}

/// All characters are decimal digits.
pub open spec fn all_digits(s: Seq<char>) -> bool {
    forall|i: int| 0 <= i < s.len() ==> is_digit(#[trigger] s[i])
}

/// The value of a string of decimal digits.
pub open spec fn digits_value(s: Seq<char>) -> nat
    decreases s.len(),
{
    if s.len() == 0 {
        0
    } else {
        digits_value(s.drop_last()) * 10 + digit_value(s.last())
    }
}

/// What `FromStr` for an unsigned integer type with the given maximum gives:
/// an optional `+`, then one or more decimal digits whose value fits.
pub open spec fn parse_unsigned(s: Seq<char>, max: nat) -> Option<nat> {
    let body = if s.len() > 0 && s[0] == '+' {
        s.drop_first()
    } else {
        s
    };
    if body.len() > 0 && all_digits(body) && digits_value(body) <= max {
        Some(digits_value(body))
    } else {
        None
    }
}

proof fn lemma_digits_value_grows(s: Seq<char>, i: int)
    requires
        0 <= i <= s.len(),
        all_digits(s),
    ensures
        digits_value(s.subrange(0, i)) <= digits_value(s),
    decreases s.len() - i,
{
    if i < s.len() {
        lemma_digits_value_grows(s, i + 1);
        assert(s.subrange(0, i + 1).drop_last() =~= s.subrange(0, i));
    } else {
        assert(s.subrange(0, i) =~= s);
    }
}

/// Parses an unsigned decimal integer no larger than `max`, as `FromStr` for
/// the unsigned integer types does.
pub fn parse_unsigned_chars(s: &[char], max: u64) -> (r: Option<u64>)
    ensures
        r matches Some(v) ==> parse_unsigned(s@, max as nat) == Some(v as nat),
        r is None ==> parse_unsigned(s@, max as nat) is None,
{
    let start: usize = if s.len() > 0 && s[0] == '+' {
        1
    } else {
        0
    };
    let ghost body = if s@.len() > 0 && s@[0] == '+' {
        s@.drop_first()
    } else {
        s@
    };
    proof {
        assert(body =~= s@.subrange(start as int, s@.len() as int));
    }
    if start == s.len() {
        return None;
    }
    let mut value: u64 = 0;
    let mut i = start;
    while i < s.len()
        invariant
            start <= i <= s@.len(),
            body == s@.subrange(start as int, s@.len() as int),
            body == (if s@.len() > 0 && s@[0] == '+' {
                s@.drop_first()
            } else {
                s@
            }),
            body.len() > 0,
            all_digits(body.subrange(0, i - start)),
            value as nat == digits_value(body.subrange(0, i - start)),
            value <= max,
        decreases s.len() - i,
    {
        let c = s[i];
        let ghost pre = body.subrange(0, i - start);
        let ghost next = body.subrange(0, i + 1 - start);
        proof {
            assert(next.drop_last() =~= pre);
            assert(next.last() == c);
        }
        proof {
            assert(body[i - start] == c);
        }
        if !('0' <= c && c <= '9') {
            proof {
                assert(!is_digit(body[i - start]));
                assert(!all_digits(body));
                assert(parse_unsigned(s@, max as nat) is None);
            }
            return None;
        }
        let d: u64 = (c as u32 - 48) as u64;
        proof {
            assert(d as nat == digit_value(c));
            assert(digits_value(next) == value * 10 + d);
        }
        let wide: u128 = value as u128 * 10 + d as u128;
        if wide > max as u128 {
            proof {
                assert(digits_value(next) > max);
                if all_digits(body) {
                    lemma_digits_value_grows(body, i + 1 - start);
                    assert(digits_value(body) > max);
                }
                assert(parse_unsigned(s@, max as nat) is None);
            }
            return None;
        }
        value = wide as u64;
        i = i + 1;
        proof {
            assert forall|k: int| 0 <= k < next.len() implies is_digit(#[trigger] next[k]) by {
                if k < pre.len() {
                    assert(next[k] == pre[k]);
                }
            }
        }
    }
    proof {
        assert(body.subrange(0, body.len() as int) =~= body);
    }
    Some(value)
}

// ---------------------------------------------------------------------------
// Splitting on a separator, and lines
// ---------------------------------------------------------------------------

/// The pieces of `s` between occurrences of `sep` (`str::split` on a
/// character): one more piece than there are separators.
pub open spec fn split_on(s: Seq<char>, sep: char) -> Seq<Seq<char>>
    decreases s.len(),
{
    if s.len() == 0 {
        seq![Seq::empty()]
    } else {
        let init = split_on(s.drop_last(), sep);
        if s.last() == sep {
            init.push(Seq::empty())
        } else {
            init.update(init.len() - 1, init.last().push(s.last()))
        }
    }
}

pub proof fn lemma_split_on_len(s: Seq<char>, sep: char)
    ensures
        split_on(s, sep).len() >= 1,
    decreases s.len(),
{
    if s.len() > 0 {
        lemma_split_on_len(s.drop_last(), sep);
    }
}

/// `s` without one trailing carriage return.
pub open spec fn strip_cr(s: Seq<char>) -> Seq<char> {
    if s.len() > 0 && s.last() == '\r' {
        s.drop_last()
    } else {
        s
    }
}

/// The lines of `s` (`str::lines`): split at `\n`, a `\r` before the `\n`
/// dropped, and no empty last line after a final `\n`.
pub open spec fn lines(s: Seq<char>) -> Seq<Seq<char>> {
    let p = split_on(s, '\n');
    let n = p.len();
    Seq::new(
        if p[n - 1].len() == 0 {
            (n - 1) as nat
        } else {
            n as nat
        },
        |i: int|
            if i < n - 1 {
                strip_cr(p[i])
            } else {
                p[i]
            },
    )
}

/// The pieces of `v` between occurrences of `sep`.
pub fn split_char(v: &[char], sep: char) -> (r: Vec<Vec<char>>)
    ensures
        views(r@) == split_on(v@, sep),
{
    let mut done: Vec<Vec<char>> = Vec::new();
    let mut cur: Vec<char> = Vec::new();
    let mut i: usize = 0;
    assert(v@.subrange(0, 0) =~= Seq::<char>::empty());
    assert(views(done@).push(cur@) =~= split_on(Seq::<char>::empty(), sep));
    while i < v.len()
        invariant
            i <= v@.len(),
            split_on(v@.subrange(0, i as int), sep) == views(done@).push(cur@),
        decreases v.len() - i,
    {
        let c = v[i];
        let ghost prefix = v@.subrange(0, i as int);
        let ghost next = v@.subrange(0, i + 1);
        assert(next.drop_last() =~= prefix);
        let ghost before = done@;
        if c == sep {
            done.push(cur);
            cur = Vec::new();
            assert(views(done@).push(cur@) =~= views(before).push(split_on(prefix, sep).last()).push(
                Seq::empty(),
            ));
        } else {
            let ghost old_cur = cur@;
            cur.push(c);
            assert(views(done@).push(cur@) =~= split_on(prefix, sep).update(
                split_on(prefix, sep).len() - 1,
                old_cur.push(c),
            ));
        }
        i = i + 1;
    }
    assert(v@.subrange(0, v@.len() as int) =~= v@);
    let ghost before = done@;
    let ghost last = cur@;
    done.push(cur);
    assert(views(done@) =~= views(before).push(last));
    done
}

/// `v` without one trailing carriage return.
pub fn strip_cr_chars(v: Vec<char>) -> (r: Vec<char>)
    ensures
        r@ == strip_cr(v@),
{
    let mut v = v;
    if v.len() > 0 && v[v.len() - 1] == '\r' {
        v.pop();
    }
    v
}

/// The lines of `v`, as [`lines`] describes.
pub fn split_lines(v: &[char]) -> (r: Vec<Vec<char>>)
    ensures
        views(r@) == lines(v@),
{
    let pieces = split_char(v, '\n');
    proof {
        lemma_split_on_len(v@, '\n');
    }
    let n = pieces.len();
    let count = if pieces[n - 1].len() == 0 {
        n - 1
    } else {
        n
    };
    let mut out: Vec<Vec<char>> = Vec::new();
    let mut i: usize = 0;
    while i < count
        invariant
            n == pieces@.len(),
            count == (if pieces@[n - 1]@.len() == 0 {
                n - 1
            } else {
                n as int
            }),
            n >= 1,
            views(pieces@) == split_on(v@, '\n'),
            i <= count,
            out@.len() == i,
            forall|j: int|
                0 <= j < i ==> #[trigger] out@[j]@ == (if j < n - 1 {
                    strip_cr(pieces@[j]@)
                } else {
                    pieces@[j]@
                }),
        decreases count - i,
    {
        let piece = slice_chars(pieces[i].as_slice(), 0, pieces[i].len());
        assert(pieces@[i as int]@.subrange(0, pieces@[i as int]@.len() as int) =~= pieces@[i as int]@);
        let piece = if i + 1 < n {
            strip_cr_chars(piece)
        } else {
            piece
        };
        out.push(piece);
        i = i + 1;
    }
    proof {
        let p = split_on(v@, '\n');
        assert(forall|j: int| 0 <= j < n ==> #[trigger] pieces@[j]@ == p[j]);
        assert(views(out@) =~= lines(v@));
    }
    out
}

/// `s` split once at the first occurrence of `sep`, without the separator.
pub open spec fn split_once(s: Seq<char>, sep: Seq<char>) -> Option<(Seq<char>, Seq<char>)> {
    match find(s, sep) {
        Some(i) => Some((s.subrange(0, i), s.subrange(i + sep.len(), s.len() as int))),
        None => None,
    }
}

/// `v` split once at the first occurrence of `sep`.
pub fn split_once_chars(v: &[char], sep: &[char]) -> (r: Option<(Vec<char>, Vec<char>)>)
    ensures
        r matches Some(p) ==> split_once(v@, sep@) == Some((p.0@, p.1@)),
        r is None ==> split_once(v@, sep@) is None,
{
    match find_chars(v, sep) {
        None => None,
        Some(i) => {
            proof {
                lemma_find(v@, sep@);
            }
            let n = v.len();
            assert(i + sep@.len() <= n);
            Some((slice_chars(v, 0, i), slice_chars(v, i + sep.len(), n)))
        },
    }
}

/// An integer in decimal, with `-` in front when negative.
pub open spec fn signed_decimal(v: int) -> Seq<char> {
    if v < 0 {
        seq!['-'] + decimal((-v) as nat)
    } else {
        decimal(v as nat)
    }
}

/// Appends an `i64` in decimal.
pub fn push_signed_decimal(out: &mut String, v: i64)
    ensures
        final(out)@ == old(out)@ + signed_decimal(v as int),
{
    if v < 0 {
        out.push('-');
        let m: u64 = (-(v as i128)) as u64;
        push_decimal(out, m);
    } else {
        push_decimal(out, v as u64);
    }
    assert(out@ =~= old(out)@ + signed_decimal(v as int));
}

// ---------------------------------------------------------------------------
// Bytes read from other programs
// ---------------------------------------------------------------------------

/// The text `String::from_utf8_lossy` makes of bytes: valid UTF-8 decoded,
/// each invalid sequence replaced by U+FFFD.
pub uninterp spec fn utf8_lossy(bytes: Seq<u8>) -> Seq<char>;

/// Calls `String::from_utf8_lossy`. The contract names the result
/// `utf8_lossy(bytes)`: a function of the bytes alone; nothing more of the
/// decoding is stated.
#[verifier::external_body]
pub(crate) fn lossy_text(bytes: &[u8]) -> (r: String)
    ensures
        r@ == utf8_lossy(bytes@),
{
    String::from_utf8_lossy(bytes).into_owned()
}

/// What a finished child process left behind, as plain values.
pub struct CommandOutput {
    /// Whether it exited with status 0.
    pub success: bool,
    /// Its exit code, when it exited rather than being killed by a signal.
    pub code: Option<i32>,
    pub stdout: Vec<u8>,
    pub stderr: Vec<u8>,
}

// ---------------------------------------------------------------------------
// Padding to a width, as `{:<w}` and `{:>w}` do
// ---------------------------------------------------------------------------

/// `n` copies of a space.
pub open spec fn blanks(n: nat) -> Seq<char> {
    Seq::new(n, |i: int| ' ')
}

/// `s` followed by spaces up to `width` characters (`{:<width}`).
pub open spec fn pad_end(s: Seq<char>, width: nat) -> Seq<char> {
    if s.len() >= width {
        s
    } else {
        s + blanks((width - s.len()) as nat)
    }
}

/// Spaces up to `width` characters, then `s` (`{:>width}`).
pub open spec fn pad_start(s: Seq<char>, width: nat) -> Seq<char> {
    if s.len() >= width {
        s
    } else {
        blanks((width - s.len()) as nat) + s
    }
}

/// Appends `n` spaces.
pub fn push_blanks(out: &mut String, n: usize)
    ensures
        final(out)@ == old(out)@ + blanks(n as nat),
{
    let mut i: usize = 0;
    while i < n
        invariant
            i <= n,
            out@ == old(out)@ + blanks(i as nat),
        decreases n - i,
    {
        out.push(' ');
        i = i + 1;
        assert(out@ =~= old(out)@ + blanks(i as nat));
    }
}

/// Appends `s` padded with spaces after it to `width` characters.
pub fn push_pad_end(out: &mut String, s: &str, width: usize)
    ensures
        final(out)@ == old(out)@ + pad_end(s@, width as nat),
{
    let n = s.unicode_len();
    out.append(s);
    if n < width {
        push_blanks(out, width - n);
    }
    assert(out@ =~= old(out)@ + pad_end(s@, width as nat));
}

/// Appends `s` padded with spaces before it to `width` characters.
pub fn push_pad_start(out: &mut String, s: &str, width: usize)
    ensures
        final(out)@ == old(out)@ + pad_start(s@, width as nat),
{
    let n = s.unicode_len();
    if n < width {
        push_blanks(out, width - n);
    }
    out.append(s);
    assert(out@ =~= old(out)@ + pad_start(s@, width as nat));
}

} // verus!
