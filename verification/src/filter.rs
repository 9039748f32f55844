//! Process filters: whitespace-separated terms, all of which must hold.
//!
//! A term is a plain substring (`node`), a field substring (`user:milo`), or
//! a numeric comparison (`cpu>50`, `mem>=100mb`, `pid<=400`). Numeric terms
//! keep their number as written, with the unit multiplier of a size suffix;
//! the comparison itself is made on floating-point values by the caller.
use vstd::prelude::*;

use crate::text::{
    all_digits, chars_eq_str, chars_of, contains, contains_chars, find, find_chars, is_digit,
    lowercase, slice_chars, string_of, to_lowercase, trim, trim_chars, words, split_whitespace,
    has_suffix, ends_with, views,
};

verus! {

/// A text field of a process a term can name.
#[derive(Debug, Clone, Copy, PartialEq, Eq, Structural)]
pub enum TextField {
    User,
    Name,
    Status,
    Command,
    Pid,
}

/// A numeric field of a process a term can compare.
#[derive(Debug, Clone, Copy, PartialEq, Eq, Structural)]
pub enum NumField {
    Cpu,
    Mem,
    Pid,
}

/// A comparison.
#[derive(Debug, Clone, Copy, PartialEq, Eq, Structural)]
pub enum Op {
    Gt,
    Lt,
    Ge,
    Le,
}

/// One term of a filter.
#[derive(Debug)]
pub enum Term {
    /// A lower-cased substring of the process's search text.
    Text(String),
    /// A lower-cased substring of one field.
    Field { field: TextField, needle: String },
    /// A comparison of a numeric field with `number * multiplier`, where
    /// `number` is a floating-point literal as written.
    Numeric { quantity: NumField, op: Op, number: String, multiplier: u64 },
}

/// A term as plain values.
pub enum TermView {
    Text(Seq<char>),
    Field { field: TextField, needle: Seq<char> },
    Numeric { quantity: NumField, op: Op, number: Seq<char>, multiplier: nat },
}

impl Term {
    pub open spec fn view(&self) -> TermView {
        match self {
            Term::Text(s) => TermView::Text(s@),
            Term::Field { field, needle } => TermView::Field { field: *field, needle: needle@ },
            Term::Numeric { quantity, op, number, multiplier } => TermView::Numeric {
                quantity: *quantity,
                op: *op,
                number: number@,
                multiplier: *multiplier as nat,
            },
        }
    }
}

/// A parsed filter.
#[derive(Debug)]
pub struct Filter {
    terms: Vec<Term>,
}

/// The terms of a sequence of parsed terms, as plain values.
pub open spec fn term_views(v: Seq<Term>) -> Seq<TermView> {
    v.map_values(|t: Term| t.view())
}

impl Filter {
    /// The terms, as plain values.
    pub closed spec fn spec_terms(&self) -> Seq<TermView> {
        term_views(self.terms@)
    }
}

// ---------------------------------------------------------------------------
// Field names
// ---------------------------------------------------------------------------

/// The text field a name stands for, ignoring case.
pub open spec fn text_field_named(name: Seq<char>) -> Option<TextField> {
    let l = lowercase(name);
    if l == "user"@ {
        Some(TextField::User)
    } else if l == "name"@ {
        Some(TextField::Name)
    } else if l == "status"@ || l == "state"@ {
        Some(TextField::Status)
    } else if l == "cmd"@ || l == "command"@ {
        Some(TextField::Command)
    } else if l == "pid"@ {
        Some(TextField::Pid)
    } else {
        None
    }
}

/// The numeric field a name stands for, ignoring case.
pub open spec fn num_field_named(name: Seq<char>) -> Option<NumField> {
    let l = lowercase(name);
    if l == "cpu"@ {
        Some(NumField::Cpu)
    } else if l == "mem"@ || l == "memory"@ || l == "rss"@ {
        Some(NumField::Mem)
    } else if l == "pid"@ {
        Some(NumField::Pid)
    } else {
        None
    }
}

impl TextField {
    /// The text field a name stands for, as [`text_field_named`] describes.
    pub fn parse(field: &[char]) -> (r: Option<TextField>)
        ensures
            r == text_field_named(field@),
    {
        let l = to_lowercase(field);
        let l = l.as_slice();
        if chars_eq_str(l, "user") {
            Some(TextField::User)
        } else if chars_eq_str(l, "name") {
            Some(TextField::Name)
        } else if chars_eq_str(l, "status") || chars_eq_str(l, "state") {
            Some(TextField::Status)
        } else if chars_eq_str(l, "cmd") || chars_eq_str(l, "command") {
            Some(TextField::Command)
        } else if chars_eq_str(l, "pid") {
            Some(TextField::Pid)
        } else {
            None
        }
    }
}

impl NumField {
    /// The numeric field a name stands for, as [`num_field_named`] describes.
    pub fn parse(field: &[char]) -> (r: Option<NumField>)
        ensures
            r == num_field_named(field@),
    {
        let l = to_lowercase(field);
        let l = l.as_slice();
        if chars_eq_str(l, "cpu") {
            Some(NumField::Cpu)
        } else if chars_eq_str(l, "mem") || chars_eq_str(l, "memory") || chars_eq_str(l, "rss") {
            Some(NumField::Mem)
        } else if chars_eq_str(l, "pid") {
            Some(NumField::Pid)
        } else {
            None
        }
    }
}

// ---------------------------------------------------------------------------
// Floating-point literals
// ---------------------------------------------------------------------------

/// `c` with ASCII upper case turned into lower case.
pub open spec fn ascii_lower(c: char) -> char {
    if 'A' <= c && c <= 'Z' {
        ((c as int) + 32) as char
    } else {
        c
    }
}

/// A text with ASCII upper case turned into lower case.
pub open spec fn ascii_lowered(s: Seq<char>) -> Seq<char> {
    Seq::new(s.len(), |i: int| ascii_lower(s[i]))
}

/// `c` is `e` or `E`.
pub open spec fn is_exp_mark(c: char) -> bool {
    c == 'e' || c == 'E'
}

/// `c` is `+` or `-`.
pub open spec fn is_sign(c: char) -> bool {
    c == '+' || c == '-'
}

/// `s` without a leading sign.
pub open spec fn unsigned_part(s: Seq<char>) -> Seq<char> {
    if s.len() > 0 && is_sign(s[0]) {
        s.drop_first()
    } else {
        s
    }
}

/// The position of the first `e`/`E` in `s`, or its length.
pub open spec fn exp_pos(s: Seq<char>) -> nat
    decreases s.len(),
{
    if s.len() == 0 || is_exp_mark(s[0]) {
        0
    } else {
        1 + exp_pos(s.drop_first())
    }
}

/// Digits with at most one `.`, and at least one digit: `Digit+`,
/// `Digit+ '.' Digit*` or `Digit* '.' Digit+`.
pub open spec fn is_mantissa(m: Seq<char>) -> bool {
    &&& forall|i: int| 0 <= i < m.len() ==> is_digit(#[trigger] m[i]) || m[i] == '.'
    &&& forall|i: int, j: int| 0 <= i < j < m.len() ==> !(#[trigger] m[i] == '.' && #[trigger] m[j] == '.')
    &&& exists|i: int| 0 <= i < m.len() && is_digit(#[trigger] m[i])
}

/// `'e' Sign? Digit+`, the mark in either case.
pub open spec fn is_exponent(x: Seq<char>) -> bool {
    x.len() >= 1 && is_exp_mark(x[0]) && {
        let d = unsigned_part(x.drop_first());
        d.len() >= 1 && all_digits(d)
    }
}

/// What `f64::from_str` accepts: an optional sign, then `inf`, `infinity` or
/// `nan` in any case, or a decimal number with an optional exponent.
pub open spec fn is_float_literal(s: Seq<char>) -> bool {
    let t = unsigned_part(s);
    let l = ascii_lowered(t);
    ||| l == "inf"@
    ||| l == "infinity"@
    ||| l == "nan"@
    ||| {
        let k = exp_pos(t);
        is_mantissa(t.subrange(0, k as int)) && (k == t.len() || is_exponent(
            t.subrange(k as int, t.len() as int),
        ))
    }
}

proof fn lemma_exp_pos(s: Seq<char>)
    ensures
        exp_pos(s) <= s.len(),
        forall|j: int| 0 <= j < exp_pos(s) ==> !is_exp_mark(#[trigger] s[j]),
        exp_pos(s) < s.len() ==> is_exp_mark(s[exp_pos(s) as int]),
    decreases s.len(),
{
    if s.len() > 0 && !is_exp_mark(s[0]) {
        lemma_exp_pos(s.drop_first());
        assert forall|j: int| 0 <= j < exp_pos(s) implies !is_exp_mark(#[trigger] s[j]) by {
            if j > 0 {
                assert(s[j] == s.drop_first()[j - 1]);
            }
        }
    }
}

fn ascii_lower_char(c: char) -> (r: char)
    ensures
        r == ascii_lower(c),
{
    if 'A' <= c && c <= 'Z' {
        let b = c as u32 + 32;
        assert(b < 128);
        (b as u8) as char
    } else {
        c
    }
}

fn ascii_lower_chars(s: &[char]) -> (r: Vec<char>)
    ensures
        r@ == ascii_lowered(s@),
{
    let mut r: Vec<char> = Vec::new();
    let mut i: usize = 0;
    while i < s.len()
        invariant
            i <= s@.len(),
            r@ == ascii_lowered(s@).subrange(0, i as int),
        decreases s.len() - i,
    {
        r.push(ascii_lower_char(s[i]));
        i = i + 1;
        assert(r@ =~= ascii_lowered(s@).subrange(0, i as int));
    }
    assert(r@ =~= ascii_lowered(s@));
    r
}

fn is_mantissa_chars(m: &[char]) -> (r: bool)
    ensures
        r == is_mantissa(m@),
{
    let mut seen_dot = false;
    let mut dot_at: usize = 0;
    let mut seen_digit = false;
    let mut digit_at: usize = 0;
    let mut i: usize = 0;
    while i < m.len()
        invariant
            i <= m@.len(),
            forall|k: int| 0 <= k < i ==> is_digit(#[trigger] m@[k]) || m@[k] == '.',
            seen_dot ==> dot_at < i && m@[dot_at as int] == '.',
            !seen_dot ==> forall|k: int| 0 <= k < i ==> m@[k] != '.',
            seen_dot ==> forall|k: int| 0 <= k < i && m@[k] == '.' ==> k == dot_at,
            seen_digit ==> digit_at < i && is_digit(m@[digit_at as int]),
            !seen_digit ==> forall|k: int| 0 <= k < i ==> !is_digit(#[trigger] m@[k]),
        decreases m.len() - i,
    {
        let c = m[i];
        if '0' <= c && c <= '9' {
            seen_digit = true;
            digit_at = i;
        } else if c == '.' {
            if seen_dot {
                assert(!(m@[dot_at as int] == '.' && m@[i as int] == '.') == false);
                return false;
            }
            seen_dot = true;
            dot_at = i;
        } else {
            assert(!(is_digit(m@[i as int]) || m@[i as int] == '.'));
            return false;
        }
        i = i + 1;
    }
    if !seen_digit {
        return false;
    }
    assert(is_digit(m@[digit_at as int]));
    true
}

#[verifier::loop_isolation(false)]
fn is_exponent_chars(x: &[char]) -> (r: bool)
    ensures
        r == is_exponent(x@),
{
    if x.len() < 1 || !(x[0] == 'e' || x[0] == 'E') {
        return false;
    }
    let mut i: usize = 1;
    if x.len() > 1 && (x[1] == '+' || x[1] == '-') {
        i = 2;
    }
    let ghost d = unsigned_part(x@.drop_first());
    assert(d =~= x@.subrange(i as int, x@.len() as int));
    if i >= x.len() {
        assert(d.len() == 0);
        return false;
    }
    let start = i;
    while i < x.len()
        invariant
            1 <= start <= i <= x@.len(),
            d == x@.subrange(start as int, x@.len() as int),
            forall|k: int| start <= k < i ==> is_digit(#[trigger] x@[k]),
        decreases x.len() - i,
    {
        if !('0' <= x[i] && x[i] <= '9') {
            assert(!is_digit(d[i - start]));
            return false;
        }
        i = i + 1;
    }
    assert forall|k: int| 0 <= k < d.len() implies is_digit(#[trigger] d[k]) by {
        assert(d[k] == x@[k + start]);
    }
    true
}

/// Whether `s` is a literal `f64::from_str` accepts, as [`is_float_literal`]
/// describes.
pub fn float_literal(s: &[char]) -> (r: bool)
    ensures
        r == is_float_literal(s@),
{
    let start: usize = if s.len() > 0 && (s[0] == '+' || s[0] == '-') {
        1
    } else {
        0
    };
    let t = slice_chars(s, start, s.len());
    assert(t@ =~= unsigned_part(s@));
    let l = ascii_lower_chars(t.as_slice());
    if chars_eq_str(l.as_slice(), "inf") || chars_eq_str(l.as_slice(), "infinity")
        || chars_eq_str(l.as_slice(), "nan") {
        return true;
    }
    let mut k: usize = 0;
    assert(t@.subrange(0, t@.len() as int) =~= t@);
    while k < t.len() && !(t[k] == 'e' || t[k] == 'E')
        invariant
            k <= t@.len(),
            exp_pos(t@) == k + exp_pos(t@.subrange(k as int, t@.len() as int)),
        decreases t.len() - k,
    {
        assert(t@.subrange(k as int, t@.len() as int).drop_first() =~= t@.subrange(
            k + 1,
            t@.len() as int,
        ));
        k = k + 1;
    }
    proof {
        if k < t@.len() {
            assert(is_exp_mark(t@.subrange(k as int, t@.len() as int)[0]));
        }
        assert(exp_pos(t@) == k);
    }
    let m = slice_chars(t.as_slice(), 0, k);
    if !is_mantissa_chars(m.as_slice()) {
        return false;
    }
    if k == t.len() {
        return true;
    }
    let x = slice_chars(t.as_slice(), k, t.len());
    is_exponent_chars(x.as_slice())
}

// ---------------------------------------------------------------------------
// Numeric values
// ---------------------------------------------------------------------------

/// The size suffixes, in the order they are tried, with their multipliers.
pub open spec fn size_suffix(k: int) -> (Seq<char>, nat) {
    if k == 0 {
        ("tib"@, 1099511627776)
    } else if k == 1 {
        ("tb"@, 1000000000000)
    } else if k == 2 {
        ("gib"@, 1073741824)
    } else if k == 3 {
        ("gb"@, 1000000000)
    } else if k == 4 {
        ("mib"@, 1048576)
    } else if k == 5 {
        ("mb"@, 1000000)
    } else if k == 6 {
        ("kib"@, 1024)
    } else if k == 7 {
        ("kb"@, 1000)
    } else if k == 8 {
        ("t"@, 1000000000000)
    } else if k == 9 {
        ("g"@, 1000000000)
    } else if k == 10 {
        ("m"@, 1000000)
    } else if k == 11 {
        ("k"@, 1000)
    } else if k == 12 {
        ("b"@, 1)
    } else {
        (Seq::empty(), 1)
    }
}

/// The number before suffix `k` of a lower-cased size, when `s` ends with the
/// suffix and what comes before it is a literal once trimmed.
pub open spec fn size_with_suffix(s: Seq<char>, k: int) -> Option<(Seq<char>, nat)> {
    let (suffix, mult) = size_suffix(k);
    if has_suffix(s, suffix) {
        let number = trim(s.subrange(0, s.len() - suffix.len()));
        if number.len() > 0 && is_float_literal(number) {
            Some((number, mult))
        } else {
            None
        }
    } else {
        None
    }
}

/// The first suffix from `k` on that reads `s` as a size.
pub open spec fn size_from(s: Seq<char>, k: int) -> Option<(Seq<char>, nat)>
    decreases 14 - k,
{
    if k < 0 || k >= 14 {
        None
    } else {
        match size_with_suffix(s, k) {
            Some(v) => Some(v),
            None => size_from(s, k + 1),
        }
    }
}

/// A size such as `100mb`, `1.5GiB` or `4096`: the number as written, and
/// the multiplier of its unit.
pub open spec fn size_value(raw: Seq<char>) -> Option<(Seq<char>, nat)> {
    size_from(lowercase(trim(raw)), 0)
}

/// The value a numeric field is compared with.
pub open spec fn num_value(field: NumField, raw: Seq<char>) -> Option<(Seq<char>, nat)> {
    match field {
        NumField::Mem => size_value(raw),
        _ => if is_float_literal(trim(raw)) {
            Some((trim(raw), 1))
        } else {
            None
        },
    }
}

fn suffix_at(k: usize) -> (r: (&'static str, u64))
    requires
        k < 14,
    ensures
        r.0@ == size_suffix(k as int).0,
        r.1 as nat == size_suffix(k as int).1,
{
    proof {
        reveal_strlit("");
    }
    if k == 0 {
        ("tib", 1099511627776)
    } else if k == 1 {
        ("tb", 1000000000000)
    } else if k == 2 {
        ("gib", 1073741824)
    } else if k == 3 {
        ("gb", 1000000000)
    } else if k == 4 {
        ("mib", 1048576)
    } else if k == 5 {
        ("mb", 1000000)
    } else if k == 6 {
        ("kib", 1024)
    } else if k == 7 {
        ("kb", 1000)
    } else if k == 8 {
        ("t", 1000000000000)
    } else if k == 9 {
        ("g", 1000000000)
    } else if k == 10 {
        ("m", 1000000)
    } else if k == 11 {
        ("k", 1000)
    } else if k == 12 {
        ("b", 1)
    } else {
        ("", 1)
    }
}

/// Reads a size, as [`size_value`] describes.
pub fn parse_size(raw: &[char]) -> (r: Option<(Vec<char>, u64)>)
    ensures
        r matches Some(v) ==> size_value(raw@) == Some((v.0@, v.1 as nat)),
        r is None ==> size_value(raw@) is None,
{
    let t = trim_chars(raw);
    let s = to_lowercase(t.as_slice());
    let s = s.as_slice();
    let mut k: usize = 0;
    while k < 14
        invariant
            k <= 14,
            size_value(raw@) == size_from(s@, k as int),
        decreases 14 - k,
    {
        let (suffix, mult) = suffix_at(k);
        let suf = chars_of(suffix);
        if ends_with(s, suf.as_slice()) {
            let number = trim_chars(slice_chars(s, 0, s.len() - suf.len()).as_slice());
            if number.len() > 0 && float_literal(number.as_slice()) {
                return Some((number, mult));
            }
        }
        k = k + 1;
    }
    None
}

/// Reads the value a numeric field is compared with, as [`num_value`]
/// describes.
pub fn parse_value(field: NumField, raw: &[char]) -> (r: Option<(Vec<char>, u64)>)
    ensures
        r matches Some(v) ==> num_value(field, raw@) == Some((v.0@, v.1 as nat)),
        r is None ==> num_value(field, raw@) is None,
{
    match field {
        NumField::Mem => parse_size(raw),
        _ => {
            let t = trim_chars(raw);
            if float_literal(t.as_slice()) {
                Some((t, 1))
            } else {
                None
            }
        },
    }
}

// ---------------------------------------------------------------------------
// Terms
// ---------------------------------------------------------------------------

/// The comparison operators, in the order they are looked for.
pub open spec fn operator(k: int) -> (Seq<char>, Op) {
    if k == 0 {
        (">="@, Op::Ge)
    } else if k == 1 {
        ("<="@, Op::Le)
    } else if k == 2 {
        (">"@, Op::Gt)
    } else {
        ("<"@, Op::Lt)
    }
}

/// A numeric term, from operator `k` on: the first operator that occurs
/// decides; the text before its first occurrence must name a numeric field
/// and the text after it must be a value of that field.
pub open spec fn numeric_from(raw: Seq<char>, k: int) -> Option<TermView>
    decreases 4 - k,
{
    if k < 0 || k >= 4 {
        None
    } else {
        let (token, op) = operator(k);
        match find(raw, token) {
            None => numeric_from(raw, k + 1),
            Some(index) => {
                let field = raw.subrange(0, index);
                let value = raw.subrange(index + token.len(), raw.len() as int);
                if field.len() == 0 || value.len() == 0 {
                    None
                } else {
                    match num_field_named(field) {
                        None => None,
                        Some(f) => match num_value(f, value) {
                            None => None,
                            Some((number, multiplier)) => Some(
                                TermView::Numeric { quantity: f, op, number, multiplier },
                            ),
                        },
                    }
                }
            },
        }
    }
}

/// The term a word stands for: a numeric comparison when it reads as one,
/// else a field substring when the text before its first `:` names a text
/// field, else a plain substring; needles are lower-cased.
pub open spec fn term_of(raw: Seq<char>) -> TermView {
    match numeric_from(raw, 0) {
        Some(t) => t,
        None => match find(raw, seq![':']) {
            Some(index) => match text_field_named(raw.subrange(0, index)) {
                Some(field) => TermView::Field {
                    field,
                    needle: lowercase(raw.subrange(index + 1, raw.len() as int)),
                },
                None => TermView::Text(lowercase(raw)),
            },
            None => TermView::Text(lowercase(raw)),
        },
    }
}

/// The terms of a filter query: one per word.
pub open spec fn terms_of(raw: Seq<char>) -> Seq<TermView> {
    words(raw).map_values(|w: Seq<char>| term_of(w))
}

fn operator_at(k: usize) -> (r: (&'static str, Op))
    requires
        k < 4,
    ensures
        r.0@ == operator(k as int).0,
        r.1 == operator(k as int).1,
{
    if k == 0 {
        (">=", Op::Ge)
    } else if k == 1 {
        ("<=", Op::Le)
    } else if k == 2 {
        (">", Op::Gt)
    } else {
        ("<", Op::Lt)
    }
}

/// Reads a numeric term, as [`numeric_from`] from the first operator
/// describes.
pub fn parse_numeric(raw: &[char]) -> (r: Option<Term>)
    ensures
        r matches Some(t) ==> numeric_from(raw@, 0) == Some(t.view()),
        r is None ==> numeric_from(raw@, 0) is None,
{
    let mut k: usize = 0;
    while k < 4
        invariant
            k <= 4,
            numeric_from(raw@, 0) == numeric_from(raw@, k as int),
        decreases 4 - k,
    {
        let (token, op) = operator_at(k);
        let tok = chars_of(token);
        match find_chars(raw, tok.as_slice()) {
            None => {
                k = k + 1;
            },
            Some(index) => {
                proof {
                    crate::text::lemma_find(raw@, tok@);
                    assert(crate::text::occurs_at(raw@, tok@, index as int));
                }
                let n = raw.len();
                assert(index + tok@.len() <= n);
                let field = slice_chars(raw, 0, index);
                let value = slice_chars(raw, index + tok.len(), n);
                if field.len() == 0 || value.len() == 0 {
                    return None;
                }
                match NumField::parse(field.as_slice()) {
                    None => {
                        return None;
                    },
                    Some(f) => match parse_value(f, value.as_slice()) {
                        None => {
                            return None;
                        },
                        Some((number, multiplier)) => {
                            return Some(
                                Term::Numeric { quantity: f, op, number: string_of(number.as_slice()), multiplier },
                            );
                        },
                    },
                }
            },
        }
    }
    None
}

impl Term {
    /// The term a word stands for, as [`term_of`] describes.
    pub fn parse(raw: &[char]) -> (r: Term)
        ensures
            r.view() == term_of(raw@),
    {
        if let Some(t) = parse_numeric(raw) {
            return t;
        }
        let n = raw.len();
        match crate::text::find_char(raw, ':') {
            Some(index) => {
                let name = slice_chars(raw, 0, index);
                match TextField::parse(name.as_slice()) {
                    Some(field) => {
                        let rest = slice_chars(raw, index + 1, raw.len());
                        let needle = to_lowercase(rest.as_slice());
                        Term::Field { field, needle: string_of(needle.as_slice()) }
                    },
                    None => Term::Text(string_of(to_lowercase(raw).as_slice())),
                }
            },
            None => Term::Text(string_of(to_lowercase(raw).as_slice())),
        }
    }
}

impl Filter {
    /// The filter a query stands for, as [`terms_of`] describes.
    pub fn parse(raw: &str) -> (r: Filter)
        ensures
            r.spec_terms() == terms_of(raw@),
    {
        let chars = chars_of(raw);
        let ws = split_whitespace(chars.as_slice());
        let mut terms: Vec<Term> = Vec::new();
        let mut i: usize = 0;
        while i < ws.len()
            invariant
                i <= ws@.len(),
                views(ws@) == words(raw@),
                term_views(terms@) == terms_of(raw@).subrange(0, i as int),
            decreases ws.len() - i,
        {
            let t = Term::parse(ws[i].as_slice());
            proof {
                assert(ws@[i as int]@ == views(ws@)[i as int]);
                assert(terms_of(raw@)[i as int] == term_of(words(raw@)[i as int]));
                assert(t.view() == terms_of(raw@)[i as int]);
            }
            let ghost before = terms@;
            terms.push(t);
            proof {
                assert(term_views(terms@) =~= term_views(before).push(terms_of(raw@)[i as int]));
            }
            i = i + 1;
            assert(term_views(terms@) =~= terms_of(raw@).subrange(0, i as int));
        }
        assert(term_views(terms@) =~= terms_of(raw@));
        Filter { terms }
    }

    /// The terms, in order.
    pub fn terms(&self) -> (r: &Vec<Term>)
        ensures
            term_views(r@) == self.spec_terms(),
    {
        &self.terms
    }
}

// ---------------------------------------------------------------------------
// Matching
// ---------------------------------------------------------------------------

/// The texts of a process a filter looks at.
pub struct FilterSubject<'a> {
    /// The lower-cased `pid name user command status` line.
    pub search_text: &'a str,
    /// The lower-cased name.
    pub name: &'a str,
    pub user: &'a str,
    pub status: &'a str,
    pub command: &'a str,
    /// The PID in decimal.
    pub pid: &'a str,
}

/// The text of a field of a process.
pub open spec fn field_text(s: FilterSubject<'_>, field: TextField) -> Seq<char> {
    match field {
        TextField::Name => s.name@,
        TextField::User => s.user@,
        TextField::Status => s.status@,
        TextField::Command => s.command@,
        TextField::Pid => s.pid@,
    }
}

/// `needle` occurs in `haystack`, ignoring case.
pub open spec fn contains_ignoring_case(haystack: Seq<char>, needle: Seq<char>) -> bool {
    contains(lowercase(haystack), lowercase(needle))
}

/// Whether a term holds of a process, given the outcome of its numeric
/// comparison when it is one.
pub open spec fn term_holds(t: TermView, s: FilterSubject<'_>, numeric_outcome: bool) -> bool {
    match t {
        TermView::Text(needle) => contains(s.search_text@, needle),
        TermView::Field { field, needle } => contains_ignoring_case(field_text(s, field), needle),
        TermView::Numeric { .. } => numeric_outcome,
    }
}

/// Whether `needle` occurs in `haystack`, ignoring case.
pub fn contains_ignore_case(haystack: &str, needle: &str) -> (r: bool)
    ensures
        r == contains_ignoring_case(haystack@, needle@),
{
    let h = to_lowercase(chars_of(haystack).as_slice());
    let n = to_lowercase(chars_of(needle).as_slice());
    contains_chars(h.as_slice(), n.as_slice())
}

impl Term {
    /// Whether this is a numeric comparison.
    pub fn is_numeric(&self) -> (r: bool)
        ensures
            r == (self.view() is Numeric),
    {
        match self {
            Term::Numeric { .. } => true,
            _ => false,
        }
    }

    /// Whether this term holds of a process, given the outcome of its
    /// numeric comparison when it is one.
    pub fn matches(&self, subject: &FilterSubject<'_>, numeric_outcome: bool) -> (r: bool)
        ensures
            r == term_holds(self.view(), *subject, numeric_outcome),
    {
        match self {
            Term::Text(needle) => {
                let h = chars_of(subject.search_text);
                let n = chars_of(needle.as_str());
                contains_chars(h.as_slice(), n.as_slice())
            },
            Term::Field { field, needle } => {
                let value = match field {
                    TextField::Name => subject.name,
                    TextField::User => subject.user,
                    TextField::Status => subject.status,
                    TextField::Command => subject.command,
                    TextField::Pid => subject.pid,
                };
                contains_ignore_case(value, needle.as_str())
            },
            Term::Numeric { .. } => numeric_outcome,
        }
    }
}

impl Filter {
    /// Whether every term holds of a process; `numeric_outcomes[i]` is the
    /// outcome of term `i`'s comparison when it is numeric.
    pub fn matches(&self, subject: &FilterSubject<'_>, numeric_outcomes: &Vec<bool>) -> (r: bool)
        requires
            numeric_outcomes@.len() == self.spec_terms().len(),
        ensures
            r == all_terms_hold(self.spec_terms(), *subject, numeric_outcomes@),
    {
        let mut i: usize = 0;
        while i < self.terms.len()
            invariant
                i <= self.terms@.len(),
                numeric_outcomes@.len() == self.spec_terms().len(),
                self.spec_terms() == term_views(self.terms@),
                forall|j: int|
                    0 <= j < i ==> term_holds(
                        #[trigger] self.spec_terms()[j],
                        *subject,
                        numeric_outcomes@[j],
                    ),
            decreases self.terms.len() - i,
        {
            if !self.terms[i].matches(subject, numeric_outcomes[i]) {
                assert(self.spec_terms()[i as int] == self.terms@[i as int].view());
                assert(!term_holds(self.spec_terms()[i as int], *subject, numeric_outcomes@[i as int]));
                return false;
            }
            i = i + 1;
        }
        true
    }
}

/// Every term holds of a process, given the outcomes of the numeric ones.
pub open spec fn all_terms_hold(terms: Seq<TermView>, s: FilterSubject<'_>, outcomes: Seq<bool>) -> bool {
    forall|i: int| 0 <= i < terms.len() ==> term_holds(#[trigger] terms[i], s, outcomes[i])
}

/// Terms are ANDed: the query of two words joined by a blank has the terms
/// of the first and then those of the second, and it matches a process
/// exactly when each of the two queries alone does.
pub proof fn lemma_joined_query_matches_both(
    a: Seq<char>,
    b: Seq<char>,
    s: FilterSubject<'_>,
    outcomes_a: Seq<bool>,
    outcomes_b: Seq<bool>,
)
    requires
        outcomes_a.len() == terms_of(a).len(),
        outcomes_b.len() == terms_of(b).len(),
    ensures
        terms_of(a + seq![' '] + b) == terms_of(a) + terms_of(b),
        all_terms_hold(terms_of(a + seq![' '] + b), s, outcomes_a + outcomes_b) <==> (
        all_terms_hold(terms_of(a), s, outcomes_a) && all_terms_hold(terms_of(b), s, outcomes_b)),
{
    crate::text::lemma_words_of_joined(a, b);
    let ta = terms_of(a);
    let tb = terms_of(b);
    let t = terms_of(a + seq![' '] + b);
    assert(t =~= ta + tb);
    let o = outcomes_a + outcomes_b;
    if all_terms_hold(t, s, o) {
        assert forall|i: int| 0 <= i < ta.len() implies term_holds(#[trigger] ta[i], s, outcomes_a[i]) by {
            assert(t[i] == ta[i] && o[i] == outcomes_a[i]);
        }
        assert forall|i: int| 0 <= i < tb.len() implies term_holds(#[trigger] tb[i], s, outcomes_b[i]) by {
            assert(t[ta.len() + i] == tb[i] && o[ta.len() + i] == outcomes_b[i]);
        }
    }
    if all_terms_hold(ta, s, outcomes_a) && all_terms_hold(tb, s, outcomes_b) {
        assert forall|i: int| 0 <= i < t.len() implies term_holds(#[trigger] t[i], s, o[i]) by {
            if i < ta.len() {
                assert(t[i] == ta[i] && o[i] == outcomes_a[i]);
            } else {
                assert(t[i] == tb[i - ta.len()] && o[i] == outcomes_b[i - ta.len()]);
            }
        }
    }
}

/// A query of white space alone has no terms, and so matches every process.
pub proof fn lemma_blank_query_matches_all(raw: Seq<char>, s: FilterSubject<'_>, outcomes: Seq<bool>)
    requires
        forall|i: int| 0 <= i < raw.len() ==> crate::text::is_white_space(#[trigger] raw[i]),
    ensures
        terms_of(raw).len() == 0,
        forall|i: int| 0 <= i < terms_of(raw).len() ==> term_holds(#[trigger] terms_of(raw)[i], s, outcomes[i]),
    decreases raw.len(),
{
    lemma_blank_words(raw);
}

proof fn lemma_blank_words(raw: Seq<char>)
    requires
        forall|i: int| 0 <= i < raw.len() ==> crate::text::is_white_space(#[trigger] raw[i]),
    ensures
        words(raw).len() == 0,
    decreases raw.len(),
{
    if raw.len() > 0 {
        lemma_blank_words(raw.drop_last());
    }
}


/// A nonempty run of decimal digits is trimmed to itself and reads as a
/// literal.
proof fn lemma_digit_run(d: Seq<char>)
    requires
        d.len() > 0,
        all_digits(d),
    ensures
        trim(d) == d,
        is_float_literal(d),
{
    assert(!crate::text::is_white_space(d[0]) && !crate::text::is_white_space(d.last()));
    assert(crate::text::leading_ws(d) == 0);
    assert(crate::text::trailing_ws(d) == 0);
    assert(d.subrange(0, d.len() as int) =~= d);
    assert(unsigned_part(d) == d) by {
        assert(!is_sign(d[0]));
    }
    lemma_exp_pos(d);
    if exp_pos(d) < d.len() {
        assert(is_digit(d[exp_pos(d) as int]));
    }
    assert(exp_pos(d) == d.len());
    assert(is_digit(d[0]));
    assert(is_mantissa(d.subrange(0, exp_pos(d) as int)));
}

proof fn lemma_size_suffix_tib(d: Seq<char>)
    requires
        d.len() > 0,
        all_digits(d),
    ensures
        size_from(d + "tib"@, 0) == Some((d, (1024 * 1024 * 1024 * 1024) as nat)),
{
    lemma_digit_run(d);
    reveal_strlit("tib");
    reveal_strlit("tb");
    reveal_strlit("gib");
    reveal_strlit("gb");
    reveal_strlit("mib");
    reveal_strlit("mb");
    reveal_strlit("kib");
    reveal_strlit("kb");
    reveal_strlit("t");
    reveal_strlit("g");
    reveal_strlit("m");
    reveal_strlit("k");
    reveal_strlit("b");
    reveal_strlit("");
    let s = d + "tib"@;
    assert(s.len() == d.len() + 3);
    assert(s.subrange(s.len() - 3, s.len() as int) =~= "tib"@);
    assert(s.subrange(0, s.len() - 3) =~= d);
    assert(s[s.len() - 1] == 'b');
    assert(s[s.len() - 2] == 'i');
    assert(s[s.len() - 3] == 't');
    assert(s[s.len() - 4] == d[d.len() - 1]);
    assert(is_digit(d[d.len() - 1]));
    assert(size_with_suffix(s, 0) == Some((d, (1024 * 1024 * 1024 * 1024) as nat)));
    assert(size_from(s, 0) == Some((d, (1024 * 1024 * 1024 * 1024) as nat)));
}
proof fn lemma_size_suffix_tb(d: Seq<char>)
    requires
        d.len() > 0,
        all_digits(d),
    ensures
        size_from(d + "tb"@, 0) == Some((d, (1000 * 1000 * 1000 * 1000) as nat)),
{
    lemma_digit_run(d);
    reveal_strlit("tib");
    reveal_strlit("tb");
    reveal_strlit("gib");
    reveal_strlit("gb");
    reveal_strlit("mib");
    reveal_strlit("mb");
    reveal_strlit("kib");
    reveal_strlit("kb");
    reveal_strlit("t");
    reveal_strlit("g");
    reveal_strlit("m");
    reveal_strlit("k");
    reveal_strlit("b");
    reveal_strlit("");
    let s = d + "tb"@;
    assert(s.len() == d.len() + 2);
    assert(s.subrange(s.len() - 2, s.len() as int) =~= "tb"@);
    assert(s.subrange(0, s.len() - 2) =~= d);
    assert(s[s.len() - 1] == 'b');
    assert(s[s.len() - 2] == 't');
    assert(s[s.len() - 3] == d[d.len() - 1]);
    assert(is_digit(d[d.len() - 1]));
    assert(!has_suffix(s, "tib"@)) by {
        if has_suffix(s, "tib"@) {
            assert(s.subrange(s.len() - 3, s.len() as int)[1] == s[s.len() - 2]);
        }
    }
    assert(size_with_suffix(s, 0) is None);
    assert(size_with_suffix(s, 1) == Some((d, (1000 * 1000 * 1000 * 1000) as nat)));
    assert(size_from(s, 1) == Some((d, (1000 * 1000 * 1000 * 1000) as nat)));
    assert(size_from(s, 0) == Some((d, (1000 * 1000 * 1000 * 1000) as nat)));
}
proof fn lemma_size_suffix_gib(d: Seq<char>)
    requires
        d.len() > 0,
        all_digits(d),
    ensures
        size_from(d + "gib"@, 0) == Some((d, (1024 * 1024 * 1024) as nat)),
{
    lemma_digit_run(d);
    reveal_strlit("tib");
    reveal_strlit("tb");
    reveal_strlit("gib");
    reveal_strlit("gb");
    reveal_strlit("mib");
    reveal_strlit("mb");
    reveal_strlit("kib");
    reveal_strlit("kb");
    reveal_strlit("t");
    reveal_strlit("g");
    reveal_strlit("m");
    reveal_strlit("k");
    reveal_strlit("b");
    reveal_strlit("");
    let s = d + "gib"@;
    assert(s.len() == d.len() + 3);
    assert(s.subrange(s.len() - 3, s.len() as int) =~= "gib"@);
    assert(s.subrange(0, s.len() - 3) =~= d);
    assert(s[s.len() - 1] == 'b');
    assert(s[s.len() - 2] == 'i');
    assert(s[s.len() - 3] == 'g');
    assert(s[s.len() - 4] == d[d.len() - 1]);
    assert(is_digit(d[d.len() - 1]));
    assert(!has_suffix(s, "tib"@)) by {
        if has_suffix(s, "tib"@) {
            assert(s.subrange(s.len() - 3, s.len() as int)[0] == s[s.len() - 3]);
        }
    }
    assert(size_with_suffix(s, 0) is None);
    assert(!has_suffix(s, "tb"@)) by {
        if has_suffix(s, "tb"@) {
            assert(s.subrange(s.len() - 2, s.len() as int)[0] == s[s.len() - 2]);
        }
    }
    assert(size_with_suffix(s, 1) is None);
    assert(size_with_suffix(s, 2) == Some((d, (1024 * 1024 * 1024) as nat)));
    assert(size_from(s, 2) == Some((d, (1024 * 1024 * 1024) as nat)));
    assert(size_from(s, 1) == Some((d, (1024 * 1024 * 1024) as nat)));
    assert(size_from(s, 0) == Some((d, (1024 * 1024 * 1024) as nat)));
}
proof fn lemma_size_suffix_gb(d: Seq<char>)
    requires
        d.len() > 0,
        all_digits(d),
    ensures
        size_from(d + "gb"@, 0) == Some((d, (1000 * 1000 * 1000) as nat)),
{
    lemma_digit_run(d);
    reveal_strlit("tib");
    reveal_strlit("tb");
    reveal_strlit("gib");
    reveal_strlit("gb");
    reveal_strlit("mib");
    reveal_strlit("mb");
    reveal_strlit("kib");
    reveal_strlit("kb");
    reveal_strlit("t");
    reveal_strlit("g");
    reveal_strlit("m");
    reveal_strlit("k");
    reveal_strlit("b");
    reveal_strlit("");
    let s = d + "gb"@;
    assert(s.len() == d.len() + 2);
    assert(s.subrange(s.len() - 2, s.len() as int) =~= "gb"@);
    assert(s.subrange(0, s.len() - 2) =~= d);
    assert(s[s.len() - 1] == 'b');
    assert(s[s.len() - 2] == 'g');
    assert(s[s.len() - 3] == d[d.len() - 1]);
    assert(is_digit(d[d.len() - 1]));
    assert(!has_suffix(s, "tib"@)) by {
        if has_suffix(s, "tib"@) {
            assert(s.subrange(s.len() - 3, s.len() as int)[1] == s[s.len() - 2]);
        }
    }
    assert(size_with_suffix(s, 0) is None);
    assert(!has_suffix(s, "tb"@)) by {
        if has_suffix(s, "tb"@) {
            assert(s.subrange(s.len() - 2, s.len() as int)[0] == s[s.len() - 2]);
        }
    }
    assert(size_with_suffix(s, 1) is None);
    assert(!has_suffix(s, "gib"@)) by {
        if has_suffix(s, "gib"@) {
            assert(s.subrange(s.len() - 3, s.len() as int)[1] == s[s.len() - 2]);
        }
    }
    assert(size_with_suffix(s, 2) is None);
    assert(size_with_suffix(s, 3) == Some((d, (1000 * 1000 * 1000) as nat)));
    assert(size_from(s, 3) == Some((d, (1000 * 1000 * 1000) as nat)));
    assert(size_from(s, 2) == Some((d, (1000 * 1000 * 1000) as nat)));
    assert(size_from(s, 1) == Some((d, (1000 * 1000 * 1000) as nat)));
    assert(size_from(s, 0) == Some((d, (1000 * 1000 * 1000) as nat)));
}
proof fn lemma_size_suffix_mib(d: Seq<char>)
    requires
        d.len() > 0,
        all_digits(d),
    ensures
        size_from(d + "mib"@, 0) == Some((d, (1024 * 1024) as nat)),
{
    lemma_digit_run(d);
    reveal_strlit("tib");
    reveal_strlit("tb");
    reveal_strlit("gib");
    reveal_strlit("gb");
    reveal_strlit("mib");
    reveal_strlit("mb");
    reveal_strlit("kib");
    reveal_strlit("kb");
    reveal_strlit("t");
    reveal_strlit("g");
    reveal_strlit("m");
    reveal_strlit("k");
    reveal_strlit("b");
    reveal_strlit("");
    let s = d + "mib"@;
    assert(s.len() == d.len() + 3);
    assert(s.subrange(s.len() - 3, s.len() as int) =~= "mib"@);
    assert(s.subrange(0, s.len() - 3) =~= d);
    assert(s[s.len() - 1] == 'b');
    assert(s[s.len() - 2] == 'i');
    assert(s[s.len() - 3] == 'm');
    assert(s[s.len() - 4] == d[d.len() - 1]);
    assert(is_digit(d[d.len() - 1]));
    assert(!has_suffix(s, "tib"@)) by {
        if has_suffix(s, "tib"@) {
            assert(s.subrange(s.len() - 3, s.len() as int)[0] == s[s.len() - 3]);
        }
    }
    assert(size_with_suffix(s, 0) is None);
    assert(!has_suffix(s, "tb"@)) by {
        if has_suffix(s, "tb"@) {
            assert(s.subrange(s.len() - 2, s.len() as int)[0] == s[s.len() - 2]);
        }
    }
    assert(size_with_suffix(s, 1) is None);
    assert(!has_suffix(s, "gib"@)) by {
        if has_suffix(s, "gib"@) {
            assert(s.subrange(s.len() - 3, s.len() as int)[0] == s[s.len() - 3]);
        }
    }
    assert(size_with_suffix(s, 2) is None);
    assert(!has_suffix(s, "gb"@)) by {
        if has_suffix(s, "gb"@) {
            assert(s.subrange(s.len() - 2, s.len() as int)[0] == s[s.len() - 2]);
        }
    }
    assert(size_with_suffix(s, 3) is None);
    assert(size_with_suffix(s, 4) == Some((d, (1024 * 1024) as nat)));
    assert(size_from(s, 4) == Some((d, (1024 * 1024) as nat)));
    assert(size_from(s, 3) == Some((d, (1024 * 1024) as nat)));
    assert(size_from(s, 2) == Some((d, (1024 * 1024) as nat)));
    assert(size_from(s, 1) == Some((d, (1024 * 1024) as nat)));
    assert(size_from(s, 0) == Some((d, (1024 * 1024) as nat)));
}
proof fn lemma_size_suffix_mb(d: Seq<char>)
    requires
        d.len() > 0,
        all_digits(d),
    ensures
        size_from(d + "mb"@, 0) == Some((d, (1000 * 1000) as nat)),
{
    lemma_digit_run(d);
    reveal_strlit("tib");
    reveal_strlit("tb");
    reveal_strlit("gib");
    reveal_strlit("gb");
    reveal_strlit("mib");
    reveal_strlit("mb");
    reveal_strlit("kib");
    reveal_strlit("kb");
    reveal_strlit("t");
    reveal_strlit("g");
    reveal_strlit("m");
    reveal_strlit("k");
    reveal_strlit("b");
    reveal_strlit("");
    let s = d + "mb"@;
    assert(s.len() == d.len() + 2);
    assert(s.subrange(s.len() - 2, s.len() as int) =~= "mb"@);
    assert(s.subrange(0, s.len() - 2) =~= d);
    assert(s[s.len() - 1] == 'b');
    assert(s[s.len() - 2] == 'm');
    assert(s[s.len() - 3] == d[d.len() - 1]);
    assert(is_digit(d[d.len() - 1]));
    assert(!has_suffix(s, "tib"@)) by {
        if has_suffix(s, "tib"@) {
            assert(s.subrange(s.len() - 3, s.len() as int)[1] == s[s.len() - 2]);
        }
    }
    assert(size_with_suffix(s, 0) is None);
    assert(!has_suffix(s, "tb"@)) by {
        if has_suffix(s, "tb"@) {
            assert(s.subrange(s.len() - 2, s.len() as int)[0] == s[s.len() - 2]);
        }
    }
    assert(size_with_suffix(s, 1) is None);
    assert(!has_suffix(s, "gib"@)) by {
        if has_suffix(s, "gib"@) {
            assert(s.subrange(s.len() - 3, s.len() as int)[1] == s[s.len() - 2]);
        }
    }
    assert(size_with_suffix(s, 2) is None);
    assert(!has_suffix(s, "gb"@)) by {
        if has_suffix(s, "gb"@) {
            assert(s.subrange(s.len() - 2, s.len() as int)[0] == s[s.len() - 2]);
        }
    }
    assert(size_with_suffix(s, 3) is None);
    assert(!has_suffix(s, "mib"@)) by {
        if has_suffix(s, "mib"@) {
            assert(s.subrange(s.len() - 3, s.len() as int)[1] == s[s.len() - 2]);
        }
    }
    assert(size_with_suffix(s, 4) is None);
    assert(size_with_suffix(s, 5) == Some((d, (1000 * 1000) as nat)));
    assert(size_from(s, 5) == Some((d, (1000 * 1000) as nat)));
    assert(size_from(s, 4) == Some((d, (1000 * 1000) as nat)));
    assert(size_from(s, 3) == Some((d, (1000 * 1000) as nat)));
    assert(size_from(s, 2) == Some((d, (1000 * 1000) as nat)));
    assert(size_from(s, 1) == Some((d, (1000 * 1000) as nat)));
    assert(size_from(s, 0) == Some((d, (1000 * 1000) as nat)));
}
proof fn lemma_size_suffix_kib(d: Seq<char>)
    requires
        d.len() > 0,
        all_digits(d),
    ensures
        size_from(d + "kib"@, 0) == Some((d, (1024) as nat)),
{
    lemma_digit_run(d);
    reveal_strlit("tib");
    reveal_strlit("tb");
    reveal_strlit("gib");
    reveal_strlit("gb");
    reveal_strlit("mib");
    reveal_strlit("mb");
    reveal_strlit("kib");
    reveal_strlit("kb");
    reveal_strlit("t");
    reveal_strlit("g");
    reveal_strlit("m");
    reveal_strlit("k");
    reveal_strlit("b");
    reveal_strlit("");
    let s = d + "kib"@;
    assert(s.len() == d.len() + 3);
    assert(s.subrange(s.len() - 3, s.len() as int) =~= "kib"@);
    assert(s.subrange(0, s.len() - 3) =~= d);
    assert(s[s.len() - 1] == 'b');
    assert(s[s.len() - 2] == 'i');
    assert(s[s.len() - 3] == 'k');
    assert(s[s.len() - 4] == d[d.len() - 1]);
    assert(is_digit(d[d.len() - 1]));
    assert(!has_suffix(s, "tib"@)) by {
        if has_suffix(s, "tib"@) {
            assert(s.subrange(s.len() - 3, s.len() as int)[0] == s[s.len() - 3]);
        }
    }
    assert(size_with_suffix(s, 0) is None);
    assert(!has_suffix(s, "tb"@)) by {
        if has_suffix(s, "tb"@) {
            assert(s.subrange(s.len() - 2, s.len() as int)[0] == s[s.len() - 2]);
        }
    }
    assert(size_with_suffix(s, 1) is None);
    assert(!has_suffix(s, "gib"@)) by {
        if has_suffix(s, "gib"@) {
            assert(s.subrange(s.len() - 3, s.len() as int)[0] == s[s.len() - 3]);
        }
    }
    assert(size_with_suffix(s, 2) is None);
    assert(!has_suffix(s, "gb"@)) by {
        if has_suffix(s, "gb"@) {
            assert(s.subrange(s.len() - 2, s.len() as int)[0] == s[s.len() - 2]);
        }
    }
    assert(size_with_suffix(s, 3) is None);
    assert(!has_suffix(s, "mib"@)) by {
        if has_suffix(s, "mib"@) {
            assert(s.subrange(s.len() - 3, s.len() as int)[0] == s[s.len() - 3]);
        }
    }
    assert(size_with_suffix(s, 4) is None);
    assert(!has_suffix(s, "mb"@)) by {
        if has_suffix(s, "mb"@) {
            assert(s.subrange(s.len() - 2, s.len() as int)[0] == s[s.len() - 2]);
        }
    }
    assert(size_with_suffix(s, 5) is None);
    assert(size_with_suffix(s, 6) == Some((d, (1024) as nat)));
    assert(size_from(s, 6) == Some((d, (1024) as nat)));
    assert(size_from(s, 5) == Some((d, (1024) as nat)));
    assert(size_from(s, 4) == Some((d, (1024) as nat)));
    assert(size_from(s, 3) == Some((d, (1024) as nat)));
    assert(size_from(s, 2) == Some((d, (1024) as nat)));
    assert(size_from(s, 1) == Some((d, (1024) as nat)));
    assert(size_from(s, 0) == Some((d, (1024) as nat)));
}
proof fn lemma_size_suffix_kb(d: Seq<char>)
    requires
        d.len() > 0,
        all_digits(d),
    ensures
        size_from(d + "kb"@, 0) == Some((d, (1000) as nat)),
{
    lemma_digit_run(d);
    reveal_strlit("tib");
    reveal_strlit("tb");
    reveal_strlit("gib");
    reveal_strlit("gb");
    reveal_strlit("mib");
    reveal_strlit("mb");
    reveal_strlit("kib");
    reveal_strlit("kb");
    reveal_strlit("t");
    reveal_strlit("g");
    reveal_strlit("m");
    reveal_strlit("k");
    reveal_strlit("b");
    reveal_strlit("");
    let s = d + "kb"@;
    assert(s.len() == d.len() + 2);
    assert(s.subrange(s.len() - 2, s.len() as int) =~= "kb"@);
    assert(s.subrange(0, s.len() - 2) =~= d);
    assert(s[s.len() - 1] == 'b');
    assert(s[s.len() - 2] == 'k');
    assert(s[s.len() - 3] == d[d.len() - 1]);
    assert(is_digit(d[d.len() - 1]));
    assert(!has_suffix(s, "tib"@)) by {
        if has_suffix(s, "tib"@) {
            assert(s.subrange(s.len() - 3, s.len() as int)[1] == s[s.len() - 2]);
        }
    }
    assert(size_with_suffix(s, 0) is None);
    assert(!has_suffix(s, "tb"@)) by {
        if has_suffix(s, "tb"@) {
            assert(s.subrange(s.len() - 2, s.len() as int)[0] == s[s.len() - 2]);
        }
    }
    assert(size_with_suffix(s, 1) is None);
    assert(!has_suffix(s, "gib"@)) by {
        if has_suffix(s, "gib"@) {
            assert(s.subrange(s.len() - 3, s.len() as int)[1] == s[s.len() - 2]);
        }
    }
    assert(size_with_suffix(s, 2) is None);
    assert(!has_suffix(s, "gb"@)) by {
        if has_suffix(s, "gb"@) {
            assert(s.subrange(s.len() - 2, s.len() as int)[0] == s[s.len() - 2]);
        }
    }
    assert(size_with_suffix(s, 3) is None);
    assert(!has_suffix(s, "mib"@)) by {
        if has_suffix(s, "mib"@) {
            assert(s.subrange(s.len() - 3, s.len() as int)[1] == s[s.len() - 2]);
        }
    }
    assert(size_with_suffix(s, 4) is None);
    assert(!has_suffix(s, "mb"@)) by {
        if has_suffix(s, "mb"@) {
            assert(s.subrange(s.len() - 2, s.len() as int)[0] == s[s.len() - 2]);
        }
    }
    assert(size_with_suffix(s, 5) is None);
    assert(!has_suffix(s, "kib"@)) by {
        if has_suffix(s, "kib"@) {
            assert(s.subrange(s.len() - 3, s.len() as int)[1] == s[s.len() - 2]);
        }
    }
    assert(size_with_suffix(s, 6) is None);
    assert(size_with_suffix(s, 7) == Some((d, (1000) as nat)));
    assert(size_from(s, 7) == Some((d, (1000) as nat)));
    assert(size_from(s, 6) == Some((d, (1000) as nat)));
    assert(size_from(s, 5) == Some((d, (1000) as nat)));
    assert(size_from(s, 4) == Some((d, (1000) as nat)));
    assert(size_from(s, 3) == Some((d, (1000) as nat)));
    assert(size_from(s, 2) == Some((d, (1000) as nat)));
    assert(size_from(s, 1) == Some((d, (1000) as nat)));
    assert(size_from(s, 0) == Some((d, (1000) as nat)));
}
proof fn lemma_size_suffix_t(d: Seq<char>)
    requires
        d.len() > 0,
        all_digits(d),
    ensures
        size_from(d + "t"@, 0) == Some((d, (1000 * 1000 * 1000 * 1000) as nat)),
{
    lemma_digit_run(d);
    reveal_strlit("tib");
    reveal_strlit("tb");
    reveal_strlit("gib");
    reveal_strlit("gb");
    reveal_strlit("mib");
    reveal_strlit("mb");
    reveal_strlit("kib");
    reveal_strlit("kb");
    reveal_strlit("t");
    reveal_strlit("g");
    reveal_strlit("m");
    reveal_strlit("k");
    reveal_strlit("b");
    reveal_strlit("");
    let s = d + "t"@;
    assert(s.len() == d.len() + 1);
    assert(s.subrange(s.len() - 1, s.len() as int) =~= "t"@);
    assert(s.subrange(0, s.len() - 1) =~= d);
    assert(s[s.len() - 1] == 't');
    assert(s[s.len() - 2] == d[d.len() - 1]);
    assert(is_digit(d[d.len() - 1]));
    assert(!has_suffix(s, "tib"@)) by {
        if has_suffix(s, "tib"@) {
            assert(s.subrange(s.len() - 3, s.len() as int)[2] == s[s.len() - 1]);
        }
    }
    assert(size_with_suffix(s, 0) is None);
    assert(!has_suffix(s, "tb"@)) by {
        if has_suffix(s, "tb"@) {
            assert(s.subrange(s.len() - 2, s.len() as int)[1] == s[s.len() - 1]);
        }
    }
    assert(size_with_suffix(s, 1) is None);
    assert(!has_suffix(s, "gib"@)) by {
        if has_suffix(s, "gib"@) {
            assert(s.subrange(s.len() - 3, s.len() as int)[2] == s[s.len() - 1]);
        }
    }
    assert(size_with_suffix(s, 2) is None);
    assert(!has_suffix(s, "gb"@)) by {
        if has_suffix(s, "gb"@) {
            assert(s.subrange(s.len() - 2, s.len() as int)[1] == s[s.len() - 1]);
        }
    }
    assert(size_with_suffix(s, 3) is None);
    assert(!has_suffix(s, "mib"@)) by {
        if has_suffix(s, "mib"@) {
            assert(s.subrange(s.len() - 3, s.len() as int)[2] == s[s.len() - 1]);
        }
    }
    assert(size_with_suffix(s, 4) is None);
    assert(!has_suffix(s, "mb"@)) by {
        if has_suffix(s, "mb"@) {
            assert(s.subrange(s.len() - 2, s.len() as int)[1] == s[s.len() - 1]);
        }
    }
    assert(size_with_suffix(s, 5) is None);
    assert(!has_suffix(s, "kib"@)) by {
        if has_suffix(s, "kib"@) {
            assert(s.subrange(s.len() - 3, s.len() as int)[2] == s[s.len() - 1]);
        }
    }
    assert(size_with_suffix(s, 6) is None);
    assert(!has_suffix(s, "kb"@)) by {
        if has_suffix(s, "kb"@) {
            assert(s.subrange(s.len() - 2, s.len() as int)[1] == s[s.len() - 1]);
        }
    }
    assert(size_with_suffix(s, 7) is None);
    assert(size_with_suffix(s, 8) == Some((d, (1000 * 1000 * 1000 * 1000) as nat)));
    assert(size_from(s, 8) == Some((d, (1000 * 1000 * 1000 * 1000) as nat)));
    assert(size_from(s, 7) == Some((d, (1000 * 1000 * 1000 * 1000) as nat)));
    assert(size_from(s, 6) == Some((d, (1000 * 1000 * 1000 * 1000) as nat)));
    assert(size_from(s, 5) == Some((d, (1000 * 1000 * 1000 * 1000) as nat)));
    assert(size_from(s, 4) == Some((d, (1000 * 1000 * 1000 * 1000) as nat)));
    assert(size_from(s, 3) == Some((d, (1000 * 1000 * 1000 * 1000) as nat)));
    assert(size_from(s, 2) == Some((d, (1000 * 1000 * 1000 * 1000) as nat)));
    assert(size_from(s, 1) == Some((d, (1000 * 1000 * 1000 * 1000) as nat)));
    assert(size_from(s, 0) == Some((d, (1000 * 1000 * 1000 * 1000) as nat)));
}
proof fn lemma_size_suffix_g(d: Seq<char>)
    requires
        d.len() > 0,
        all_digits(d),
    ensures
        size_from(d + "g"@, 0) == Some((d, (1000 * 1000 * 1000) as nat)),
{
    lemma_digit_run(d);
    reveal_strlit("tib");
    reveal_strlit("tb");
    reveal_strlit("gib");
    reveal_strlit("gb");
    reveal_strlit("mib");
    reveal_strlit("mb");
    reveal_strlit("kib");
    reveal_strlit("kb");
    reveal_strlit("t");
    reveal_strlit("g");
    reveal_strlit("m");
    reveal_strlit("k");
    reveal_strlit("b");
    reveal_strlit("");
    let s = d + "g"@;
    assert(s.len() == d.len() + 1);
    assert(s.subrange(s.len() - 1, s.len() as int) =~= "g"@);
    assert(s.subrange(0, s.len() - 1) =~= d);
    assert(s[s.len() - 1] == 'g');
    assert(s[s.len() - 2] == d[d.len() - 1]);
    assert(is_digit(d[d.len() - 1]));
    assert(!has_suffix(s, "tib"@)) by {
        if has_suffix(s, "tib"@) {
            assert(s.subrange(s.len() - 3, s.len() as int)[2] == s[s.len() - 1]);
        }
    }
    assert(size_with_suffix(s, 0) is None);
    assert(!has_suffix(s, "tb"@)) by {
        if has_suffix(s, "tb"@) {
            assert(s.subrange(s.len() - 2, s.len() as int)[1] == s[s.len() - 1]);
        }
    }
    assert(size_with_suffix(s, 1) is None);
    assert(!has_suffix(s, "gib"@)) by {
        if has_suffix(s, "gib"@) {
            assert(s.subrange(s.len() - 3, s.len() as int)[2] == s[s.len() - 1]);
        }
    }
    assert(size_with_suffix(s, 2) is None);
    assert(!has_suffix(s, "gb"@)) by {
        if has_suffix(s, "gb"@) {
            assert(s.subrange(s.len() - 2, s.len() as int)[1] == s[s.len() - 1]);
        }
    }
    assert(size_with_suffix(s, 3) is None);
    assert(!has_suffix(s, "mib"@)) by {
        if has_suffix(s, "mib"@) {
            assert(s.subrange(s.len() - 3, s.len() as int)[2] == s[s.len() - 1]);
        }
    }
    assert(size_with_suffix(s, 4) is None);
    assert(!has_suffix(s, "mb"@)) by {
        if has_suffix(s, "mb"@) {
            assert(s.subrange(s.len() - 2, s.len() as int)[1] == s[s.len() - 1]);
        }
    }
    assert(size_with_suffix(s, 5) is None);
    assert(!has_suffix(s, "kib"@)) by {
        if has_suffix(s, "kib"@) {
            assert(s.subrange(s.len() - 3, s.len() as int)[2] == s[s.len() - 1]);
        }
    }
    assert(size_with_suffix(s, 6) is None);
    assert(!has_suffix(s, "kb"@)) by {
        if has_suffix(s, "kb"@) {
            assert(s.subrange(s.len() - 2, s.len() as int)[1] == s[s.len() - 1]);
        }
    }
    assert(size_with_suffix(s, 7) is None);
    assert(!has_suffix(s, "t"@)) by {
        if has_suffix(s, "t"@) {
            assert(s.subrange(s.len() - 1, s.len() as int)[0] == s[s.len() - 1]);
        }
    }
    assert(size_with_suffix(s, 8) is None);
    assert(size_with_suffix(s, 9) == Some((d, (1000 * 1000 * 1000) as nat)));
    assert(size_from(s, 9) == Some((d, (1000 * 1000 * 1000) as nat)));
    assert(size_from(s, 8) == Some((d, (1000 * 1000 * 1000) as nat)));
    assert(size_from(s, 7) == Some((d, (1000 * 1000 * 1000) as nat)));
    assert(size_from(s, 6) == Some((d, (1000 * 1000 * 1000) as nat)));
    assert(size_from(s, 5) == Some((d, (1000 * 1000 * 1000) as nat)));
    assert(size_from(s, 4) == Some((d, (1000 * 1000 * 1000) as nat)));
    assert(size_from(s, 3) == Some((d, (1000 * 1000 * 1000) as nat)));
    assert(size_from(s, 2) == Some((d, (1000 * 1000 * 1000) as nat)));
    assert(size_from(s, 1) == Some((d, (1000 * 1000 * 1000) as nat)));
    assert(size_from(s, 0) == Some((d, (1000 * 1000 * 1000) as nat)));
}
proof fn lemma_size_suffix_m(d: Seq<char>)
    requires
        d.len() > 0,
        all_digits(d),
    ensures
        size_from(d + "m"@, 0) == Some((d, (1000 * 1000) as nat)),
{
    lemma_digit_run(d);
    reveal_strlit("tib");
    reveal_strlit("tb");
    reveal_strlit("gib");
    reveal_strlit("gb");
    reveal_strlit("mib");
    reveal_strlit("mb");
    reveal_strlit("kib");
    reveal_strlit("kb");
    reveal_strlit("t");
    reveal_strlit("g");
    reveal_strlit("m");
    reveal_strlit("k");
    reveal_strlit("b");
    reveal_strlit("");
    let s = d + "m"@;
    assert(s.len() == d.len() + 1);
    assert(s.subrange(s.len() - 1, s.len() as int) =~= "m"@);
    assert(s.subrange(0, s.len() - 1) =~= d);
    assert(s[s.len() - 1] == 'm');
    assert(s[s.len() - 2] == d[d.len() - 1]);
    assert(is_digit(d[d.len() - 1]));
    assert(!has_suffix(s, "tib"@)) by {
        if has_suffix(s, "tib"@) {
            assert(s.subrange(s.len() - 3, s.len() as int)[2] == s[s.len() - 1]);
        }
    }
    assert(size_with_suffix(s, 0) is None);
    assert(!has_suffix(s, "tb"@)) by {
        if has_suffix(s, "tb"@) {
            assert(s.subrange(s.len() - 2, s.len() as int)[1] == s[s.len() - 1]);
        }
    }
    assert(size_with_suffix(s, 1) is None);
    assert(!has_suffix(s, "gib"@)) by {
        if has_suffix(s, "gib"@) {
            assert(s.subrange(s.len() - 3, s.len() as int)[2] == s[s.len() - 1]);
        }
    }
    assert(size_with_suffix(s, 2) is None);
    assert(!has_suffix(s, "gb"@)) by {
        if has_suffix(s, "gb"@) {
            assert(s.subrange(s.len() - 2, s.len() as int)[1] == s[s.len() - 1]);
        }
    }
    assert(size_with_suffix(s, 3) is None);
    assert(!has_suffix(s, "mib"@)) by {
        if has_suffix(s, "mib"@) {
            assert(s.subrange(s.len() - 3, s.len() as int)[2] == s[s.len() - 1]);
        }
    }
    assert(size_with_suffix(s, 4) is None);
    assert(!has_suffix(s, "mb"@)) by {
        if has_suffix(s, "mb"@) {
            assert(s.subrange(s.len() - 2, s.len() as int)[1] == s[s.len() - 1]);
        }
    }
    assert(size_with_suffix(s, 5) is None);
    assert(!has_suffix(s, "kib"@)) by {
        if has_suffix(s, "kib"@) {
            assert(s.subrange(s.len() - 3, s.len() as int)[2] == s[s.len() - 1]);
        }
    }
    assert(size_with_suffix(s, 6) is None);
    assert(!has_suffix(s, "kb"@)) by {
        if has_suffix(s, "kb"@) {
            assert(s.subrange(s.len() - 2, s.len() as int)[1] == s[s.len() - 1]);
        }
    }
    assert(size_with_suffix(s, 7) is None);
    assert(!has_suffix(s, "t"@)) by {
        if has_suffix(s, "t"@) {
            assert(s.subrange(s.len() - 1, s.len() as int)[0] == s[s.len() - 1]);
        }
    }
    assert(size_with_suffix(s, 8) is None);
    assert(!has_suffix(s, "g"@)) by {
        if has_suffix(s, "g"@) {
            assert(s.subrange(s.len() - 1, s.len() as int)[0] == s[s.len() - 1]);
        }
    }
    assert(size_with_suffix(s, 9) is None);
    assert(size_with_suffix(s, 10) == Some((d, (1000 * 1000) as nat)));
    assert(size_from(s, 10) == Some((d, (1000 * 1000) as nat)));
    assert(size_from(s, 9) == Some((d, (1000 * 1000) as nat)));
    assert(size_from(s, 8) == Some((d, (1000 * 1000) as nat)));
    assert(size_from(s, 7) == Some((d, (1000 * 1000) as nat)));
    assert(size_from(s, 6) == Some((d, (1000 * 1000) as nat)));
    assert(size_from(s, 5) == Some((d, (1000 * 1000) as nat)));
    assert(size_from(s, 4) == Some((d, (1000 * 1000) as nat)));
    assert(size_from(s, 3) == Some((d, (1000 * 1000) as nat)));
    assert(size_from(s, 2) == Some((d, (1000 * 1000) as nat)));
    assert(size_from(s, 1) == Some((d, (1000 * 1000) as nat)));
    assert(size_from(s, 0) == Some((d, (1000 * 1000) as nat)));
}
proof fn lemma_size_suffix_k(d: Seq<char>)
    requires
        d.len() > 0,
        all_digits(d),
    ensures
        size_from(d + "k"@, 0) == Some((d, (1000) as nat)),
{
    lemma_digit_run(d);
    reveal_strlit("tib");
    reveal_strlit("tb");
    reveal_strlit("gib");
    reveal_strlit("gb");
    reveal_strlit("mib");
    reveal_strlit("mb");
    reveal_strlit("kib");
    reveal_strlit("kb");
    reveal_strlit("t");
    reveal_strlit("g");
    reveal_strlit("m");
    reveal_strlit("k");
    reveal_strlit("b");
    reveal_strlit("");
    let s = d + "k"@;
    assert(s.len() == d.len() + 1);
    assert(s.subrange(s.len() - 1, s.len() as int) =~= "k"@);
    assert(s.subrange(0, s.len() - 1) =~= d);
    assert(s[s.len() - 1] == 'k');
    assert(s[s.len() - 2] == d[d.len() - 1]);
    assert(is_digit(d[d.len() - 1]));
    assert(!has_suffix(s, "tib"@)) by {
        if has_suffix(s, "tib"@) {
            assert(s.subrange(s.len() - 3, s.len() as int)[2] == s[s.len() - 1]);
        }
    }
    assert(size_with_suffix(s, 0) is None);
    assert(!has_suffix(s, "tb"@)) by {
        if has_suffix(s, "tb"@) {
            assert(s.subrange(s.len() - 2, s.len() as int)[1] == s[s.len() - 1]);
        }
    }
    assert(size_with_suffix(s, 1) is None);
    assert(!has_suffix(s, "gib"@)) by {
        if has_suffix(s, "gib"@) {
            assert(s.subrange(s.len() - 3, s.len() as int)[2] == s[s.len() - 1]);
        }
    }
    assert(size_with_suffix(s, 2) is None);
    assert(!has_suffix(s, "gb"@)) by {
        if has_suffix(s, "gb"@) {
            assert(s.subrange(s.len() - 2, s.len() as int)[1] == s[s.len() - 1]);
        }
    }
    assert(size_with_suffix(s, 3) is None);
    assert(!has_suffix(s, "mib"@)) by {
        if has_suffix(s, "mib"@) {
            assert(s.subrange(s.len() - 3, s.len() as int)[2] == s[s.len() - 1]);
        }
    }
    assert(size_with_suffix(s, 4) is None);
    assert(!has_suffix(s, "mb"@)) by {
        if has_suffix(s, "mb"@) {
            assert(s.subrange(s.len() - 2, s.len() as int)[1] == s[s.len() - 1]);
        }
    }
    assert(size_with_suffix(s, 5) is None);
    assert(!has_suffix(s, "kib"@)) by {
        if has_suffix(s, "kib"@) {
            assert(s.subrange(s.len() - 3, s.len() as int)[2] == s[s.len() - 1]);
        }
    }
    assert(size_with_suffix(s, 6) is None);
    assert(!has_suffix(s, "kb"@)) by {
        if has_suffix(s, "kb"@) {
            assert(s.subrange(s.len() - 2, s.len() as int)[1] == s[s.len() - 1]);
        }
    }
    assert(size_with_suffix(s, 7) is None);
    assert(!has_suffix(s, "t"@)) by {
        if has_suffix(s, "t"@) {
            assert(s.subrange(s.len() - 1, s.len() as int)[0] == s[s.len() - 1]);
        }
    }
    assert(size_with_suffix(s, 8) is None);
    assert(!has_suffix(s, "g"@)) by {
        if has_suffix(s, "g"@) {
            assert(s.subrange(s.len() - 1, s.len() as int)[0] == s[s.len() - 1]);
        }
    }
    assert(size_with_suffix(s, 9) is None);
    assert(!has_suffix(s, "m"@)) by {
        if has_suffix(s, "m"@) {
            assert(s.subrange(s.len() - 1, s.len() as int)[0] == s[s.len() - 1]);
        }
    }
    assert(size_with_suffix(s, 10) is None);
    assert(size_with_suffix(s, 11) == Some((d, (1000) as nat)));
    assert(size_from(s, 11) == Some((d, (1000) as nat)));
    assert(size_from(s, 10) == Some((d, (1000) as nat)));
    assert(size_from(s, 9) == Some((d, (1000) as nat)));
    assert(size_from(s, 8) == Some((d, (1000) as nat)));
    assert(size_from(s, 7) == Some((d, (1000) as nat)));
    assert(size_from(s, 6) == Some((d, (1000) as nat)));
    assert(size_from(s, 5) == Some((d, (1000) as nat)));
    assert(size_from(s, 4) == Some((d, (1000) as nat)));
    assert(size_from(s, 3) == Some((d, (1000) as nat)));
    assert(size_from(s, 2) == Some((d, (1000) as nat)));
    assert(size_from(s, 1) == Some((d, (1000) as nat)));
    assert(size_from(s, 0) == Some((d, (1000) as nat)));
}
proof fn lemma_size_suffix_b(d: Seq<char>)
    requires
        d.len() > 0,
        all_digits(d),
    ensures
        size_from(d + "b"@, 0) == Some((d, (1) as nat)),
{
    lemma_digit_run(d);
    reveal_strlit("tib");
    reveal_strlit("tb");
    reveal_strlit("gib");
    reveal_strlit("gb");
    reveal_strlit("mib");
    reveal_strlit("mb");
    reveal_strlit("kib");
    reveal_strlit("kb");
    reveal_strlit("t");
    reveal_strlit("g");
    reveal_strlit("m");
    reveal_strlit("k");
    reveal_strlit("b");
    reveal_strlit("");
    let s = d + "b"@;
    assert(s.len() == d.len() + 1);
    assert(s.subrange(s.len() - 1, s.len() as int) =~= "b"@);
    assert(s.subrange(0, s.len() - 1) =~= d);
    assert(s[s.len() - 1] == 'b');
    assert(s[s.len() - 2] == d[d.len() - 1]);
    assert(is_digit(d[d.len() - 1]));
    assert(!has_suffix(s, "tib"@)) by {
        if has_suffix(s, "tib"@) {
            assert(s.subrange(s.len() - 3, s.len() as int)[1] == s[s.len() - 2]);
        }
    }
    assert(size_with_suffix(s, 0) is None);
    assert(!has_suffix(s, "tb"@)) by {
        if has_suffix(s, "tb"@) {
            assert(s.subrange(s.len() - 2, s.len() as int)[0] == s[s.len() - 2]);
        }
    }
    assert(size_with_suffix(s, 1) is None);
    assert(!has_suffix(s, "gib"@)) by {
        if has_suffix(s, "gib"@) {
            assert(s.subrange(s.len() - 3, s.len() as int)[1] == s[s.len() - 2]);
        }
    }
    assert(size_with_suffix(s, 2) is None);
    assert(!has_suffix(s, "gb"@)) by {
        if has_suffix(s, "gb"@) {
            assert(s.subrange(s.len() - 2, s.len() as int)[0] == s[s.len() - 2]);
        }
    }
    assert(size_with_suffix(s, 3) is None);
    assert(!has_suffix(s, "mib"@)) by {
        if has_suffix(s, "mib"@) {
            assert(s.subrange(s.len() - 3, s.len() as int)[1] == s[s.len() - 2]);
        }
    }
    assert(size_with_suffix(s, 4) is None);
    assert(!has_suffix(s, "mb"@)) by {
        if has_suffix(s, "mb"@) {
            assert(s.subrange(s.len() - 2, s.len() as int)[0] == s[s.len() - 2]);
        }
    }
    assert(size_with_suffix(s, 5) is None);
    assert(!has_suffix(s, "kib"@)) by {
        if has_suffix(s, "kib"@) {
            assert(s.subrange(s.len() - 3, s.len() as int)[1] == s[s.len() - 2]);
        }
    }
    assert(size_with_suffix(s, 6) is None);
    assert(!has_suffix(s, "kb"@)) by {
        if has_suffix(s, "kb"@) {
            assert(s.subrange(s.len() - 2, s.len() as int)[0] == s[s.len() - 2]);
        }
    }
    assert(size_with_suffix(s, 7) is None);
    assert(!has_suffix(s, "t"@)) by {
        if has_suffix(s, "t"@) {
            assert(s.subrange(s.len() - 1, s.len() as int)[0] == s[s.len() - 1]);
        }
    }
    assert(size_with_suffix(s, 8) is None);
    assert(!has_suffix(s, "g"@)) by {
        if has_suffix(s, "g"@) {
            assert(s.subrange(s.len() - 1, s.len() as int)[0] == s[s.len() - 1]);
        }
    }
    assert(size_with_suffix(s, 9) is None);
    assert(!has_suffix(s, "m"@)) by {
        if has_suffix(s, "m"@) {
            assert(s.subrange(s.len() - 1, s.len() as int)[0] == s[s.len() - 1]);
        }
    }
    assert(size_with_suffix(s, 10) is None);
    assert(!has_suffix(s, "k"@)) by {
        if has_suffix(s, "k"@) {
            assert(s.subrange(s.len() - 1, s.len() as int)[0] == s[s.len() - 1]);
        }
    }
    assert(size_with_suffix(s, 11) is None);
    assert(size_with_suffix(s, 12) == Some((d, (1) as nat)));
    assert(size_from(s, 12) == Some((d, (1) as nat)));
    assert(size_from(s, 11) == Some((d, (1) as nat)));
    assert(size_from(s, 10) == Some((d, (1) as nat)));
    assert(size_from(s, 9) == Some((d, (1) as nat)));
    assert(size_from(s, 8) == Some((d, (1) as nat)));
    assert(size_from(s, 7) == Some((d, (1) as nat)));
    assert(size_from(s, 6) == Some((d, (1) as nat)));
    assert(size_from(s, 5) == Some((d, (1) as nat)));
    assert(size_from(s, 4) == Some((d, (1) as nat)));
    assert(size_from(s, 3) == Some((d, (1) as nat)));
    assert(size_from(s, 2) == Some((d, (1) as nat)));
    assert(size_from(s, 1) == Some((d, (1) as nat)));
    assert(size_from(s, 0) == Some((d, (1) as nat)));
}
proof fn lemma_size_suffix_none(d: Seq<char>)
    requires
        d.len() > 0,
        all_digits(d),
    ensures
        size_from(d + ""@, 0) == Some((d, (1) as nat)),
{
    lemma_digit_run(d);
    reveal_strlit("tib");
    reveal_strlit("tb");
    reveal_strlit("gib");
    reveal_strlit("gb");
    reveal_strlit("mib");
    reveal_strlit("mb");
    reveal_strlit("kib");
    reveal_strlit("kb");
    reveal_strlit("t");
    reveal_strlit("g");
    reveal_strlit("m");
    reveal_strlit("k");
    reveal_strlit("b");
    reveal_strlit("");
    let s = d + ""@;
    assert(s.len() == d.len() + 0);
    assert(s.subrange(s.len() - 0, s.len() as int) =~= ""@);
    assert(s.subrange(0, s.len() - 0) =~= d);
    assert(s[s.len() - 1] == d[d.len() - 1]);
    assert(is_digit(d[d.len() - 1]));
    assert(!has_suffix(s, "tib"@)) by {
        if has_suffix(s, "tib"@) {
            assert(s.subrange(s.len() - 3, s.len() as int)[2] == s[s.len() - 1]);
        }
    }
    assert(size_with_suffix(s, 0) is None);
    assert(!has_suffix(s, "tb"@)) by {
        if has_suffix(s, "tb"@) {
            assert(s.subrange(s.len() - 2, s.len() as int)[1] == s[s.len() - 1]);
        }
    }
    assert(size_with_suffix(s, 1) is None);
    assert(!has_suffix(s, "gib"@)) by {
        if has_suffix(s, "gib"@) {
            assert(s.subrange(s.len() - 3, s.len() as int)[2] == s[s.len() - 1]);
        }
    }
    assert(size_with_suffix(s, 2) is None);
    assert(!has_suffix(s, "gb"@)) by {
        if has_suffix(s, "gb"@) {
            assert(s.subrange(s.len() - 2, s.len() as int)[1] == s[s.len() - 1]);
        }
    }
    assert(size_with_suffix(s, 3) is None);
    assert(!has_suffix(s, "mib"@)) by {
        if has_suffix(s, "mib"@) {
            assert(s.subrange(s.len() - 3, s.len() as int)[2] == s[s.len() - 1]);
        }
    }
    assert(size_with_suffix(s, 4) is None);
    assert(!has_suffix(s, "mb"@)) by {
        if has_suffix(s, "mb"@) {
            assert(s.subrange(s.len() - 2, s.len() as int)[1] == s[s.len() - 1]);
        }
    }
    assert(size_with_suffix(s, 5) is None);
    assert(!has_suffix(s, "kib"@)) by {
        if has_suffix(s, "kib"@) {
            assert(s.subrange(s.len() - 3, s.len() as int)[2] == s[s.len() - 1]);
        }
    }
    assert(size_with_suffix(s, 6) is None);
    assert(!has_suffix(s, "kb"@)) by {
        if has_suffix(s, "kb"@) {
            assert(s.subrange(s.len() - 2, s.len() as int)[1] == s[s.len() - 1]);
        }
    }
    assert(size_with_suffix(s, 7) is None);
    assert(!has_suffix(s, "t"@)) by {
        if has_suffix(s, "t"@) {
            assert(s.subrange(s.len() - 1, s.len() as int)[0] == s[s.len() - 1]);
        }
    }
    assert(size_with_suffix(s, 8) is None);
    assert(!has_suffix(s, "g"@)) by {
        if has_suffix(s, "g"@) {
            assert(s.subrange(s.len() - 1, s.len() as int)[0] == s[s.len() - 1]);
        }
    }
    assert(size_with_suffix(s, 9) is None);
    assert(!has_suffix(s, "m"@)) by {
        if has_suffix(s, "m"@) {
            assert(s.subrange(s.len() - 1, s.len() as int)[0] == s[s.len() - 1]);
        }
    }
    assert(size_with_suffix(s, 10) is None);
    assert(!has_suffix(s, "k"@)) by {
        if has_suffix(s, "k"@) {
            assert(s.subrange(s.len() - 1, s.len() as int)[0] == s[s.len() - 1]);
        }
    }
    assert(size_with_suffix(s, 11) is None);
    assert(!has_suffix(s, "b"@)) by {
        if has_suffix(s, "b"@) {
            assert(s.subrange(s.len() - 1, s.len() as int)[0] == s[s.len() - 1]);
        }
    }
    assert(size_with_suffix(s, 12) is None);
    assert(s.subrange(s.len() as int, s.len() as int) =~= Seq::<char>::empty());
    assert(has_suffix(s, size_suffix(13).0));
    assert(size_with_suffix(s, 13) == Some((d, (1) as nat)));
    assert(size_from(s, 13) == Some((d, (1) as nat)));
    assert(size_from(s, 12) == Some((d, (1) as nat)));
    assert(size_from(s, 11) == Some((d, (1) as nat)));
    assert(size_from(s, 10) == Some((d, (1) as nat)));
    assert(size_from(s, 9) == Some((d, (1) as nat)));
    assert(size_from(s, 8) == Some((d, (1) as nat)));
    assert(size_from(s, 7) == Some((d, (1) as nat)));
    assert(size_from(s, 6) == Some((d, (1) as nat)));
    assert(size_from(s, 5) == Some((d, (1) as nat)));
    assert(size_from(s, 4) == Some((d, (1) as nat)));
    assert(size_from(s, 3) == Some((d, (1) as nat)));
    assert(size_from(s, 2) == Some((d, (1) as nat)));
    assert(size_from(s, 1) == Some((d, (1) as nat)));
    assert(size_from(s, 0) == Some((d, (1) as nat)));
}

/// A memory size of digits followed by a unit, once lower-cased, is the
/// number scaled by what the unit names: `tib`, `gib`, `mib` and `kib` by
/// 2^40, 2^30, 2^20 and 2^10; `tb` or `t`, `gb` or `g`, `mb` or `m`, and
/// `kb` or `k` by 10^12, 10^9, 10^6 and 10^3; `b` or no unit by 1.
pub proof fn lemma_size_units_scale(d: Seq<char>)
    requires
        d.len() > 0,
        all_digits(d),
    ensures
        size_from(d + "tib"@, 0) == Some((d, (1024 * 1024 * 1024 * 1024) as nat)),
        size_from(d + "tb"@, 0) == Some((d, (1000 * 1000 * 1000 * 1000) as nat)),
        size_from(d + "gib"@, 0) == Some((d, (1024 * 1024 * 1024) as nat)),
        size_from(d + "gb"@, 0) == Some((d, (1000 * 1000 * 1000) as nat)),
        size_from(d + "mib"@, 0) == Some((d, (1024 * 1024) as nat)),
        size_from(d + "mb"@, 0) == Some((d, (1000 * 1000) as nat)),
        size_from(d + "kib"@, 0) == Some((d, (1024) as nat)),
        size_from(d + "kb"@, 0) == Some((d, (1000) as nat)),
        size_from(d + "t"@, 0) == Some((d, (1000 * 1000 * 1000 * 1000) as nat)),
        size_from(d + "g"@, 0) == Some((d, (1000 * 1000 * 1000) as nat)),
        size_from(d + "m"@, 0) == Some((d, (1000 * 1000) as nat)),
        size_from(d + "k"@, 0) == Some((d, (1000) as nat)),
        size_from(d + "b"@, 0) == Some((d, (1) as nat)),
        size_from(d + ""@, 0) == Some((d, (1) as nat)),
{
    lemma_size_suffix_tib(d);
    lemma_size_suffix_tb(d);
    lemma_size_suffix_gib(d);
    lemma_size_suffix_gb(d);
    lemma_size_suffix_mib(d);
    lemma_size_suffix_mb(d);
    lemma_size_suffix_kib(d);
    lemma_size_suffix_kb(d);
    lemma_size_suffix_t(d);
    lemma_size_suffix_g(d);
    lemma_size_suffix_m(d);
    lemma_size_suffix_k(d);
    lemma_size_suffix_b(d);
    lemma_size_suffix_none(d);
}


/// `c` occurs nowhere in `s`.
pub open spec fn lacks(s: Seq<char>, c: char) -> bool {
    forall|i: int| 0 <= i < s.len() ==> s[i] != c
}

/// A word `name>value` whose name stands for memory compares memory, and
/// the value it is compared with is the value read as a size, number and
/// multiplier both (see [`lemma_size_units_scale`]).
pub proof fn lemma_memory_comparison_term(name: Seq<char>, value: Seq<char>)
    requires
        num_field_named(name) == Some(NumField::Mem),
        name.len() > 0,
        value.len() > 0,
        lacks(name, '>'),
        lacks(name, '<'),
        lacks(name, '='),
        lacks(value, '<'),
        lacks(value, '='),
        size_value(value) is Some,
    ensures
        term_of(name + seq!['>'] + value) == (TermView::Numeric {
            quantity: NumField::Mem,
            op: Op::Gt,
            number: size_value(value).unwrap().0,
            multiplier: size_value(value).unwrap().1,
        }),
{
    let raw = name + seq!['>'] + value;
    let k = name.len() as int;
    assert(raw[k] == '>');
    assert forall|i: int| 0 <= i < raw.len() implies raw[i] != '=' && raw[i] != '<' by {
        if i < k {
            assert(raw[i] == name[i]);
        } else if i > k {
            assert(raw[i] == value[i - k - 1]);
        }
    }
    reveal_strlit(">=");
    reveal_strlit("<=");
    reveal_strlit(">");
    crate::text::lemma_find(raw, ">="@);
    crate::text::lemma_find(raw, "<="@);
    crate::text::lemma_find(raw, ">"@);
    assert(!contains(raw, ">="@)) by {
        if contains(raw, ">="@) {
            let j = choose|j: int| crate::text::occurs_at(raw, ">="@, j);
            assert(raw.subrange(j, j + 2)[1] == raw[j + 1]);
        }
    }
    assert(!contains(raw, "<="@)) by {
        if contains(raw, "<="@) {
            let j = choose|j: int| crate::text::occurs_at(raw, "<="@, j);
            assert(raw.subrange(j, j + 2)[1] == raw[j + 1]);
        }
    }
    assert(raw.subrange(k, k + 1) =~= ">"@);
    assert(crate::text::occurs_at(raw, ">"@, k));
    assert(find(raw, ">"@) == Some(k)) by {
        assert(contains(raw, ">"@));
        let f = find(raw, ">"@).unwrap();
        if f < k {
            assert(raw.subrange(f, f + 1)[0] == raw[f]);
            assert(raw[f] == name[f]);
        }
        if f > k {
            assert(!crate::text::occurs_at(raw, ">"@, k));
        }
    }
    assert(raw.subrange(0, k) =~= name);
    assert(raw.subrange(k + 1, raw.len() as int) =~= value);
    assert(numeric_from(raw, 0) == numeric_from(raw, 1));
    assert(numeric_from(raw, 1) == numeric_from(raw, 2));
}

} // verus!
