//! Text utilities shared by the commands: ASCII case-insensitive comparison,
//! joining, and a lexicographic order on strings.

use vstd::prelude::*;

verus! {

/// The code of `c` after ASCII lowercase folding: `A`..`Z` map to `a`..`z`,
/// every other character is left as it is.
pub open spec fn fold_code(c: char) -> u32 {
    if 'A' <= c && c <= 'Z' {
        (c as u32 + 32) as u32
    } else {
        c as u32
    }
}

/// Two strings are equal when ASCII letters are compared without regard to case.
pub open spec fn eq_ic(a: Seq<char>, b: Seq<char>) -> bool {
    &&& a.len() == b.len()
    &&& forall|i: int| 0 <= i < a.len() ==> #[trigger] fold_code(a[i]) == fold_code(b[i])
}

/// `Some(s)` with `s` equal to `b` ignoring ASCII case.
pub open spec fn opt_eq_ic(a: Option<String>, b: Seq<char>) -> bool {
    match a {
        Some(s) => eq_ic(s@, b),
        None => false,
    }
}

/// The text of an optional string, or the empty text when absent.
pub open spec fn or_empty(a: Option<String>) -> Seq<char> {
    match a {
        Some(s) => s@,
        None => Seq::empty(),
    }
}

/// The text of an optional string, or `dflt` when absent.
pub open spec fn or_text(a: Option<String>, dflt: Seq<char>) -> Seq<char> {
    match a {
        Some(s) => s@,
        None => dflt,
    }
}

/// The views of a sequence of strings.
pub open spec fn views(v: Seq<String>) -> Seq<Seq<char>> {
    v.map_values(|s: String| s@)
}

/// `parts` joined with `sep` between consecutive parts.
pub open spec fn join(parts: Seq<Seq<char>>, sep: Seq<char>) -> Seq<char>
    decreases parts.len(),
{
    if parts.len() == 0 {
        Seq::empty()
    } else if parts.len() == 1 {
        parts[0]
    } else {
        join(parts.drop_last(), sep) + sep + parts.last()
    }
}

/// Strict lexicographic order on character codes (the order of `str`'s `Ord`,
/// since UTF-8 preserves the order of code points).
pub open spec fn text_lt(a: Seq<char>, b: Seq<char>) -> bool
    decreases a.len(),
{
    if b.len() == 0 {
        false
    } else if a.len() == 0 {
        true
    } else if a[0] < b[0] {
        true
    } else if a[0] > b[0] {
        false
    } else {
        text_lt(a.drop_first(), b.drop_first())
    }
}

/// Compares two strings for equality, ignoring ASCII case.
pub fn eq_ignore_ascii_case(a: &str, b: &str) -> (r: bool)
    ensures
        r == eq_ic(a@, b@),
{
    let n = a.unicode_len();
    let m = b.unicode_len();
    if n != m {
        return false;
    }
    let mut i: usize = 0;
    while i < n
        invariant
            n == a@.len(),
            m == b@.len(),
            n == m,
            i <= n,
            forall|j: int| 0 <= j < i ==> #[trigger] fold_code(a@[j]) == fold_code(b@[j]),
        decreases n - i,
    {
        let x = fold_char(a.get_char(i));
        let y = fold_char(b.get_char(i));
        if x != y {
            assert(fold_code(a@[i as int]) != fold_code(b@[i as int]));
            return false;
        }
        i = i + 1;
    }
    true
}

/// The ASCII-folded code of one character.
pub fn fold_char(c: char) -> (r: u32)
    ensures
        r == fold_code(c),
{
    let x = c as u32;
    if 'A' <= c && c <= 'Z' {
        x + 32
    } else {
        x
    }
}

/// Whether the optional string is present and equal to `b` ignoring ASCII case.
pub fn opt_eq_ignore_ascii_case(a: &Option<String>, b: &str) -> (r: bool)
    ensures
        r == opt_eq_ic(*a, b@),
{
    match a {
        Some(s) => eq_ignore_ascii_case(s.as_str(), b),
        None => false,
    }
}

/// The optional string, or the empty string.
pub fn text_or_empty(a: &Option<String>) -> (r: String)
    ensures
        r@ == or_empty(*a),
{
    match a {
        Some(s) => s.clone(),
        None => String::new(),
    }
}

/// The optional string, or `dflt`.
pub fn text_or(a: &Option<String>, dflt: &str) -> (r: String)
    ensures
        r@ == or_text(*a, dflt@),
{
    match a {
        Some(s) => s.clone(),
        None => String::from_str(dflt),
    }
}

/// Joins `parts` with `sep` between consecutive parts.
pub fn join_strings(parts: &Vec<String>, sep: &str) -> (r: String)
    ensures
        r@ == join(views(parts@), sep@),
{
    let mut res = String::new();
    let ghost vs = views(parts@);
    let n = parts.len();
    let mut i: usize = 0;
    while i < n
        invariant
            n == parts@.len(),
            vs == views(parts@),
            i <= n,
            res@ == join(vs.take(i as int), sep@),
        decreases n - i,
    {
        assert(vs.take(i + 1).drop_last() =~= vs.take(i as int));
        if i != 0 {
            res.append(sep);
        }
        res.append(parts[i].as_str());
        i = i + 1;
    }
    assert(vs.take(n as int) =~= vs);
    res
}

/// Whether `a` sorts strictly before `b` in the order of `str`.
pub fn text_less(a: &str, b: &str) -> (r: bool)
    ensures
        r == text_lt(a@, b@),
{
    let n = a.unicode_len();
    let m = b.unicode_len();
    let mut i: usize = 0;
    assert(a@.skip(0) =~= a@);
    assert(b@.skip(0) =~= b@);
    while i < n && i < m
        invariant
            n == a@.len(),
            m == b@.len(),
            i <= n,
            i <= m,
            text_lt(a@, b@) == text_lt(a@.skip(i as int), b@.skip(i as int)),
        decreases n - i,
    {
        let x = a.get_char(i);
        let y = b.get_char(i);
        assert(a@.skip(i as int)[0] == a@[i as int]);
        assert(b@.skip(i as int)[0] == b@[i as int]);
        if x < y {
            return true;
        }
        if x > y {
            return false;
        }
        assert(a@.skip(i as int).drop_first() =~= a@.skip(i + 1));
        assert(b@.skip(i as int).drop_first() =~= b@.skip(i + 1));
        i = i + 1;
    }
    assert(a@.skip(i as int).len() == n - i);
    assert(b@.skip(i as int).len() == m - i);
    i < m
}


/// The digit character for `d` in `0..10`.
pub open spec fn digit_char(d: int) -> char {
    ((48 + d) as u32) as char
}

/// The decimal digits of a natural number, without leading zeros.
pub open spec fn digits(n: nat) -> Seq<char>
    decreases n,
{
    if n < 10 {
        seq![digit_char(n as int)]
    } else {
        digits((n / 10) as nat).push(digit_char((n % 10) as int))
    }
}

/// The decimal text of an integer, with a leading `-` when it is negative.
pub open spec fn decimal_text(k: int) -> Seq<char> {
    if k < 0 {
        seq!['-'] + digits((-k) as nat)
    } else {
        digits(k as nat)
    }
}

/// Formats an integer with `i64::to_string`, whose documented output is the
/// decimal text described by `decimal_text`.
#[verifier::external_body]
pub(crate) fn i64_text(k: i64) -> (r: String)
    ensures
        r@ == decimal_text(k as int),
{
    k.to_string()
}


/// No string sorts before itself.
pub proof fn lemma_text_lt_irreflexive(a: Seq<char>)
    ensures
        !text_lt(a, a),
    decreases a.len(),
{
    if a.len() > 0 {
        lemma_text_lt_irreflexive(a.drop_first());
    }
}

/// If `a` sorts before `b`, then `b` does not sort before `a`.
pub proof fn lemma_text_lt_asymmetric(a: Seq<char>, b: Seq<char>)
    requires
        text_lt(a, b),
    ensures
        !text_lt(b, a),
    decreases a.len(),
{
    if a.len() > 0 && b.len() > 0 && a[0] == b[0] {
        lemma_text_lt_asymmetric(a.drop_first(), b.drop_first());
    }
}

/// The order is transitive.
pub proof fn lemma_text_lt_transitive(a: Seq<char>, b: Seq<char>, c: Seq<char>)
    requires
        text_lt(a, b),
        text_lt(b, c),
    ensures
        text_lt(a, c),
    decreases a.len(),
{
    if a.len() > 0 && b.len() > 0 && c.len() > 0 && a[0] == b[0] && b[0] == c[0] {
        lemma_text_lt_transitive(a.drop_first(), b.drop_first(), c.drop_first());
    }
}

/// Of two different strings, one sorts before the other.
pub proof fn lemma_text_lt_total(a: Seq<char>, b: Seq<char>)
    requires
        a != b,
    ensures
        text_lt(a, b) || text_lt(b, a),
    decreases a.len(),
{
    if a.len() == 0 {
        if b.len() == 0 {
            assert(a =~= b);
        }
    } else if b.len() == 0 {
    } else if a[0] == b[0] {
        if a.drop_first() == b.drop_first() {
            assert(a.drop_first().len() == b.drop_first().len());
            assert(b.len() == a.len());
            assert(a =~= b) by {
                assert forall|i: int| 0 <= i < a.len() implies a[i] == b[i] by {
                    if i > 0 {
                        assert(a[i] == a.drop_first()[i - 1]);
                        assert(b[i] == b.drop_first()[i - 1]);
                    }
                }
            }
        } else {
            lemma_text_lt_total(a.drop_first(), b.drop_first());
        }
    }
}


/// Whether two strings are equal.
pub fn text_equal(a: &str, b: &str) -> (r: bool)
    ensures
        r == (a@ == b@),
{
    let n = a.unicode_len();
    let m = b.unicode_len();
    if n != m {
        return false;
    }
    let mut i: usize = 0;
    while i < n
        invariant
            n == a@.len(),
            m == b@.len(),
            n == m,
            i <= n,
            forall|j: int| 0 <= j < i ==> a@[j] == b@[j],
        decreases n - i,
    {
        if a.get_char(i) != b.get_char(i) {
            return false;
        }
        i = i + 1;
    }
    assert(a@ =~= b@);
    true
}

/// The Unicode lowercase of a text, as `str::to_lowercase` computes it.
pub uninterp spec fn lowercase_text(s: Seq<char>) -> Seq<char>;

/// A text made of ASCII characters only.
pub open spec fn ascii_text(s: Seq<char>) -> bool {
    forall|i: int| 0 <= i < s.len() ==> (#[trigger] s[i] as u32) < 128
}

/// Calls `str::to_lowercase`. Its result is named `lowercase_text`; for ASCII text
/// it is the ASCII lowercase (letters `A`..`Z` become `a`..`z`, the rest stays).
#[verifier::external_body]
pub(crate) fn to_lowercase(s: &str) -> (r: String)
    ensures
        r@ == lowercase_text(s@),
        ascii_text(s@) ==> r@.len() == s@.len() && forall|i: int|
            0 <= i < s@.len() ==> (#[trigger] r@[i] as u32) == fold_code(s@[i]),
{
    s.to_lowercase()
}


/// A decimal digit.
pub open spec fn is_digit(c: char) -> bool {
    '0' <= c && c <= '9'
}

/// The value of a string of decimal digits.
pub open spec fn digits_value(s: Seq<char>) -> int
    decreases s.len(),
{
    if s.len() == 0 {
        0
    } else {
        digits_value(s.drop_last()) * 10 + (s.last() as int - 48)
    }
}

/// One or more decimal digits and nothing else.
pub open spec fn all_digits(s: Seq<char>) -> bool {
    s.len() > 0 && forall|i: int| 0 <= i < s.len() ==> is_digit(#[trigger] s[i])
}

/// The integer a text spells: an optional `+` or `-` followed by decimal digits.
pub open spec fn integer_value(s: Seq<char>) -> Option<int> {
    if s.len() > 0 && s[0] == '-' && all_digits(s.skip(1)) {
        Some(-digits_value(s.skip(1)))
    } else if s.len() > 0 && s[0] == '+' && all_digits(s.skip(1)) {
        Some(digits_value(s.skip(1)))
    } else if all_digits(s) {
        Some(digits_value(s))
    } else {
        None
    }
}

/// Parses an `i64` with `str::parse`, which accepts an optional sign followed by
/// decimal digits whose value fits in `i64`, and nothing else.
#[verifier::external_body]
pub(crate) fn parse_i64(s: &str) -> (r: Option<i64>)
    ensures
        r is Some <==> (integer_value(s@) matches Some(x) && i64::MIN <= x <= i64::MAX),
        r matches Some(v) ==> integer_value(s@) == Some(v as int),
{
    s.parse::<i64>().ok()
}


/// Law: comparing without regard to ASCII case is an equivalence.
pub proof fn law_eq_ic_is_equivalence(a: Seq<char>, b: Seq<char>, c: Seq<char>)
    ensures
        eq_ic(a, a),
        eq_ic(a, b) ==> eq_ic(b, a),
        eq_ic(a, b) && eq_ic(b, c) ==> eq_ic(a, c),
{
}

} // verus!
