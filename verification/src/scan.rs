//! Character-level scanning primitives for the line grammar: prefix and
//! substring tests, digit and whitespace runs, and decimal-number reading,
//! each with a spec-level counterpart.

use vstd::prelude::*;
use vstd::string::StrSliceExecFns;

verus! {

/// Whitespace as the line grammar understands it: the six ASCII blanks.
pub open spec fn is_ws(c: char) -> bool {
    c == ' ' || c == '\t' || c == '\n' || c == '\r' || c == '\u{b}' || c == '\u{c}'
}

/// Decimal digit.
pub open spec fn is_digit(c: char) -> bool {
    48 <= c as u32 && c as u32 <= 57
}

/// Numeric value of a decimal digit.
pub open spec fn digit_val(c: char) -> nat {
    (c as u32 - 48) as nat
}

/// Value of a string of decimal digits, most significant digit first.
pub open spec fn digits_value(s: Seq<char>) -> nat
    decreases s.len(),
{
    if s.len() == 0 {
        0
    } else {
        digits_value(s.drop_last()) * 10 + digit_val(s.last())
    }
}

/// `p` occurs in `s` starting at position `i`.
pub open spec fn occurs_at(s: Seq<char>, p: Seq<char>, i: int) -> bool {
    0 <= i && i + p.len() <= s.len() && s.subrange(i, i + p.len()) == p
}

pub open spec fn has_prefix(s: Seq<char>, p: Seq<char>) -> bool {
    occurs_at(s, p, 0)
}

pub open spec fn has_suffix(s: Seq<char>, p: Seq<char>) -> bool {
    occurs_at(s, p, s.len() - p.len())
}

/// Position of the first occurrence of `p` in `s` at or after `from`.
pub open spec fn first_occurrence(s: Seq<char>, p: Seq<char>, from: int) -> Option<int>
    decreases s.len() - from,
{
    if p.len() == 0 {
        if 0 <= from <= s.len() {
            Some(from)
        } else {
            None
        }
    } else if from < 0 || from + p.len() > s.len() {
        None
    } else if occurs_at(s, p, from) {
        Some(from)
    } else {
        first_occurrence(s, p, from + 1)
    }
}

/// End of the run of decimal digits starting at `from`.
pub open spec fn digit_run_end(s: Seq<char>, from: int) -> int
    decreases s.len() - from,
{
    if from < 0 || from >= s.len() {
        from
    } else if is_digit(s[from]) {
        digit_run_end(s, from + 1)
    } else {
        from
    }
}

/// Start of the run of grammar whitespace that ends just before `upto`.
/// With `upto == s.len()` this is the length of `s` once a trailing
/// whitespace run is stripped.
pub open spec fn ws_run_start(s: Seq<char>, upto: int) -> int
    decreases upto,
{
    if 0 < upto <= s.len() && is_ws(s[upto - 1]) {
        ws_run_start(s, upto - 1)
    } else {
        upto
    }
}

/// Start of the run of decimal digits that ends just before `upto`.
pub open spec fn digit_run_start(s: Seq<char>, upto: int) -> int
    decreases upto,
{
    if 0 < upto <= s.len() && is_digit(s[upto - 1]) {
        digit_run_start(s, upto - 1)
    } else {
        upto
    }
}

pub proof fn lemma_digit_run_end(s: Seq<char>, from: int)
    requires
        0 <= from <= s.len(),
    ensures
        from <= digit_run_end(s, from) <= s.len(),
        forall|k: int| from <= k < digit_run_end(s, from) ==> is_digit(s[k]),
        digit_run_end(s, from) < s.len() ==> !is_digit(s[digit_run_end(s, from)]),
    decreases s.len() - from,
{
    if from < s.len() && is_digit(s[from]) {
        lemma_digit_run_end(s, from + 1);
    }
}

pub proof fn lemma_ws_run_start(s: Seq<char>, upto: int)
    requires
        0 <= upto <= s.len(),
    ensures
        0 <= ws_run_start(s, upto) <= upto,
        forall|k: int| ws_run_start(s, upto) <= k < upto ==> is_ws(s[k]),
        ws_run_start(s, upto) > 0 ==> !is_ws(s[ws_run_start(s, upto) - 1]),
    decreases upto,
{
    if 0 < upto && is_ws(s[upto - 1]) {
        lemma_ws_run_start(s, upto - 1);
    }
}

pub proof fn lemma_digit_run_start(s: Seq<char>, upto: int)
    requires
        0 <= upto <= s.len(),
    ensures
        0 <= digit_run_start(s, upto) <= upto,
        forall|k: int| digit_run_start(s, upto) <= k < upto ==> is_digit(s[k]),
        digit_run_start(s, upto) > 0 ==> !is_digit(s[digit_run_start(s, upto) - 1]),
    decreases upto,
{
    if 0 < upto && is_digit(s[upto - 1]) {
        lemma_digit_run_start(s, upto - 1);
    }
}

pub proof fn lemma_first_occurrence_some(s: Seq<char>, p: Seq<char>, from: int, i: int)
    requires
        0 <= from <= i,
        occurs_at(s, p, i),
        forall|k: int| from <= k < i ==> !occurs_at(s, p, k),
    ensures
        first_occurrence(s, p, from) == Some(i),
    decreases i - from,
{
    if p.len() == 0 {
        assert(s.subrange(i, i) =~= p);
        if from < i {
            assert(s.subrange(from, from) =~= p);
            assert(occurs_at(s, p, from));
        }
    } else if from < i {
        lemma_first_occurrence_some(s, p, from + 1, i);
    }
}

pub proof fn lemma_first_occurrence_none(s: Seq<char>, p: Seq<char>, from: int)
    requires
        0 <= from,
        forall|k: int| from <= k ==> !occurs_at(s, p, k),
    ensures
        first_occurrence(s, p, from) is None,
    decreases s.len() - from,
{
    if p.len() == 0 {
        if from <= s.len() {
            assert(s.subrange(from, from) =~= p);
            assert(occurs_at(s, p, from));
        }
    } else if from + p.len() <= s.len() {
        lemma_first_occurrence_none(s, p, from + 1);
    }
}

/// What a `first_occurrence` result means: a hit is the leftmost one, a
/// miss rules every position out.
pub proof fn lemma_first_occurrence_props(s: Seq<char>, p: Seq<char>, from: int)
    requires
        0 <= from,
    ensures
        match first_occurrence(s, p, from) {
            Some(i) => from <= i && occurs_at(s, p, i) && (forall|k: int|
                from <= k < i ==> !occurs_at(s, p, k)),
            None => forall|k: int| from <= k ==> !occurs_at(s, p, k),
        },
    decreases s.len() - from,
{
    if p.len() == 0 {
        if from <= s.len() {
            assert(s.subrange(from, from) =~= p);
        }
    } else if from + p.len() > s.len() {
        assert forall|k: int| from <= k implies !occurs_at(s, p, k) by {
            assert(k + p.len() > s.len());
        }
    } else if !occurs_at(s, p, from) {
        lemma_first_occurrence_props(s, p, from + 1);
    }
}

/// Decimal value of a digit-string prefix never exceeds that of the whole.
pub proof fn lemma_digits_value_prefix(s: Seq<char>, i: int)
    requires
        0 <= i <= s.len(),
    ensures
        digits_value(s.take(i)) <= digits_value(s),
    decreases s.len(),
{
    if i == s.len() {
        assert(s.take(i) =~= s);
    } else {
        lemma_digits_value_prefix(s.drop_last(), i);
        assert(s.drop_last().take(i) =~= s.take(i));
        assert(digits_value(s) >= digits_value(s.drop_last()));
    }
}

pub fn digit_char(c: char) -> (r: bool)
    ensures
        r == is_digit(c),
{
    let u = c as u32;
    48 <= u && u <= 57
}

pub fn ws_char(c: char) -> (r: bool)
    ensures
        r == is_ws(c),
{
    c == ' ' || c == '\t' || c == '\n' || c == '\r' || c == '\u{b}' || c == '\u{c}'
}

/// `p` occurs in `s` at position `i`.
pub fn occurs_check(s: &str, p: &str, i: usize) -> (r: bool)
    requires
        i + p@.len() <= s@.len(),
    ensures
        r == occurs_at(s@, p@, i as int),
{
    let n = s.unicode_len();
    let m = p.unicode_len();
    let mut j: usize = 0;
    while j < m
        invariant
            j <= m,
            m == p@.len(),
            n == s@.len(),
            i + m <= n,
            forall|k: int| 0 <= k < j ==> s@[i + k] == p@[k],
        decreases m - j,
    {
        if s.get_char(i + j) != p.get_char(j) {
            proof {
                if occurs_at(s@, p@, i as int) {
                    assert(s@.subrange(i as int, i + p@.len())[j as int] == s@[i + j]);
                }
            }
            return false;
        }
        j += 1;
    }
    proof {
        assert(s@.subrange(i as int, i + p@.len()) =~= p@);
    }
    true
}

pub fn str_starts_with(s: &str, p: &str) -> (r: bool)
    ensures
        r == has_prefix(s@, p@),
{
    let n = s.unicode_len();
    let m = p.unicode_len();
    if m > n {
        false
    } else {
        occurs_check(s, p, 0)
    }
}

pub fn str_ends_with(s: &str, p: &str) -> (r: bool)
    ensures
        r == has_suffix(s@, p@),
{
    let n = s.unicode_len();
    let m = p.unicode_len();
    if m > n {
        false
    } else {
        occurs_check(s, p, n - m)
    }
}

/// The two strings hold the same characters.
pub fn str_eq(s: &str, p: &str) -> (r: bool)
    ensures
        r == (s@ == p@),
{
    let n = s.unicode_len();
    let m = p.unicode_len();
    if m != n {
        proof {
            assert(s@ != p@);
        }
        false
    } else {
        let r = occurs_check(s, p, 0);
        proof {
            assert(s@.subrange(0, s@.len() as int) =~= s@);
        }
        r
    }
}

/// First occurrence of `p` in `s` at or after `from`.
pub fn find_from(s: &str, p: &str, from: usize) -> (r: Option<usize>)
    ensures
        match r {
            Some(i) => first_occurrence(s@, p@, from as int) == Some(i as int),
            None => first_occurrence(s@, p@, from as int) is None,
        },
{
    let n = s.unicode_len();
    let m = p.unicode_len();
    if m > n {
        proof {
            assert forall|k: int| from <= k implies !occurs_at(s@, p@, k) by {
                assert(k + p@.len() > s@.len());
            }
            lemma_first_occurrence_none(s@, p@, from as int);
        }
        return None;
    }
    if m == 0 {
        if from <= n {
            return Some(from);
        } else {
            return None;
        }
    }
    let mut i: usize = from;
    while i <= n - m
        invariant
            from <= i,
            0 < m <= n,
            n == s@.len(),
            m == p@.len(),
            forall|k: int| from <= k < i ==> !occurs_at(s@, p@, k),
        decreases n - i,
    {
        if occurs_check(s, p, i) {
            proof {
                lemma_first_occurrence_some(s@, p@, from as int, i as int);
            }
            return Some(i);
        }
        i += 1;
    }
    proof {
        assert forall|k: int| from <= k implies !occurs_at(s@, p@, k) by {
            if k < i {
            } else {
                assert(k + p@.len() > s@.len());
            }
        }
        lemma_first_occurrence_none(s@, p@, from as int);
    }
    None
}

/// End of the digit run starting at `from`.
pub fn scan_digits_from(s: &str, from: usize) -> (r: usize)
    requires
        from <= s@.len(),
    ensures
        r == digit_run_end(s@, from as int),
{
    let n = s.unicode_len();
    let mut i: usize = from;
    while i < n
        invariant
            from <= i <= n,
            n == s@.len(),
            digit_run_end(s@, from as int) == digit_run_end(s@, i as int),
        decreases n - i,
    {
        if !digit_char(s.get_char(i)) {
            return i;
        }
        i += 1;
    }
    i
}

/// Start of the whitespace run that ends just before `upto`.
pub fn scan_ws_back(s: &str, upto: usize) -> (r: usize)
    requires
        upto <= s@.len(),
    ensures
        r == ws_run_start(s@, upto as int),
{
    let mut j: usize = upto;
    while j > 0
        invariant
            j <= upto <= s@.len(),
            ws_run_start(s@, upto as int) == ws_run_start(s@, j as int),
        decreases j,
    {
        if !ws_char(s.get_char(j - 1)) {
            return j;
        }
        j -= 1;
    }
    j
}

/// Start of the digit run that ends just before `upto`.
pub fn scan_digits_back(s: &str, upto: usize) -> (r: usize)
    requires
        upto <= s@.len(),
    ensures
        r == digit_run_start(s@, upto as int),
{
    let mut j: usize = upto;
    while j > 0
        invariant
            j <= upto <= s@.len(),
            digit_run_start(s@, upto as int) == digit_run_start(s@, j as int),
        decreases j,
    {
        if !digit_char(s.get_char(j - 1)) {
            return j;
        }
        j -= 1;
    }
    j
}

/// Value of the digit string `s[from..to]`, where it fits in `usize`.
pub fn parse_digits(s: &str, from: usize, to: usize) -> (r: Option<usize>)
    requires
        from <= to <= s@.len(),
        forall|k: int| from <= k < to ==> is_digit(s@[k]),
    ensures
        match r {
            Some(v) => v == digits_value(s@.subrange(from as int, to as int)),
            None => digits_value(s@.subrange(from as int, to as int)) > usize::MAX,
        },
{
    let mut acc: usize = 0;
    let mut i: usize = from;
    while i < to
        invariant
            from <= i <= to <= s@.len(),
            forall|k: int| from <= k < to ==> is_digit(s@[k]),
            acc == digits_value(s@.subrange(from as int, i as int)),
        decreases to - i,
    {
        let c = s.get_char(i);
        assert(is_digit(s@[i as int]));
        let d = (c as u32 - 48) as usize;
        proof {
            assert(s@.subrange(from as int, i + 1).drop_last() =~= s@.subrange(
                from as int,
                i as int,
            ));
            assert(s@.subrange(from as int, i + 1).last() == s@[i as int]);
        }
        if acc > (usize::MAX - d) / 10 {
            proof {
                assert(acc * 10 + d > usize::MAX) by (nonlinear_arith)
                    requires
                        acc > (usize::MAX - d) / 10,
                        d <= usize::MAX,
                ;
                assert(digits_value(s@.subrange(from as int, i + 1)) > usize::MAX);
                assert(s@.subrange(from as int, to as int).take(i + 1 - from) =~= s@.subrange(
                    from as int,
                    i + 1,
                ));
                lemma_digits_value_prefix(s@.subrange(from as int, to as int), i + 1 - from);
            }
            return None;
        }
        proof {
            assert(acc * 10 + d <= usize::MAX) by (nonlinear_arith)
                requires
                    acc <= (usize::MAX - d) / 10,
                    d <= usize::MAX,
            ;
        }
        acc = acc * 10 + d;
        i += 1;
    }
    proof {
        assert(s@.subrange(from as int, i as int) =~= s@.subrange(from as int, to as int));
    }
    Some(acc)
}

/// Copy of the character range `[from, to)` of `s`.
pub fn substr_copy(s: &str, from: usize, to: usize) -> (r: String)
    requires
        from <= to <= s@.len(),
    ensures
        r@ == s@.subrange(from as int, to as int),
{
    s.substring_char(from, to).to_owned()
}

} // verus!
