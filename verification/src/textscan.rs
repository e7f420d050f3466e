use vstd::prelude::*;
use crate::text::chars_of;

verus! {

/// Unicode `White_Space`, which `char::is_whitespace` and `str::trim` use.
pub open spec fn is_ws(c: char) -> bool {
    ('\u{9}' <= c && c <= '\u{d}') || c == ' ' || c == '\u{85}' || c == '\u{a0}' || c == '\u{1680}' || ('\u{2000}'
        <= c && c <= '\u{200a}') || c == '\u{2028}' || c == '\u{2029}' || c == '\u{202f}' || c == '\u{205f}' || c
        == '\u{3000}'
}

/// Whether a char is white space.
pub fn is_ws_exec(c: char) -> (r: bool)
    ensures
        r == is_ws(c),
{
    ('\u{9}' <= c && c <= '\u{d}') || c == ' ' || c == '\u{85}' || c == '\u{a0}' || c == '\u{1680}' || ('\u{2000}'
        <= c && c <= '\u{200a}') || c == '\u{2028}' || c == '\u{2029}' || c == '\u{202f}' || c == '\u{205f}' || c
        == '\u{3000}'
}

/// The first position at or after `i` that is not white space (or the end).
pub open spec fn ws_run(s: Seq<char>, i: int) -> int
    decreases s.len() - i,
{
    if 0 <= i < s.len() && is_ws(s[i]) {
        ws_run(s, i + 1)
    } else {
        i
    }
}

/// The end of `s` once the white space before `j` (down to `lo`) is dropped.
pub open spec fn ws_run_back(s: Seq<char>, j: int, lo: int) -> int
    decreases j - lo,
{
    if lo < j && j <= s.len() && is_ws(s[j - 1]) {
        ws_run_back(s, j - 1, lo)
    } else {
        j
    }
}

/// `s` without leading and trailing white space (`str::trim`).
pub open spec fn trim(s: Seq<char>) -> Seq<char> {
    let a = ws_run(s, 0);
    s.subrange(a, ws_run_back(s, s.len() as int, a))
}

/// Lemma: the runs stay within bounds.
pub proof fn lemma_ws_bounds(s: Seq<char>, i: int, j: int, lo: int)
    requires
        0 <= i <= s.len(),
        0 <= lo <= j <= s.len(),
    ensures
        i <= ws_run(s, i) <= s.len(),
        lo <= ws_run_back(s, j, lo) <= j,
    decreases s.len() - i + j - lo,
{
    if i < s.len() && is_ws(s[i]) {
        lemma_ws_bounds(s, i + 1, j, lo);
    }
    if lo < j && is_ws(s[j - 1]) {
        lemma_ws_bounds(s, i, j - 1, lo);
    }
}

/// The bounds of `s[lo..hi]` once trimmed.
pub fn trim_bounds(s: &Vec<char>, lo: usize, hi: usize) -> (r: (usize, usize))
    requires
        lo <= hi <= s@.len(),
    ensures
        r.0 <= r.1 <= hi,
        lo <= r.0,
        s@.subrange(r.0 as int, r.1 as int) == trim(s@.subrange(lo as int, hi as int)),
{
    let ghost t = s@.subrange(lo as int, hi as int);
    let mut a = lo;
    while a < hi && is_ws_exec(s[a])
        invariant
            lo <= a <= hi <= s@.len(),
            t == s@.subrange(lo as int, hi as int),
            ws_run(t, a - lo) == ws_run(t, 0),
        decreases hi - a,
    {
        a = a + 1;
    }
    let mut b = hi;
    while b > a && is_ws_exec(s[b - 1])
        invariant
            lo <= a <= b <= hi <= s@.len(),
            t == s@.subrange(lo as int, hi as int),
            ws_run(t, 0) == a - lo,
            ws_run_back(t, b - lo, a - lo) == ws_run_back(t, t.len() as int, a - lo),
        decreases b - a,
    {
        b = b - 1;
    }
    assert(s@.subrange(a as int, b as int) =~= t.subrange(a - lo, b - lo));
    (a, b)
}

/// The first `'\n'` at or after `i` (or the end).
pub open spec fn line_end(s: Seq<char>, i: int) -> int
    decreases s.len() - i,
{
    if 0 <= i < s.len() && s[i] != '\n' {
        line_end(s, i + 1)
    } else {
        i
    }
}

/// The line that starts at `i` and ends at `j`: a `'\r'` before the
/// `'\n'` that ends it is dropped.
pub open spec fn line_at(s: Seq<char>, i: int, j: int) -> Seq<char> {
    if j < s.len() && j > i && s[j - 1] == '\r' {
        s.subrange(i, j - 1)
    } else {
        s.subrange(i, j)
    }
}

/// The lines of a text from position `i` on (`str::lines`): split at each
/// `'\n'`, one `'\r'` before it dropped, no empty line after a final
/// `'\n'`.
pub open spec fn lines_from(s: Seq<char>, i: int) -> Seq<Seq<char>>
    decreases s.len() - i,
{
    if i < 0 || i >= s.len() {
        Seq::empty()
    } else {
        let j = line_end(s, i);
        if j < i {
            Seq::empty()
        } else if j >= s.len() {
            seq![line_at(s, i, j)]
        } else {
            seq![line_at(s, i, j)] + lines_from(s, j + 1)
        }
    }
}

/// Lemma: a line ends within the text.
pub proof fn lemma_line_end_bounds(s: Seq<char>, i: int)
    requires
        0 <= i <= s.len(),
    ensures
        i <= line_end(s, i) <= s.len(),
        line_end(s, i) < s.len() ==> s[line_end(s, i)] == '\n',
    decreases s.len() - i,
{
    if i < s.len() && s[i] != '\n' {
        lemma_line_end_bounds(s, i + 1);
    }
}

/// The lines of a text, as char vectors.
pub fn split_lines(s: &Vec<char>) -> (r: Vec<Vec<char>>)
    ensures
        r@.map_values(|l: Vec<char>| l@) == lines_from(s@, 0),
{
    let mut out: Vec<Vec<char>> = Vec::new();
    let mut i: usize = 0;
    while i < s.len()
        invariant
            i <= s@.len(),
            out@.map_values(|l: Vec<char>| l@) + lines_from(s@, i as int) == lines_from(s@, 0),
        decreases s@.len() - i,
    {
        let mut j = i;
        while j < s.len() && s[j] != '\n'
            invariant
                i <= j <= s@.len(),
                line_end(s@, j as int) == line_end(s@, i as int),
            decreases s@.len() - j,
        {
            j = j + 1;
        }
        let end = if j < s.len() && j > i && s[j - 1] == '\r' {
            j - 1
        } else {
            j
        };
        let mut line: Vec<char> = Vec::new();
        let mut k = i;
        while k < end
            invariant
                i <= k <= end <= s@.len(),
                line@ == s@.subrange(i as int, k as int),
            decreases end - k,
        {
            line.push(s[k]);
            k = k + 1;
            assert(line@ =~= s@.subrange(i as int, k as int));
        }
        proof {
            assert(line@ == line_at(s@, i as int, j as int));
            let prev = out@.map_values(|l: Vec<char>| l@);
        }
        let ghost prev = out@.map_values(|l: Vec<char>| l@);
        out.push(line);
        assert(out@.map_values(|l: Vec<char>| l@) =~= prev.push(line_at(s@, i as int, j as int)));
        if j >= s.len() {
            assert(lines_from(s@, j as int) =~= Seq::<Seq<char>>::empty());
            assert(out@.map_values(|l: Vec<char>| l@) + lines_from(s@, j as int) =~= prev + lines_from(s@, i as int));
            i = j;
        } else {
            assert(out@.map_values(|l: Vec<char>| l@) + lines_from(s@, j + 1) =~= prev + lines_from(s@, i as int));
            i = j + 1;
        }
    }
    assert(lines_from(s@, i as int) =~= Seq::<Seq<char>>::empty());
    assert(out@.map_values(|l: Vec<char>| l@) =~= lines_from(s@, 0));
    out
}

/// Whether `s` starts with `p`.
pub open spec fn starts_with(s: Seq<char>, p: Seq<char>) -> bool {
    s.len() >= p.len() && s.subrange(0, p.len() as int) == p
}

/// Whether `s` ends with `p`.
pub open spec fn ends_with(s: Seq<char>, p: Seq<char>) -> bool {
    s.len() >= p.len() && s.subrange(s.len() - p.len(), s.len() as int) == p
}

/// Whether `p` occurs in `s` at position `i`.
pub open spec fn occurs_at(s: Seq<char>, p: Seq<char>, i: int) -> bool {
    0 <= i && i + p.len() <= s.len() && s.subrange(i, i + p.len()) == p
}

/// Whether `s[i..]` begins with `p`.
pub fn matches_at(s: &Vec<char>, p: &Vec<char>, i: usize) -> (r: bool)
    ensures
        r == occurs_at(s@, p@, i as int),
{
    if i > s.len() || s.len() - i < p.len() {
        return false;
    }
    let mut k: usize = 0;
    while k < p.len()
        invariant
            k <= p@.len(),
            i <= s@.len(),
            i + p@.len() <= s@.len(),
            forall|t: int| 0 <= t < k ==> s@[i + t] == p@[t],
        decreases p@.len() - k,
    {
        assert(i + k < s.len());
        if s[i + k] != p[k] {
            assert(s@.subrange(i as int, i + p@.len())[k as int] != p@[k as int]);
            return false;
        }
        k = k + 1;
    }
    assert(s@.subrange(i as int, i + p@.len()) =~= p@);
    true
}

/// Whether a char vector starts with a literal.
pub fn starts_with_lit(s: &Vec<char>, p: &str) -> (r: bool)
    ensures
        r == starts_with(s@, p@),
{
    let pc = chars_of(p);
    matches_at(s, &pc, 0)
}

/// Whether a char vector ends with a literal.
pub fn ends_with_lit(s: &Vec<char>, p: &str) -> (r: bool)
    ensures
        r == ends_with(s@, p@),
{
    let pc = chars_of(p);
    if s.len() < pc.len() {
        return false;
    }
    matches_at(s, &pc, s.len() - pc.len())
}

/// The first position where `p` occurs in `s` at or after `i`, if any.
pub open spec fn find_from(s: Seq<char>, p: Seq<char>, i: int) -> Option<int>
    decreases s.len() - i,
{
    if i < 0 || i + p.len() > s.len() {
        None
    } else if occurs_at(s, p, i) {
        Some(i)
    } else if i >= s.len() {
        None
    } else {
        find_from(s, p, i + 1)
    }
}

/// Finds the first occurrence of `p` in `s` at or after `i`.
pub fn find_exec(s: &Vec<char>, p: &Vec<char>, i: usize) -> (r: Option<usize>)
    ensures
        match r {
            Some(k) => find_from(s@, p@, i as int) == Some(k as int),
            None => find_from(s@, p@, i as int) is None,
        },
{
    let mut k = i;
    while k <= s.len() && s.len() - k >= p.len()
        invariant
            i <= k,
            find_from(s@, p@, k as int) == find_from(s@, p@, i as int),
        decreases s@.len() + 1 - k,
    {
        if matches_at(s, p, k) {
            return Some(k);
        }
        if k == s.len() {
            return None;
        }
        k = k + 1;
    }
    None
}

/// The chars of `s[lo..hi]` as a new vector.
pub fn slice_chars(s: &Vec<char>, lo: usize, hi: usize) -> (r: Vec<char>)
    requires
        lo <= hi <= s@.len(),
    ensures
        r@ == s@.subrange(lo as int, hi as int),
{
    let mut out: Vec<char> = Vec::new();
    let mut k = lo;
    while k < hi
        invariant
            lo <= k <= hi <= s@.len(),
            out@ == s@.subrange(lo as int, k as int),
        decreases hi - k,
    {
        out.push(s[k]);
        k = k + 1;
        assert(out@ =~= s@.subrange(lo as int, k as int));
    }
    out
}

/// Whether a char is an ASCII decimal digit.
pub open spec fn is_digit(c: char) -> bool {
    '0' <= c && c <= '9'
}

/// The value of a decimal digit.
pub open spec fn digit_value(c: char) -> int {
    c as int - '0' as int
}

/// Why a text is not a `u32` (`IntErrorKind`).
#[derive(Debug, Clone, Copy, PartialEq, Eq, Structural)]
pub enum IntError {
    Empty,
    InvalidDigit,
    PosOverflow,
}

/// The digits of `s` from `i` on, read after the value `acc`: the first
/// non-digit, or the first prefix too large for a `u32`, fails.
pub open spec fn digits_from(s: Seq<char>, i: int, acc: int) -> Result<u32, IntError>
    decreases s.len() - i,
{
    if i < 0 || i >= s.len() {
        Ok(acc as u32)
    } else if !is_digit(s[i]) {
        Err(IntError::InvalidDigit)
    } else if acc * 10 + digit_value(s[i]) > u32::MAX {
        Err(IntError::PosOverflow)
    } else {
        digits_from(s, i + 1, acc * 10 + digit_value(s[i]))
    }
}

/// A text read as a `u32` (`u32::from_str`): an optional `'+'`, then
/// decimal digits.
pub open spec fn parse_u32(s: Seq<char>) -> Result<u32, IntError> {
    if s.len() == 0 {
        Err(IntError::Empty)
    } else if s.len() == 1 && (s[0] == '+' || s[0] == '-') {
        Err(IntError::InvalidDigit)
    } else if s[0] == '+' {
        digits_from(s, 1, 0)
    } else {
        digits_from(s, 0, 0)
    }
}

/// The message std gives for each kind of integer error.
pub open spec fn int_error_text(e: IntError) -> Seq<char> {
    match e {
        IntError::Empty => "cannot parse integer from empty string"@,
        IntError::InvalidDigit => "invalid digit found in string"@,
        IntError::PosOverflow => "number too large to fit in target type"@,
    }
}

/// Reads `s[lo..hi]` as a `u32`.
pub fn parse_u32_exec(s: &Vec<char>, lo: usize, hi: usize) -> (r: Result<u32, IntError>)
    requires
        lo <= hi <= s@.len(),
    ensures
        r == parse_u32(s@.subrange(lo as int, hi as int)),
{
    let ghost t = s@.subrange(lo as int, hi as int);
    if lo == hi {
        return Err(IntError::Empty);
    }
    if hi - lo == 1 && (s[lo] == '+' || s[lo] == '-') {
        return Err(IntError::InvalidDigit);
    }
    let mut i = if s[lo] == '+' {
        lo + 1
    } else {
        lo
    };
    let mut acc: u32 = 0;
    while i < hi
        invariant
            lo <= i <= hi <= s@.len(),
            t == s@.subrange(lo as int, hi as int),
            digits_from(t, i - lo, acc as int) == parse_u32(t),
        decreases hi - i,
    {
        let c = s[i];
        if !('0' <= c && c <= '9') {
            return Err(IntError::InvalidDigit);
        }
        let d: u32 = (c as u32) - ('0' as u32);
        if acc > 429496729 || (acc == 429496729 && d > 5) {
            return Err(IntError::PosOverflow);
        }
        acc = acc * 10 + d;
        i = i + 1;
    }
    Ok(acc)
}

/// The message of an integer error.
pub fn int_error_message(e: IntError) -> (r: &'static str)
    ensures
        r@ == int_error_text(e),
{
    match e {
        IntError::Empty => "cannot parse integer from empty string",
        IntError::InvalidDigit => "invalid digit found in string",
        IntError::PosOverflow => "number too large to fit in target type",
    }
}

/// The first position at or after `i` that is not a decimal digit.
pub open spec fn digit_run(s: Seq<char>, i: int) -> int
    decreases s.len() - i,
{
    if 0 <= i < s.len() && is_digit(s[i]) {
        digit_run(s, i + 1)
    } else {
        i
    }
}

/// Whether `s` is `'e'` or `'E'`, an optional sign, and one or more
/// digits.
pub open spec fn is_exponent(s: Seq<char>) -> bool {
    s.len() >= 2 && (s[0] == 'e' || s[0] == 'E') && {
        let k = if s[1] == '+' || s[1] == '-' {
            2int
        } else {
            1int
        };
        k < s.len() && digit_run(s, k) == s.len()
    }
}

/// Whether `s` is a decimal number: digits with an optional fraction (at
/// least one digit on either side of the point), then an optional
/// exponent.
pub open spec fn is_number(s: Seq<char>) -> bool {
    let a = digit_run(s, 0);
    if a < s.len() && s[a] == '.' {
        let b = digit_run(s, a + 1);
        (a > 0 || b > a + 1) && (b == s.len() || is_exponent(s.subrange(b, s.len() as int)))
    } else {
        a > 0 && (a == s.len() || is_exponent(s.subrange(a, s.len() as int)))
    }
}

/// Whether `s` is `inf`, `infinity` or `nan`, in any case.
pub open spec fn is_special_float(s: Seq<char>) -> bool {
    let l = s.map_values(|c: char| crate::text::ascii_lower_char(c));
    l == "inf"@ || l == "infinity"@ || l == "nan"@
}

/// Whether `s` is accepted by `f64::from_str`: an optional sign, then a
/// decimal number or `inf`, `infinity`, `nan` in any case.
pub open spec fn is_float_literal(s: Seq<char>) -> bool {
    let body = if s.len() > 0 && (s[0] == '+' || s[0] == '-') {
        s.subrange(1, s.len() as int)
    } else {
        s
    };
    is_special_float(body) || is_number(body)
}

/// The message std gives when a text is not a float.
pub open spec fn float_error_text(s: Seq<char>) -> Seq<char> {
    if s.len() == 0 {
        "cannot parse float from empty string"@
    } else {
        "invalid float literal"@
    }
}

/// The first position at or after `i` that is not a digit.
pub fn digit_run_exec(s: &Vec<char>, i: usize) -> (r: usize)
    requires
        i <= s@.len(),
    ensures
        r as int == digit_run(s@, i as int),
        i <= r <= s@.len(),
{
    let mut k = i;
    while k < s.len() && '0' <= s[k] && s[k] <= '9'
        invariant
            i <= k <= s@.len(),
            digit_run(s@, k as int) == digit_run(s@, i as int),
        decreases s@.len() - k,
    {
        k = k + 1;
    }
    k
}

/// Whether a char vector is an exponent part.
pub fn is_exponent_exec(s: &Vec<char>) -> (r: bool)
    ensures
        r == is_exponent(s@),
{
    if s.len() < 2 || !(s[0] == 'e' || s[0] == 'E') {
        return false;
    }
    let k: usize = if s[1] == '+' || s[1] == '-' {
        2
    } else {
        1
    };
    k < s.len() && digit_run_exec(s, k) == s.len()
}

/// Whether a char vector is a decimal number.
pub fn is_number_exec(s: &Vec<char>) -> (r: bool)
    ensures
        r == is_number(s@),
{
    let a = digit_run_exec(s, 0);
    if a < s.len() && s[a] == '.' {
        let b = digit_run_exec(s, a + 1);
        if !(a > 0 || b > a + 1) {
            return false;
        }
        if b == s.len() {
            return true;
        }
        let e = slice_chars(s, b, s.len());
        is_exponent_exec(&e)
    } else {
        if a == 0 {
            return false;
        }
        if a == s.len() {
            return true;
        }
        let e = slice_chars(s, a, s.len());
        is_exponent_exec(&e)
    }
}

/// Whether `s[lo..hi]` is accepted by `f64::from_str`.
pub fn is_float_literal_exec(s: &Vec<char>, lo: usize, hi: usize) -> (r: bool)
    requires
        lo <= hi <= s@.len(),
    ensures
        r == is_float_literal(s@.subrange(lo as int, hi as int)),
{
    let t = slice_chars(s, lo, hi);
    let start: usize = if t.len() > 0 && (t[0] == '+' || t[0] == '-') {
        1
    } else {
        0
    };
    let body = slice_chars(&t, start, t.len());
    assert(body@ == (if t@.len() > 0 && (t@[0] == '+' || t@[0] == '-') {
        t@.subrange(1, t@.len() as int)
    } else {
        t@
    })) by {
        if start == 0 {
            assert(t@.subrange(0, t@.len() as int) =~= t@);
        }
    }
    crate::text::lower_equals(&body, "inf") || crate::text::lower_equals(&body, "infinity")
        || crate::text::lower_equals(&body, "nan") || is_number_exec(&body)
}

} // verus!
