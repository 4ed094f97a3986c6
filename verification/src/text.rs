//! Character-level helpers: searching, trimming, case folding, decimal
//! rendering and substring replacement, each with the sequence it computes.

use vstd::prelude::*;
use vstd::string::*;

verus! {

/// `String::push` appends one character.
pub assume_specification[ String::push ](s: &mut String, ch: char)
    ensures
        final(s)@ == old(s)@.push(ch),
;

/// The characters of a string slice, in order.
pub fn to_chars(s: &str) -> (v: Vec<char>)
    ensures
        v@ == s@,
{
    let mut v: Vec<char> = Vec::new();
    for c in it: s.chars()
        invariant
            v@ == it.seq().take(it.index()),
            it.seq() == s@,
    {
        v.push(c);
    }
    v
}

/// The string made of `v[from..to]`.
pub fn from_chars(v: &Vec<char>, from: usize, to: usize) -> (s: String)
    requires
        from <= to <= v.len(),
    ensures
        s@ == v@.subrange(from as int, to as int),
{
    let mut s = String::new();
    push_chars(&mut s, v, from, to);
    s
}

/// Appends `v[from..to]` to `s`.
pub fn push_chars(s: &mut String, v: &Vec<char>, from: usize, to: usize)
    requires
        from <= to <= v.len(),
    ensures
        final(s)@ == old(s)@ + v@.subrange(from as int, to as int),
{
    let mut i: usize = from;
    while i < to
        invariant
            from <= i <= to <= v.len(),
            s@ == old(s)@ + v@.subrange(from as int, i as int),
        decreases to - i,
    {
        s.push(v[i]);
        i += 1;
        assert(v@.subrange(from as int, i as int) == v@.subrange(from as int, i - 1).push(
            v@[i - 1],
        ));
    }
}

/// Appends the whole of `v` to `out`.
pub fn extend_chars(out: &mut Vec<char>, v: &Vec<char>)
    ensures
        final(out)@ == old(out)@ + v@,
{
    let mut i: usize = 0;
    while i < v.len()
        invariant
            i <= v.len(),
            out@ == old(out)@ + v@.take(i as int),
        decreases v.len() - i,
    {
        out.push(v[i]);
        i += 1;
        assert(v@.take(i as int) == v@.take(i - 1).push(v@[i - 1]));
    }
    assert(v@.take(v.len() as int) == v@);
}

/// A copy of `v[from..to]`.
pub fn slice_chars(v: &Vec<char>, from: usize, to: usize) -> (r: Vec<char>)
    requires
        from <= to <= v.len(),
    ensures
        r@ == v@.subrange(from as int, to as int),
{
    let mut r: Vec<char> = Vec::new();
    let mut i: usize = from;
    while i < to
        invariant
            from <= i <= to <= v.len(),
            r@ == v@.subrange(from as int, i as int),
        decreases to - i,
    {
        r.push(v[i]);
        i += 1;
        assert(v@.subrange(from as int, i as int) == v@.subrange(from as int, i - 1).push(
            v@[i - 1],
        ));
    }
    r
}

/// Index of the first `c` at or after `from`, or `s.len()` when there is none.
pub open spec fn first_index_from(s: Seq<char>, c: char, from: int) -> int
    decreases s.len() - from,
{
    if from < 0 || from >= s.len() {
        s.len() as int
    } else if s[from] == c {
        from
    } else {
        first_index_from(s, c, from + 1)
    }
}

/// Index of the first `c` in `s`, or `s.len()` when there is none.
pub open spec fn first_index_of(s: Seq<char>, c: char) -> int {
    first_index_from(s, c, 0)
}

/// Index of the last `c` strictly before `end`, or `-1` when there is none.
pub open spec fn last_index_before(s: Seq<char>, c: char, end: int) -> int
    decreases end,
{
    if end <= 0 || end > s.len() {
        -1
    } else if s[end - 1] == c {
        end - 1
    } else {
        last_index_before(s, c, end - 1)
    }
}

/// Index of the last `c` in `s`, or `-1` when there is none.
pub open spec fn last_index_of(s: Seq<char>, c: char) -> int {
    last_index_before(s, c, s.len() as int)
}

/// Index of the first `c` of `v` at or after `from`, `v.len()` without one.
pub fn find_first_from(v: &Vec<char>, c: char, from: usize) -> (r: usize)
    requires
        from <= v.len(),
    ensures
        r == first_index_from(v@, c, from as int),
        from <= r <= v.len(),
{
    let mut i: usize = from;
    while i < v.len()
        invariant
            from <= i <= v.len(),
            first_index_from(v@, c, from as int) == first_index_from(v@, c, i as int),
        decreases v.len() - i,
    {
        if v[i] == c {
            return i;
        }
        i += 1;
    }
    i
}

/// Finds the first `c` in `v`.
pub fn find_first(v: &Vec<char>, c: char) -> (r: Option<usize>)
    ensures
        match r {
            Some(i) => i < v.len() && i == first_index_of(v@, c),
            None => first_index_of(v@, c) == v.len(),
        },
{
    let mut i: usize = 0;
    while i < v.len()
        invariant
            i <= v.len(),
            first_index_of(v@, c) == first_index_from(v@, c, i as int),
        decreases v.len() - i,
    {
        if v[i] == c {
            return Some(i);
        }
        i += 1;
    }
    None
}

/// Where no `c` stands from `from` up to `end`, the last `c` before `end` is
/// the last one before `from`.
pub proof fn lemma_last_index_skips(s: Seq<char>, c: char, from: int, end: int)
    requires
        0 <= from <= end <= s.len(),
        forall|j: int| from <= j < end ==> s[j] != c,
    ensures
        last_index_before(s, c, end) == last_index_before(s, c, from),
    decreases end - from,
{
    if from < end {
        lemma_last_index_skips(s, c, from, end - 1);
    }
}

/// Finds the last `c` in `v`.
pub fn find_last(v: &Vec<char>, c: char) -> (r: Option<usize>)
    ensures
        match r {
            Some(i) => i < v.len() && i == last_index_of(v@, c),
            None => last_index_of(v@, c) == -1,
        },
{
    let mut i: usize = v.len();
    while i > 0
        invariant
            i <= v.len(),
            last_index_of(v@, c) == last_index_before(v@, c, i as int),
        decreases i,
    {
        if v[i - 1] == c {
            return Some(i - 1);
        }
        i -= 1;
    }
    None
}

/// The part of `s` before its first `c`; all of `s` when it holds none.
pub open spec fn before_first(s: Seq<char>, c: char) -> Seq<char> {
    s.take(first_index_of(s, c))
}

/// The part of `s` after its first `c`; empty when it holds none.
pub open spec fn after_first(s: Seq<char>, c: char) -> Seq<char> {
    if first_index_of(s, c) < s.len() {
        s.skip(first_index_of(s, c) + 1)
    } else {
        Seq::empty()
    }
}

/// The part of `s` before its last `c`; all of `s` when it holds none.
pub open spec fn before_last(s: Seq<char>, c: char) -> Seq<char> {
    if last_index_of(s, c) >= 0 {
        s.take(last_index_of(s, c))
    } else {
        s
    }
}

/// The part of `s` after its last `c`; all of `s` when it holds none.
pub open spec fn after_last(s: Seq<char>, c: char) -> Seq<char> {
    s.skip(last_index_of(s, c) + 1)
}

/// Unicode `White_Space`.
pub open spec fn is_space(c: char) -> bool {
    let n = c as u32;
    (0x09 <= n <= 0x0D) || n == 0x20 || n == 0x85 || n == 0xA0 || n == 0x1680 || (0x2000 <= n
        <= 0x200A) || n == 0x2028 || n == 0x2029 || n == 0x202F || n == 0x205F || n == 0x3000
}

/// Tells whether `c` has the Unicode property `White_Space`.
pub fn char_is_space(c: char) -> (r: bool)
    ensures
        r == is_space(c),
{
    let n: u32 = c as u32;
    (0x09 <= n && n <= 0x0D) || n == 0x20 || n == 0x85 || n == 0xA0 || n == 0x1680 || (0x2000 <= n
        && n <= 0x200A) || n == 0x2028 || n == 0x2029 || n == 0x202F || n == 0x205F || n == 0x3000
}

/// Number of leading white-space characters of `s` at or after `from`.
pub open spec fn leading_spaces_from(s: Seq<char>, from: int) -> int
    decreases s.len() - from,
{
    if from < 0 || from >= s.len() || !is_space(s[from]) {
        0
    } else {
        1 + leading_spaces_from(s, from + 1)
    }
}

/// Number of leading white-space characters of `s`.
pub open spec fn leading_spaces(s: Seq<char>) -> int {
    leading_spaces_from(s, 0)
}

/// Number of trailing white-space characters of `s[..end]`.
pub open spec fn trailing_spaces_before(s: Seq<char>, end: int) -> int
    decreases end,
{
    if end <= 0 || end > s.len() || !is_space(s[end - 1]) {
        0
    } else {
        1 + trailing_spaces_before(s, end - 1)
    }
}

/// Where the trimmed part of `s` starts.
pub open spec fn trim_start_index(s: Seq<char>) -> int {
    leading_spaces(s)
}

/// Where the trimmed part of `s` ends: white space is taken off the end of
/// what follows the leading white space.
pub open spec fn trim_end_index(s: Seq<char>) -> int {
    s.len() - trailing_spaces_before(s.skip(leading_spaces(s)), s.len() - leading_spaces(s))
}

/// `s` without its leading and trailing white space.
pub open spec fn trimmed(s: Seq<char>) -> Seq<char> {
    s.subrange(trim_start_index(s), trim_end_index(s))
}

/// The leading white space ends before the first character that is none.
pub proof fn lemma_leading_spaces_from(s: Seq<char>, from: int)
    requires
        0 <= from <= s.len(),
    ensures
        0 <= leading_spaces_from(s, from) <= s.len() - from,
        forall|j: int| from <= j < from + leading_spaces_from(s, from) ==> is_space(s[j]),
        from + leading_spaces_from(s, from) < s.len() ==> !is_space(
            s[from + leading_spaces_from(s, from)],
        ),
    decreases s.len() - from,
{
    if from < s.len() && is_space(s[from]) {
        lemma_leading_spaces_from(s, from + 1);
    }
}

/// The trailing white space starts after the last character that is none.
pub proof fn lemma_trailing_spaces_before(s: Seq<char>, end: int)
    requires
        0 <= end <= s.len(),
    ensures
        0 <= trailing_spaces_before(s, end) <= end,
        forall|j: int| end - trailing_spaces_before(s, end) <= j < end ==> is_space(s[j]),
        end - trailing_spaces_before(s, end) > 0 ==> !is_space(
            s[end - trailing_spaces_before(s, end) - 1],
        ),
    decreases end,
{
    if end > 0 && is_space(s[end - 1]) {
        lemma_trailing_spaces_before(s, end - 1);
    }
}

/// The trimmed part lies inside `s`.
pub proof fn lemma_trim_bounds(s: Seq<char>)
    ensures
        0 <= trim_start_index(s) <= trim_end_index(s) <= s.len(),
{
    lemma_leading_spaces_from(s, 0);
    let rest = s.skip(leading_spaces(s));
    lemma_trailing_spaces_before(rest, rest.len() as int);
}

/// Counts the leading white space of `v`.
pub fn count_leading_spaces(v: &Vec<char>) -> (n: usize)
    ensures
        n == leading_spaces(v@),
        n <= v.len(),
{
    let mut i: usize = 0;
    proof {
        lemma_leading_spaces_from(v@, 0);
    }
    while i < v.len() && char_is_space(v[i])
        invariant
            i <= v.len(),
            leading_spaces(v@) == i + leading_spaces_from(v@, i as int),
        decreases v.len() - i,
    {
        i += 1;
    }
    i
}

/// Bounds of the trimmed part of `v`.
pub fn trim_bounds(v: &Vec<char>) -> (r: (usize, usize))
    ensures
        r.0 == trim_start_index(v@),
        r.1 == trim_end_index(v@),
        r.0 <= r.1 <= v.len(),
{
    let start: usize = count_leading_spaces(v);
    let mut end: usize = v.len();
    let ghost rest = v@.skip(start as int);
    proof {
        lemma_trim_bounds(v@);
    }
    while end > start && char_is_space(v[end - 1])
        invariant
            start <= end <= v.len(),
            start == leading_spaces(v@),
            rest == v@.skip(start as int),
            trailing_spaces_before(rest, rest.len() as int) == (v.len() - end)
                + trailing_spaces_before(rest, end - start),
        decreases end,
    {
        assert(rest[end - start - 1] == v@[end - 1]);
        end -= 1;
    }
    proof {
        if end > start {
            assert(rest[end - start - 1] == v@[end - 1]);
        }
    }
    (start, end)
}

/// ASCII lower-case form of `c`.
pub open spec fn ascii_lower(c: char) -> char {
    if 'A' <= c <= 'Z' {
        ((c as u32) + 32) as char
    } else {
        c
    }
}

/// Tells whether `a` and `b` differ at most in the case of ASCII letters.
pub open spec fn eq_ignore_ascii_case(a: Seq<char>, b: Seq<char>) -> bool {
    a.len() == b.len() && forall|i: int| 0 <= i < a.len() ==> ascii_lower(a[i]) == ascii_lower(b[i])
}

fn lower_code(c: char) -> (n: u32)
    ensures
        n == ascii_lower(c) as u32,
{
    let n: u32 = c as u32;
    if 'A' <= c && c <= 'Z' {
        n + 32
    } else {
        n
    }
}

/// Compares character sequences up to the case of ASCII letters.
pub fn chars_eq_ignore_ascii_case(a: &Vec<char>, b: &Vec<char>) -> (r: bool)
    ensures
        r == eq_ignore_ascii_case(a@, b@),
{
    if a.len() != b.len() {
        return false;
    }
    let mut i: usize = 0;
    while i < a.len()
        invariant
            i <= a.len(),
            a.len() == b.len(),
            forall|j: int| 0 <= j < i ==> ascii_lower(a@[j]) == ascii_lower(b@[j]),
        decreases a.len() - i,
    {
        if lower_code(a[i]) != lower_code(b[i]) {
            assert(ascii_lower(a@[i as int]) != ascii_lower(b@[i as int]));
            return false;
        }
        assert(ascii_lower(a@[i as int]) as u32 == ascii_lower(b@[i as int]) as u32);
        i += 1;
    }
    true
}

/// Tells whether `pat` stands in `s` at index `i`.
pub open spec fn occurs_at(s: Seq<char>, pat: Seq<char>, i: int) -> bool {
    0 <= i && i + pat.len() <= s.len() && s.subrange(i, i + pat.len()) == pat
}

/// Tells whether `pat` stands in `s` somewhere.
pub open spec fn contains_seq(s: Seq<char>, pat: Seq<char>) -> bool {
    exists|i: int| occurs_at(s, pat, i)
}

/// Tests whether `pat` stands in `v` at index `i`.
pub fn matches_at(v: &Vec<char>, pat: &Vec<char>, i: usize) -> (r: bool)
    requires
        i <= v.len(),
    ensures
        r == occurs_at(v@, pat@, i as int),
{
    if pat.len() > v.len() - i {
        return false;
    }
    let mut k: usize = 0;
    while k < pat.len()
        invariant
            k <= pat.len(),
            i + pat.len() <= v.len(),
            forall|j: int| 0 <= j < k ==> v@[i + j] == pat@[j],
        decreases pat.len() - k,
    {
        if v[i + k] != pat[k] {
            assert(v@.subrange(i as int, i + pat.len())[k as int] != pat@[k as int]);
            return false;
        }
        k += 1;
    }
    assert(v@.subrange(i as int, i + pat.len()) =~= pat@);
    true
}

/// `s` from index `from` on, with every non-overlapping occurrence of a
/// non-empty `pat`, taken from the left, replaced by `with`. An empty `pat`
/// changes nothing.
pub open spec fn replace_from(s: Seq<char>, pat: Seq<char>, with: Seq<char>, from: int) -> Seq<
    char,
>
    decreases s.len() - from,
{
    if from < 0 || from >= s.len() || pat.len() == 0 {
        if 0 <= from <= s.len() {
            s.skip(from)
        } else {
            Seq::empty()
        }
    } else if occurs_at(s, pat, from) {
        with + replace_from(s, pat, with, from + pat.len())
    } else {
        seq![s[from]] + replace_from(s, pat, with, from + 1)
    }
}

/// `s` with every occurrence of `pat` replaced by `with`.
pub open spec fn replaced(s: Seq<char>, pat: Seq<char>, with: Seq<char>) -> Seq<char> {
    replace_from(s, pat, with, 0)
}

/// Replaces every occurrence of a non-empty `pat` in `v` by `with`.
pub fn replace_chars(v: &Vec<char>, pat: &Vec<char>, with: &Vec<char>) -> (r: Vec<char>)
    ensures
        r@ == replaced(v@, pat@, with@),
{
    let mut out: Vec<char> = Vec::new();
    if pat.len() == 0 {
        extend_chars(&mut out, v);
        assert(v@.skip(0) == v@);
        return out;
    }
    let mut i: usize = 0;
    while i < v.len()
        invariant
            i <= v.len(),
            pat.len() > 0,
            replaced(v@, pat@, with@) == out@ + replace_from(v@, pat@, with@, i as int),
        decreases v.len() - i,
    {
        let ghost before = out@;
        if matches_at(v, pat, i) {
            extend_chars(&mut out, with);
            i += pat.len();
            assert(out@ + replace_from(v@, pat@, with@, i as int) == before + (with@
                + replace_from(v@, pat@, with@, i as int)));
        } else {
            out.push(v[i]);
            i += 1;
            assert(out@ + replace_from(v@, pat@, with@, i as int) == before + (seq![v@[i - 1]]
                + replace_from(v@, pat@, with@, i as int)));
        }
    }
    assert(replace_from(v@, pat@, with@, i as int) == Seq::<char>::empty());
    assert(out@ + Seq::<char>::empty() == out@);
    out
}

/// The decimal digit `d`.
pub open spec fn digit_char(d: int) -> char {
    if d == 0 {
        '0'
    } else if d == 1 {
        '1'
    } else if d == 2 {
        '2'
    } else if d == 3 {
        '3'
    } else if d == 4 {
        '4'
    } else if d == 5 {
        '5'
    } else if d == 6 {
        '6'
    } else if d == 7 {
        '7'
    } else if d == 8 {
        '8'
    } else {
        '9'
    }
}

/// Decimal digits of `n`, most significant first, without leading zeros.
pub open spec fn decimal(n: nat) -> Seq<char>
    decreases n,
{
    if n < 10 {
        seq![digit_char(n as int)]
    } else {
        decimal(n / 10).push(digit_char((n % 10) as int))
    }
}

fn digit(d: u64) -> (c: char)
    requires
        d < 10,
    ensures
        c == digit_char(d as int),
{
    if d == 0 {
        '0'
    } else if d == 1 {
        '1'
    } else if d == 2 {
        '2'
    } else if d == 3 {
        '3'
    } else if d == 4 {
        '4'
    } else if d == 5 {
        '5'
    } else if d == 6 {
        '6'
    } else if d == 7 {
        '7'
    } else if d == 8 {
        '8'
    } else {
        '9'
    }
}

/// Appends the decimal form of `n` to `out`.
pub fn push_decimal(out: &mut Vec<char>, n: u64)
    ensures
        final(out)@ == old(out)@ + decimal(n as nat),
    decreases n,
{
    if n >= 10 {
        push_decimal(out, n / 10);
        out.push(digit(n % 10));
        assert(out@ == old(out)@ + decimal((n / 10) as nat).push(digit_char((n % 10) as int)));
    } else {
        out.push(digit(n));
        assert(out@ == old(out)@ + seq![digit_char(n as int)]);
    }
}

/// A decimal form holds digits only.
pub proof fn lemma_decimal_digits(n: nat)
    ensures
        decimal(n).len() > 0,
        forall|i: int| 0 <= i < decimal(n).len() ==> '0' <= #[trigger] decimal(n)[i] <= '9',
    decreases n,
{
    if n >= 10 {
        lemma_decimal_digits(n / 10);
    }
}

/// The decimal form of `n`.
pub fn decimal_string(n: u64) -> (s: String)
    ensures
        s@ == decimal(n as nat),
{
    let mut v: Vec<char> = Vec::new();
    push_decimal(&mut v, n);
    let s = from_chars(&v, 0, v.len());
    assert(v@.subrange(0, v.len() as int) == v@);
    s
}

/// `a` followed by `b`.
pub fn concat(a: &str, b: &str) -> (r: String)
    ensures
        r@ == a@ + b@,
{
    let mut r = String::from_str(a);
    r.append(b);
    r
}

/// `a`, `b` and `c` in a row.
pub fn concat3(a: &str, b: &str, c: &str) -> (r: String)
    ensures
        r@ == a@ + b@ + c@,
{
    let mut r = String::from_str(a);
    r.append(b);
    r.append(c);
    r
}

/// The string that holds the characters of `v`.
pub fn string_of(v: &Vec<char>) -> (r: String)
    ensures
        r@ == v@,
{
    let r = from_chars(v, 0, v.len());
    assert(v@.subrange(0, v.len() as int) == v@);
    r
}

/// Appends `s` to `v`.
pub fn push_string(v: &mut Vec<String>, s: String)
    ensures
        final(v).deep_view() == old(v).deep_view().push(s@),
        final(v)@ == old(v)@.push(s),
{
    v.push(s);
    assert(v.deep_view() =~= old(v).deep_view().push(s@));
}

/// Appends the pair `(a, b)` to `v`.
pub fn push_pair(v: &mut Vec<(String, String)>, a: String, b: String)
    ensures
        final(v).deep_view() == old(v).deep_view().push((a@, b@)),
        final(v)@ == old(v)@.push((a, b)),
{
    v.push((a, b));
    assert(v.deep_view() =~= old(v).deep_view().push((a@, b@)));
}

/// Index of the first string of `v` that holds the characters of `s`.
pub fn index_of_string(v: &Vec<String>, s: &str) -> (r: Option<usize>)
    ensures
        match r {
            Some(i) => i < v.len() && v.deep_view()[i as int] == s@ && forall|j: int|
                0 <= j < i ==> v.deep_view()[j] != s@,
            None => !v.deep_view().contains(s@),
        },
{
    let key = String::from_str(s);
    let mut i: usize = 0;
    while i < v.len()
        invariant
            i <= v.len(),
            key@ == s@,
            forall|j: int| 0 <= j < i ==> v.deep_view()[j] != s@,
        decreases v.len() - i,
    {
        assert(v.deep_view()[i as int] == v@[i as int]@);
        if v[i] == key {
            return Some(i);
        }
        i += 1;
    }
    None
}

/// Tests whether `pat` stands somewhere in `v`.
pub fn contains_chars(v: &Vec<char>, pat: &Vec<char>) -> (r: bool)
    ensures
        r == contains_seq(v@, pat@),
{
    let mut i: usize = 0;
    while i < v.len()
        invariant
            i <= v.len(),
            forall|j: int| 0 <= j < i ==> !occurs_at(v@, pat@, j),
        decreases v.len() - i,
    {
        if matches_at(v, pat, i) {
            return true;
        }
        i += 1;
    }
    if matches_at(v, pat, i) {
        return true;
    }
    assert(forall|j: int| !occurs_at(v@, pat@, j));
    false
}

/// A sequence without duplicates stays so when something new is pushed.
pub proof fn lemma_push_fresh(seen: Seq<Seq<char>>, item: Seq<char>)
    requires
        seen.no_duplicates(),
        !seen.contains(item),
    ensures
        seen.push(item).no_duplicates(),
{
    assert forall|i: int, j: int|
        0 <= i < seen.len() + 1 && 0 <= j < seen.len() + 1 && i != j implies seen.push(item)[i]
        != seen.push(item)[j] by {
        if i < seen.len() && j < seen.len() {
        } else if i < seen.len() {
            assert(seen.contains(seen[i]));
        } else {
            assert(seen.contains(seen[j]));
        }
    }
}

/// Tells whether `p` stands in `x` at index `q`, character by character.
pub open spec fn stands_at(x: Seq<char>, p: Seq<char>, q: int) -> bool {
    0 <= q && q + p.len() <= x.len() && forall|t: int| 0 <= t < p.len() ==> x[q + t] == #[trigger] p[t]
}

/// `occurs_at`, character by character.
pub proof fn lemma_occurs_stands(x: Seq<char>, p: Seq<char>, q: int)
    ensures
        occurs_at(x, p, q) <==> stands_at(x, p, q),
{
    if stands_at(x, p, q) {
        assert(x.subrange(q, q + p.len()) =~= p);
    }
    if occurs_at(x, p, q) {
        assert forall|t: int| 0 <= t < p.len() implies x[q + t] == #[trigger] p[t] by {
            assert(x.subrange(q, q + p.len())[t] == x[q + t]);
        }
    }
}

/// Tells whether `a` and `b` have no character in common.
pub open spec fn seq_apart(a: Seq<char>, b: Seq<char>) -> bool {
    forall|i: int, j: int| 0 <= i < a.len() && 0 <= j < b.len() ==> #[trigger] a[i] != #[trigger] b[j]
}

/// What a replacement starts with, as far as it holds no character of what
/// was put in, stood in the text before: it was copied from there.
pub proof fn lemma_copied_prefix(
    s: Seq<char>,
    pat: Seq<char>,
    with: Seq<char>,
    from: int,
    p: Seq<char>,
)
    requires
        0 <= from <= s.len(),
        with.len() > 0,
        seq_apart(p, with),
        stands_at(replace_from(s, pat, with, from), p, 0),
    ensures
        stands_at(s, p, from),
    decreases p.len(),
{
    let r = replace_from(s, pat, with, from);
    if p.len() == 0 {
    } else if from >= s.len() || pat.len() == 0 {
        assert(r == s.skip(from));
        assert forall|t: int| 0 <= t < p.len() implies s[from + t] == #[trigger] p[t] by {
            assert(r[0int + t] == p[t]);
        }
    } else if occurs_at(s, pat, from) {
        let rest = replace_from(s, pat, with, from + pat.len());
        assert(r == with + rest);
        assert(r[0int + 0] == p[0]);
        assert(r[0] == with[0]);
        assert(p[0] != with[0]);
    } else {
        let rest = replace_from(s, pat, with, from + 1);
        assert(r == seq![s[from]] + rest);
        let tail = p.drop_first();
        assert(r[0int + 0] == p[0]);
        assert forall|t: int| 0 <= t < tail.len() implies rest[0int + t] == #[trigger] tail[t] by {
            assert(r[0int + (t + 1)] == p[t + 1]);
            assert(r[t + 1] == rest[t]);
        }
        assert(seq_apart(tail, with)) by {
            assert forall|i: int, j: int|
                0 <= i < tail.len() && 0 <= j < with.len() implies #[trigger] tail[i]
                != #[trigger] with[j] by {
                assert(tail[i] == p[i + 1]);
            }
        }
        lemma_copied_prefix(s, pat, with, from + 1, tail);
        assert forall|t: int| 0 <= t < p.len() implies s[from + t] == #[trigger] p[t] by {
            if t > 0 {
                assert(s[(from + 1) + (t - 1)] == tail[t - 1]);
            }
        }
    }
}

/// A replacement does not bring about `key`, where what is put in is not
/// empty and shares no character with `key`, and `key` is what is replaced
/// or does not stand in the text.
pub proof fn lemma_replace_from_leaves_none(
    s: Seq<char>,
    pat: Seq<char>,
    with: Seq<char>,
    key: Seq<char>,
    from: int,
    q: int,
)
    requires
        0 <= from <= s.len(),
        with.len() > 0,
        key.len() > 0,
        seq_apart(key, with),
        key == pat || !contains_seq(s, key),
    ensures
        !stands_at(replace_from(s, pat, with, from), key, q),
    decreases s.len() - from,
{
    let r = replace_from(s, pat, with, from);
    if stands_at(r, key, q) {
        if from >= s.len() || pat.len() == 0 {
            assert(r == s.skip(from));
            assert forall|t: int| 0 <= t < key.len() implies s[(from + q) + t] == #[trigger] key[t] by {
                assert(r[q + t] == key[t]);
            }
            assert(stands_at(s, key, from + q));
            lemma_occurs_stands(s, key, from + q);
            assert(occurs_at(s, key, from + q));
        } else if occurs_at(s, pat, from) {
            let rest = replace_from(s, pat, with, from + pat.len());
            assert(r == with + rest);
            if q < with.len() {
                assert(r[q + 0] == key[0]);
                assert(r[q] == with[q]);
                assert(key[0] != with[q]);
            } else {
                assert forall|t: int| 0 <= t < key.len() implies rest[(q - with.len()) + t]
                    == #[trigger] key[t] by {
                    assert(r[q + t] == key[t]);
                    assert(r[q + t] == rest[q + t - with.len()]);
                }
                assert(stands_at(rest, key, q - with.len()));
                lemma_replace_from_leaves_none(s, pat, with, key, from + pat.len(), q - with.len());
            }
        } else {
            let rest = replace_from(s, pat, with, from + 1);
            assert(r == seq![s[from]] + rest);
            if q >= 1 {
                assert forall|t: int| 0 <= t < key.len() implies rest[(q - 1) + t] == #[trigger] key[t] by {
                    assert(r[q + t] == key[t]);
                    assert(r[q + t] == rest[q + t - 1]);
                }
                assert(stands_at(rest, key, q - 1));
                lemma_replace_from_leaves_none(s, pat, with, key, from + 1, q - 1);
            } else {
                lemma_copied_prefix(s, pat, with, from, key);
                lemma_occurs_stands(s, key, from);
                assert(occurs_at(s, key, from));
            }
        }
    }
}

/// After a replacement `key` stands nowhere, where what is put in is not
/// empty and shares no character with `key`, and `key` is what is replaced
/// or did not stand in the text before.
pub proof fn lemma_replaced_leaves_none(s: Seq<char>, pat: Seq<char>, with: Seq<char>, key: Seq<char>)
    requires
        with.len() > 0,
        key.len() > 0,
        seq_apart(key, with),
        key == pat || !contains_seq(s, key),
    ensures
        !contains_seq(replaced(s, pat, with), key),
{
    assert forall|q: int| !occurs_at(replaced(s, pat, with), key, q) by {
        lemma_replace_from_leaves_none(s, pat, with, key, 0, q);
        lemma_occurs_stands(replaced(s, pat, with), key, q);
    }
}

} // verus!
