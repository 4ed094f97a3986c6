//! Small computations that the pipeline shares.

use vstd::prelude::*;
use vstd::string::*;
use vstd::std_specs::hash::*;
use vstd::utf8::encode_utf8;
use std::collections::hash_map::DefaultHasher;
use std::hash::Hasher;
use crate::error::Error;
use crate::pattern::{captures, regex_captures, regex_replace_each, replace_each};
use crate::text::{from_chars, slice_chars, to_chars};

verus! {

/// `x` divided by a positive `y`, rounded up.
pub open spec fn spec_ceil_div(x: int, y: int) -> int {
    if x % y == 0 {
        x / y
    } else {
        x / y + 1
    }
}

/// Divides rounding up.
pub fn ceil_div(x: usize, y: usize) -> (q: usize)
    requires
        y > 0,
    ensures
        q == spec_ceil_div(x as int, y as int),
{
    let whole: usize = x / y;
    if x % y != 0 {
        assert(whole < usize::MAX) by (nonlinear_arith)
            requires
                whole == x / y,
                x % y != 0,
                y > 0,
                x <= usize::MAX,
        {
            if y == 1 {
                assert(x % 1 == 0);
            } else {
                assert(x / y <= x / 2) by {
                    vstd::arithmetic::div_mod::lemma_div_is_ordered_by_denominator(x as int, 2, y as int);
                }
            }
        }
        whole + 1
    } else {
        whole
    }
}

/// `spec_ceil_div` is the quotient rounded up: the least number of parts of
/// size `y` that hold `x`.
pub proof fn lemma_ceil_div_is_least(x: int, y: int)
    requires
        x >= 0,
        y > 0,
    ensures
        spec_ceil_div(x, y) * y >= x,
        (spec_ceil_div(x, y) - 1) * y < x,
        spec_ceil_div(x, y) >= 0,
{
    vstd::arithmetic::div_mod::lemma_fundamental_div_mod(x, y);
    vstd::arithmetic::div_mod::lemma_mod_bound(x, y);
    vstd::arithmetic::div_mod::lemma_div_pos_is_pos(x, y);
    let q = x / y;
    let r = x % y;
    assert(x == y * q + r);
    assert(y * q == q * y) by (nonlinear_arith);
    assert((q + 1) * y == q * y + y) by (nonlinear_arith);
    assert((q - 1) * y == q * y - y) by (nonlinear_arith);
}

/// The hash that names an avatar's file: that of the standard hasher, fed
/// the text's bytes and the byte that ends a string.
pub open spec fn spec_calculate_hash(t: Seq<char>) -> u64 {
    DefaultHasher::spec_finish(seq![encode_utf8(t), seq![0xffu8]])
}

/// Hashes a text with the standard hasher.
pub fn calculate_hash(t: &str) -> (h: u64)
    ensures
        h == spec_calculate_hash(t@),
{
    let mut s = DefaultHasher::new();
    s.write(t.as_bytes());
    let mut end: Vec<u8> = Vec::new();
    end.push(0xff);
    assert(end@ =~= seq![0xffu8]);
    s.write(end.as_slice());
    assert(s@ =~= seq![encode_utf8(t@), seq![0xffu8]]);
    s.finish()
}

/// Index of the first character of `s` at or after `from` that is not `c`.
pub open spec fn skip_char_from(s: Seq<char>, c: char, from: int) -> int
    decreases s.len() - from,
{
    if from < 0 || from >= s.len() || s[from] != c {
        from
    } else {
        skip_char_from(s, c, from + 1)
    }
}

/// Index after the last character of `s[from..end]` that is not `c`.
pub open spec fn skip_char_back(s: Seq<char>, c: char, from: int, end: int) -> int
    decreases end - from,
{
    if end <= from || end > s.len() || s[end - 1] != c {
        end
    } else {
        skip_char_back(s, c, from, end - 1)
    }
}

/// `s` without the `c`s at its start and at its end.
pub open spec fn trim_char(s: Seq<char>, c: char) -> Seq<char> {
    let start = skip_char_from(s, c, 0);
    s.subrange(start, skip_char_back(s, c, start, s.len() as int))
}

fn trim_char_of(v: &Vec<char>, c: char) -> (r: Vec<char>)
    ensures
        r@ == trim_char(v@, c),
{
    let mut start: usize = 0;
    while start < v.len() && v[start] == c
        invariant
            start <= v.len(),
            skip_char_from(v@, c, 0) == skip_char_from(v@, c, start as int),
        decreases v.len() - start,
    {
        start += 1;
    }
    let mut end: usize = v.len();
    while end > start && v[end - 1] == c
        invariant
            start <= end <= v.len(),
            skip_char_back(v@, c, start as int, v.len() as int) == skip_char_back(
                v@,
                c,
                start as int,
                end as int,
            ),
        decreases end,
    {
        end -= 1;
    }
    slice_chars(v, start, end)
}

/// The pattern that finds a skin tone at the end of an emoji's name.
pub open spec fn tone_pattern() -> Seq<char> {
    "(.+):t([1-6])"@
}

/// What stands for one match of the tone pattern: the name, `/`, the tone.
pub open spec fn spec_tone_path(groups: Seq<Option<Seq<char>>>) -> Seq<char> {
    group_text(groups, 1) + seq!['/'] + group_text(groups, 2)
}

/// The text of group `i` of a match; empty where the group is missing or
/// took no part.
pub open spec fn group_text(groups: Seq<Option<Seq<char>>>, i: int) -> Seq<char> {
    if 0 <= i < groups.len() && groups[i] is Some {
        groups[i]->0
    } else {
        Seq::empty()
    }
}

/// The path of a standard emoji below the emoji directory: the name without
/// its colons, a skin tone `:tN` turned into `/N`. `None` where the pattern
/// does not compile.
pub open spec fn spec_normalize_emoji(emoji: Seq<char>) -> Option<Seq<char>> {
    let name = trim_char(emoji, ':');
    match regex_captures(tone_pattern(), name) {
        None => None,
        Some(found) => regex_replace_each(tone_pattern(), name, spec_tone_paths(found)),
    }
}

/// Appends the text of group `i` to `out`.
pub fn push_group(out: &mut String, groups: &Vec<Option<String>>, i: usize)
    ensures
        final(out)@ == old(out)@ + group_text(groups.deep_view(), i as int),
{
    if i < groups.len() {
        assert(groups.deep_view()[i as int] == groups@[i as int].deep_view());
        match &groups[i] {
            Some(s) => {
                out.append(s.as_str());
            },
            None => {
                assert(out@ == old(out)@ + Seq::<char>::empty());
            },
        }
    } else {
        assert(out@ == old(out)@ + Seq::<char>::empty());
    }
}

/// What each match of the tone pattern is replaced by.
pub open spec fn spec_tone_paths(found: Seq<Seq<Option<Seq<char>>>>) -> Seq<Seq<char>> {
    Seq::new(found.len(), |k: int| spec_tone_path(found[k]))
}

/// What each match of the tone pattern is replaced by: `found` holds the
/// groups of each match, the name in group 1 and the tone in group 2.
pub fn tone_paths(found: &Vec<Vec<Option<String>>>) -> (with: Vec<String>)
    ensures
        with.deep_view() == spec_tone_paths(found.deep_view()),
{
    let ghost view = found.deep_view();
    let mut with: Vec<String> = Vec::new();
    let mut k: usize = 0;
    while k < found.len()
        invariant
            k <= found.len(),
            view == found.deep_view(),
            with.len() == k,
            forall|i: int| 0 <= i < k ==> (#[trigger] with.deep_view()[i]) == spec_tone_path(view[i]),
        decreases found.len() - k,
    {
        let ghost before = with@;
        let ghost before_view = with.deep_view();
        assert(view[k as int] == found@[k as int].deep_view());
        let mut path = String::new();
        push_group(&mut path, &found[k], 1);
        path.push('/');
        push_group(&mut path, &found[k], 2);
        assert(path@ =~= spec_tone_path(view[k as int]));
        with.push(path);
        assert forall|i: int| 0 <= i < k + 1 implies (#[trigger] with.deep_view()[i])
            == spec_tone_path(view[i]) by {
            assert(with.deep_view()[i] == with@[i].deep_view());
            if i < k {
                assert(with@[i] == before[i]);
                assert(before_view[i] == before[i].deep_view());
            }
        }
        k += 1;
    }
    assert(with.deep_view() =~= spec_tone_paths(view));
    with
}

/// The path of a standard emoji below the emoji directory. Fails with
/// `Error::Pattern` where the pattern cannot be used.
pub fn normalize_emoji(emoji: &str) -> (r: Result<String, Error>)
    ensures
        match r {
            Ok(path) => spec_normalize_emoji(emoji@) == Some(path@),
            Err(e) => e == Error::Pattern && spec_normalize_emoji(emoji@) is None,
        },
{
    let chars = to_chars(emoji);
    let trimmed = trim_char_of(&chars, ':');
    let name = from_chars(&trimmed, 0, trimmed.len());
    assert(trimmed@.subrange(0, trimmed.len() as int) == trimmed@);
    let found = match captures("(.+):t([1-6])", name.as_str()) {
        Some(found) => found,
        None => {
            return Err(Error::Pattern);
        },
    };
    let with = tone_paths(&found);
    match replace_each("(.+):t([1-6])", name.as_str(), &with) {
        Some(path) => Ok(path),
        None => Err(Error::Pattern),
    }
}

} // verus!
