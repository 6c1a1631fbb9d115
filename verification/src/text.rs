//! Text as a sequence of characters: white space, trimming, prefixes.
//!
//! A `&str` is read into a `Vec<char>` once; every function here then works
//! on a range `from..to` of that vector and speaks of it as the sequence
//! `chars@.subrange(from, to)`.

use vstd::prelude::*;

verus! {

/// Whether `c` has the Unicode property `White_Space`.
pub open spec fn is_white_space(c: char) -> bool {
    let n = c as u32;
    ||| 0x09 <= n <= 0x0D
    ||| n == 0x20
    ||| n == 0x85
    ||| n == 0xA0
    ||| n == 0x1680
    ||| 0x2000 <= n <= 0x200A
    ||| n == 0x2028
    ||| n == 0x2029
    ||| n == 0x202F
    ||| n == 0x205F
    ||| n == 0x3000
}

/// The characters of an optional string slice.
pub open spec fn text_view(text: Option<&str>) -> Option<Seq<char>> {
    match text {
        Some(s) => Some(s@),
        None => None,
    }
}

/// `s` without its leading white space.
pub open spec fn trim_start(s: Seq<char>) -> Seq<char>
    decreases s.len(),
{
    if s.len() > 0 && is_white_space(s.first()) {
        trim_start(s.drop_first())
    } else {
        s
    }
}

/// `s` without its trailing white space.
pub open spec fn trim_end(s: Seq<char>) -> Seq<char>
    decreases s.len(),
{
    if s.len() > 0 && is_white_space(s.last()) {
        trim_end(s.drop_last())
    } else {
        s
    }
}

/// `s` without its leading and trailing white space.
pub open spec fn trim(s: Seq<char>) -> Seq<char> {
    trim_end(trim_start(s))
}

/// The number of characters of `s` before its first `stop`; all of them
/// where it holds none.
pub open spec fn span(s: Seq<char>, stop: char) -> nat
    decreases s.len(),
{
    if s.len() == 0 || s.first() == stop {
        0
    } else {
        1 + span(s.drop_first(), stop)
    }
}

/// The number of characters of `s` before its first white space; all of
/// them where it holds none.
pub open spec fn word_len(s: Seq<char>) -> nat
    decreases s.len(),
{
    if s.len() == 0 || is_white_space(s.first()) {
        0
    } else {
        1 + word_len(s.drop_first())
    }
}

/// `word_len(s)` is the place of the first white space in `s`.
pub proof fn lemma_word_len(s: Seq<char>)
    ensures
        word_len(s) <= s.len(),
        word_len(s) < s.len() ==> is_white_space(s[word_len(s) as int]),
        forall|i: int| 0 <= i < word_len(s) ==> !is_white_space(s[i]),
    decreases s.len(),
{
    if s.len() > 0 && !is_white_space(s.first()) {
        lemma_word_len(s.drop_first());
        assert forall|i: int| 0 <= i < word_len(s) implies !is_white_space(s[i]) by {
            if i > 0 {
                assert(s[i] == s.drop_first()[i - 1]);
            }
        }
    }
}

/// Whether `c` is a white space character.
pub fn is_whitespace(c: char) -> (white: bool)
    ensures
        white == is_white_space(c),
{
    let n: u32 = c as u32;
    (0x09 <= n && n <= 0x0D)
        || n == 0x20
        || n == 0x85
        || n == 0xA0
        || n == 0x1680
        || (0x2000 <= n && n <= 0x200A)
        || n == 0x2028
        || n == 0x2029
        || n == 0x202F
        || n == 0x205F
        || n == 0x3000
}

/// The characters of `s`.
pub fn chars_of(s: &str) -> (chars: Vec<char>)
    ensures
        chars@ == s@,
{
    let mut chars: Vec<char> = Vec::new();
    for c in it: s.chars()
        invariant
            chars@ == it.seq().take(it.index() as int),
    {
        chars.push(c);
    }
    chars
}

/// The bounds of `chars[from..to]` once trimmed.
pub fn trim_range(chars: &Vec<char>, from: usize, to: usize) -> (bounds: (usize, usize))
    requires
        from <= to <= chars.len(),
    ensures
        from <= bounds.0 <= bounds.1 <= to,
        chars@.subrange(bounds.0 as int, bounds.1 as int) == trim(
            chars@.subrange(from as int, to as int),
        ),
        to - bounds.0 == trim_start(chars@.subrange(from as int, to as int)).len(),
{
    let mut start: usize = from;
    while start < to && is_whitespace(chars[start])
        invariant
            from <= start <= to <= chars.len(),
            trim_start(chars@.subrange(from as int, to as int)) == trim_start(
                chars@.subrange(start as int, to as int),
            ),
        decreases to - start,
    {
        assert(chars@.subrange(start as int, to as int).drop_first() == chars@.subrange(
            start + 1,
            to as int,
        ));
        start = start + 1;
    }
    let mut end: usize = to;
    while end > start && is_whitespace(chars[end - 1])
        invariant
            start <= end <= to <= chars.len(),
            trim_end(chars@.subrange(start as int, to as int)) == trim_end(
                chars@.subrange(start as int, end as int),
            ),
        decreases end - start,
    {
        assert(chars@.subrange(start as int, end as int).drop_last() == chars@.subrange(
            start as int,
            end - 1,
        ));
        end = end - 1;
    }
    (start, end)
}

/// The end of the run of characters other than `stop` that begins at `from`
/// and lies before `to`.
pub fn scan(chars: &Vec<char>, from: usize, to: usize, stop: char) -> (end: usize)
    requires
        from <= to <= chars.len(),
    ensures
        from <= end <= to,
        end - from == span(chars@.subrange(from as int, to as int), stop),
{
    let mut end: usize = from;
    while end < to && chars[end] != stop
        invariant
            from <= end <= to <= chars.len(),
            span(chars@.subrange(from as int, to as int), stop) == (end - from) + span(
                chars@.subrange(end as int, to as int),
                stop,
            ),
        decreases to - end,
    {
        assert(chars@.subrange(end as int, to as int).drop_first() == chars@.subrange(
            end + 1,
            to as int,
        ));
        end = end + 1;
    }
    end
}

/// The end of the run of characters other than white space that begins at
/// `from` and lies before `to`.
pub fn scan_word(chars: &Vec<char>, from: usize, to: usize) -> (end: usize)
    requires
        from <= to <= chars.len(),
    ensures
        from <= end <= to,
        end - from == word_len(chars@.subrange(from as int, to as int)),
{
    let mut end: usize = from;
    while end < to && !is_whitespace(chars[end])
        invariant
            from <= end <= to <= chars.len(),
            word_len(chars@.subrange(from as int, to as int)) == (end - from) + word_len(
                chars@.subrange(end as int, to as int),
            ),
        decreases to - end,
    {
        assert(chars@.subrange(end as int, to as int).drop_first() == chars@.subrange(
            end + 1,
            to as int,
        ));
        end = end + 1;
    }
    end
}

/// Whether `chars[from..to]` begins with `prefix`.
pub fn starts_with(chars: &Vec<char>, from: usize, to: usize, prefix: &Vec<char>) -> (found: bool)
    requires
        from <= to <= chars.len(),
    ensures
        found == prefix@.is_prefix_of(chars@.subrange(from as int, to as int)),
{
    if prefix.len() > to - from {
        return false;
    }
    let mut i: usize = 0;
    while i < prefix.len()
        invariant
            from <= to <= chars.len(),
            i <= prefix.len() <= to - from,
            forall|k: int| 0 <= k < i ==> prefix@[k] == chars@[from + k],
        decreases prefix.len() - i,
    {
        if prefix[i] != chars[from + i] {
            return false;
        }
        i = i + 1;
    }
    true
}

/// Whether `chars[from..to]` is `other`.
pub fn equals(chars: &Vec<char>, from: usize, to: usize, other: &Vec<char>) -> (same: bool)
    requires
        from <= to <= chars.len(),
    ensures
        same == (chars@.subrange(from as int, to as int) == other@),
{
    if other.len() != to - from {
        return false;
    }
    let found = starts_with(chars, from, to, other);
    proof {
        let range = chars@.subrange(from as int, to as int);
        assert(range.subrange(0, range.len() as int) == range);
    }
    found
}

/// Whether `a` and `b` hold the same characters.
pub fn same_text(a: &str, b: &str) -> (same: bool)
    ensures
        same == (a@ == b@),
{
    let left = chars_of(a);
    let right = chars_of(b);
    proof {
        assert(left@.subrange(0, left@.len() as int) == left@);
    }
    equals(&left, 0, left.len(), &right)
}

/// Whether `text`, once trimmed, is `word`.
pub fn trimmed_is(text: &str, word: &str) -> (same: bool)
    ensures
        same == (trim(text@) == word@),
{
    let chars = chars_of(text);
    let other = chars_of(word);
    proof {
        assert(chars@.subrange(0, chars@.len() as int) == chars@);
    }
    let (from, to): (usize, usize) = trim_range(&chars, 0, chars.len());
    equals(&chars, from, to, &other)
}

} // verus!
