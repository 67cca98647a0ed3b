//! Scanning of character sequences: white space, lines, words and the
//! comparison of a word with a given text.

use vstd::prelude::*;

verus! {

/// Whether `c` carries the Unicode property `White_Space`.
pub open spec fn is_space(c: char) -> bool {
    let n = c as u32;
    ||| 0x09 <= n <= 0x0D
    ||| n == 0x20
    ||| n == 0x85
    ||| n == 0xA0
    ||| n == 0x1680
    ||| 0x2000 <= n <= 0x200A
    ||| n == 0x2028
    ||| n == 0x2029
    ||| n == 0x202F
    ||| n == 0x205F
    ||| n == 0x3000
}

/// Decides `is_space`.
pub fn is_whitespace(c: char) -> (r: bool)
    ensures
        r == is_space(c),
{
    let n: u32 = c as u32;
    (0x09 <= n && n <= 0x0D) || n == 0x20 || n == 0x85 || n == 0xA0 || n == 0x1680 || (0x2000 <= n
        && n <= 0x200A) || n == 0x2028 || n == 0x2029 || n == 0x202F || n == 0x205F || n == 0x3000
}

/// What a scan stops at.
#[derive(Clone, Copy, Debug)]
pub enum Stop {
    /// A line feed.
    LineFeed,
    /// Any white space.
    Space,
    /// Anything but white space.
    Word,
}

/// Whether a scan for `stop` halts on `c`.
pub open spec fn halts(stop: Stop, c: char) -> bool {
    match stop {
        Stop::LineFeed => c == '\n',
        Stop::Space => is_space(c),
        Stop::Word => !is_space(c),
    }
}

/// The least index at or after `from` whose character halts a scan for
/// `stop`, or the length of `s` where none does.
pub open spec fn first_stop(s: Seq<char>, from: int, stop: Stop) -> int
    decreases s.len() - from,
{
    if from < 0 || from >= s.len() {
        s.len() as int
    } else if halts(stop, s[from]) {
        from
    } else {
        first_stop(s, from + 1, stop)
    }
}

/// `first_stop` lies between `from` and the end, nothing before it halts the
/// scan, and the character at it does.
pub proof fn lemma_first_stop(s: Seq<char>, from: int, stop: Stop)
    requires
        0 <= from <= s.len(),
    ensures
        from <= first_stop(s, from, stop) <= s.len(),
        forall|j: int| from <= j < first_stop(s, from, stop) ==> !halts(stop, #[trigger] s[j]),
        first_stop(s, from, stop) < s.len() ==> halts(stop, s[first_stop(s, from, stop)]),
    decreases s.len() - from,
{
    if from < s.len() && !halts(stop, s[from]) {
        lemma_first_stop(s, from + 1, stop);
    }
}

/// Any index with the three properties of `lemma_first_stop` is `first_stop`.
pub proof fn lemma_first_stop_unique(s: Seq<char>, from: int, stop: Stop, at: int)
    requires
        0 <= from <= at <= s.len(),
        forall|j: int| from <= j < at ==> !halts(stop, #[trigger] s[j]),
        at < s.len() ==> halts(stop, s[at]),
    ensures
        first_stop(s, from, stop) == at,
    decreases at - from,
{
    if from < at {
        lemma_first_stop_unique(s, from + 1, stop, at);
    }
}

/// Decides `halts`.
pub fn stops_at(stop: Stop, c: char) -> (r: bool)
    ensures
        r == halts(stop, c),
{
    match stop {
        Stop::LineFeed => c == '\n',
        Stop::Space => is_whitespace(c),
        Stop::Word => !is_whitespace(c),
    }
}

/// Computes `first_stop`.
pub fn scan(s: &[char], from: usize, stop: Stop) -> (at: usize)
    requires
        from <= s@.len(),
    ensures
        at == first_stop(s@, from as int, stop),
        from <= at <= s@.len(),
        forall|j: int| from <= j < at ==> !halts(stop, #[trigger] s@[j]),
        at < s@.len() ==> halts(stop, s@[at as int]),
{
    proof {
        lemma_first_stop(s@, from as int, stop);
    }
    let mut i: usize = from;
    while i < s.len() && !stops_at(stop, s[i])
        invariant
            from <= i <= s@.len(),
            first_stop(s@, from as int, stop) == first_stop(s@, i as int, stop),
        decreases s@.len() - i,
    {
        i += 1;
    }
    i
}

/// The text of `s` before its first line feed; all of `s` where it has none.
pub open spec fn first_line(s: Seq<char>) -> Seq<char> {
    s.subrange(0, first_stop(s, 0, Stop::LineFeed))
}

/// The first line opens `s`, holds no line feed, and ends where `s` ends or
/// holds a line feed.
pub proof fn lemma_first_line(s: Seq<char>)
    ensures
        first_line(s).is_prefix_of(s),
        forall|j: int| 0 <= j < first_line(s).len() ==> #[trigger] first_line(s)[j] != '\n',
        first_line(s).len() < s.len() ==> s[first_line(s).len() as int] == '\n',
{
    lemma_first_stop(s, 0, Stop::LineFeed);
    let end = first_stop(s, 0, Stop::LineFeed);
    assert forall|j: int| 0 <= j < first_line(s).len() implies #[trigger] first_line(s)[j]
        != '\n' by {
        assert(!halts(Stop::LineFeed, s[j]));
    }
}

/// Where the first white-space-separated word of `s` begins and ends, as a
/// half-open range of indices; `None` where `s` holds nothing but white space.
pub open spec fn first_word_span(s: Seq<char>) -> Option<(int, int)> {
    let first = first_stop(s, 0, Stop::Word);
    if first < s.len() {
        Some((first, first_stop(s, first, Stop::Space)))
    } else {
        None
    }
}

/// The first white-space-separated word of `s`.
pub open spec fn first_word(s: Seq<char>) -> Option<Seq<char>> {
    match first_word_span(s) {
        Some((a, b)) => Some(s.subrange(a, b)),
        None => None,
    }
}

/// A span found by `first_word_span` is a non-empty run of characters that
/// are not white space, with nothing but white space before it and white
/// space or the end of `s` behind it.
pub proof fn lemma_first_word_span(s: Seq<char>)
    ensures
        match first_word_span(s) {
            Some((a, b)) => {
                &&& 0 <= a < b <= s.len()
                &&& forall|j: int| 0 <= j < a ==> is_space(#[trigger] s[j])
                &&& b < s.len() ==> is_space(s[b])
                &&& forall|j: int| a <= j < b ==> !is_space(#[trigger] s[j])
            },
            None => forall|j: int| 0 <= j < s.len() ==> is_space(#[trigger] s[j]),
        },
{
    let first = first_stop(s, 0, Stop::Word);
    lemma_first_stop(s, 0, Stop::Word);
    assert forall|j: int| 0 <= j < first implies is_space(#[trigger] s[j]) by {
        assert(!halts(Stop::Word, s[j]));
    }
    if first < s.len() {
        lemma_first_stop(s, first, Stop::Space);
        assert(halts(Stop::Word, s[first]));
        assert forall|j: int| first <= j < first_stop(s, first, Stop::Space) implies !is_space(
            #[trigger] s[j],
        ) by {
            assert(!halts(Stop::Space, s[j]));
        }
    }
}

/// Computes `first_word_span`.
pub fn find_first_word(s: &[char]) -> (span: Option<(usize, usize)>)
    ensures
        match span {
            Some((a, b)) => first_word_span(s@) == Some((a as int, b as int)) && a < b <= s@.len(),
            None => first_word_span(s@) is None,
        },
{
    proof {
        lemma_first_word_span(s@);
    }
    let first = scan(s, 0, Stop::Word);
    if first < s.len() {
        let end = scan(s, first, Stop::Space);
        Some((first, end))
    } else {
        None
    }
}

/// Where the second white-space-separated word of `s` begins and ends, as a
/// half-open range of indices; `None` where `s` has fewer than two words.
pub open spec fn second_word_span(s: Seq<char>) -> Option<(int, int)> {
    let first = first_stop(s, 0, Stop::Word);
    let gap = first_stop(s, first, Stop::Space);
    let second = first_stop(s, gap, Stop::Word);
    if second < s.len() {
        Some((second, first_stop(s, second, Stop::Space)))
    } else {
        None
    }
}

/// The second white-space-separated word of `s`.
pub open spec fn second_word(s: Seq<char>) -> Option<Seq<char>> {
    match second_word_span(s) {
        Some((a, b)) => Some(s.subrange(a, b)),
        None => None,
    }
}

/// A span found by `second_word_span` is a non-empty run of characters that
/// are not white space, bounded by white space or the ends of `s`.
pub proof fn lemma_second_word_span(s: Seq<char>)
    ensures
        match second_word_span(s) {
            Some((a, b)) => {
                &&& 0 < a < b <= s.len()
                &&& is_space(s[a - 1])
                &&& b < s.len() ==> is_space(s[b])
                &&& forall|j: int| a <= j < b ==> !is_space(#[trigger] s[j])
            },
            None => true,
        },
{
    let first = first_stop(s, 0, Stop::Word);
    lemma_first_stop(s, 0, Stop::Word);
    let gap = first_stop(s, first, Stop::Space);
    lemma_first_stop(s, first, Stop::Space);
    let second = first_stop(s, gap, Stop::Word);
    lemma_first_stop(s, gap, Stop::Word);
    if second < s.len() {
        lemma_first_stop(s, second, Stop::Space);
        assert(halts(Stop::Word, s[second]));
        assert(first < s.len());
        assert(halts(Stop::Word, s[first]));
        assert(gap > first);
        if second == gap {
            assert(halts(Stop::Space, s[gap]));
        } else {
            assert(!halts(Stop::Word, s[second - 1]));
        }
        assert forall|j: int| second <= j < first_stop(s, second, Stop::Space) implies !is_space(
            #[trigger] s[j],
        ) by {
            assert(!halts(Stop::Space, s[j]));
        }
    }
}

/// Computes `second_word_span`.
pub fn find_second_word(s: &[char]) -> (span: Option<(usize, usize)>)
    ensures
        match span {
            Some((a, b)) => second_word_span(s@) == Some((a as int, b as int)) && a < b <= s@.len(),
            None => second_word_span(s@) is None,
        },
{
    proof {
        lemma_second_word_span(s@);
    }
    let first = scan(s, 0, Stop::Word);
    let gap = scan(s, first, Stop::Space);
    let second = scan(s, gap, Stop::Word);
    if second < s.len() {
        let end = scan(s, second, Stop::Space);
        Some((second, end))
    } else {
        None
    }
}

/// Whether `needle` stands in `hay` at index `at`.
pub open spec fn occurs_at(hay: Seq<char>, needle: Seq<char>, at: int) -> bool {
    &&& 0 <= at
    &&& at + needle.len() <= hay.len()
    &&& hay.subrange(at, at + needle.len()) == needle
}

/// Decides `occurs_at`.
pub fn matches_at(hay: &[char], needle: &[char], at: usize) -> (r: bool)
    requires
        at + needle@.len() <= hay@.len(),
    ensures
        r == occurs_at(hay@, needle@, at as int),
{
    let len: usize = hay.len();
    let mut k: usize = 0;
    while k < needle.len()
        invariant
            k <= needle@.len(),
            at + needle@.len() <= hay@.len(),
            len == hay@.len(),
            forall|j: int| 0 <= j < k ==> hay@[at + j] == needle@[j],
        decreases needle@.len() - k,
    {
        if hay[at + k] != needle[k] {
            proof {
                let window = hay@.subrange(at as int, at + needle@.len());
                assert(window[k as int] != needle@[k as int]);
            }
            return false;
        }
        k += 1;
    }
    assert(hay@.subrange(at as int, at + needle@.len()) =~= needle@);
    true
}

/// Whether the characters of `s` from `a` up to `b` are exactly `word`.
pub fn span_is(s: &[char], a: usize, b: usize, word: &[char]) -> (r: bool)
    requires
        a <= b <= s@.len(),
    ensures
        r == (s@.subrange(a as int, b as int) == word@),
{
    if b - a != word.len() {
        assert(s@.subrange(a as int, b as int).len() != word@.len());
        return false;
    }
    matches_at(s, word, a)
}

/// Whether the characters of `s` from `a` up to `b` begin with `prefix`.
pub fn span_starts_with(s: &[char], a: usize, b: usize, prefix: &[char]) -> (r: bool)
    requires
        a <= b <= s@.len(),
    ensures
        r == prefix@.is_prefix_of(s@.subrange(a as int, b as int)),
{
    if prefix.len() > b - a {
        return false;
    }
    assert(s@.subrange(a as int, b as int).subrange(0, prefix@.len() as int) =~= s@.subrange(
        a as int,
        a + prefix@.len(),
    ));
    matches_at(s, prefix, a)
}

} // verus!
