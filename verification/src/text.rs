//! Searching and slicing text by character position.
//!
//! Every position in this module counts characters, not bytes, so the
//! contracts can be stated over the `Seq<char>` view of a string.
use vstd::prelude::*;
use vstd::string::*;

verus! {

/// The character sequences of a list of strings.
pub open spec fn texts_of(list: Seq<String>) -> Seq<Seq<char>> {
    Seq::new(list.len(), |k: int| list[k]@)
}

/// The character sequence of an optional string.
pub open spec fn text_of(text: Option<String>) -> Option<Seq<char>> {
    match text {
        Some(t) => Some(t@),
        None => None,
    }
}

/// `needle` occurs in `hay` starting at character position `i`.
pub open spec fn matches_at(hay: Seq<char>, needle: Seq<char>, i: int) -> bool {
    &&& 0 <= i
    &&& i + needle.len() <= hay.len()
    &&& hay.subrange(i, i + needle.len()) == needle
}

/// The smallest position at or after `start` where `needle` occurs in `hay`.
pub open spec fn find_from(hay: Seq<char>, needle: Seq<char>, start: int) -> Option<int>
    decreases hay.len() - start + 1,
{
    if start < 0 || start + needle.len() > hay.len() {
        None
    } else if matches_at(hay, needle, start) {
        Some(start)
    } else {
        find_from(hay, needle, start + 1)
    }
}

/// The position of the first occurrence of `needle` in `hay`.
pub open spec fn find_first(hay: Seq<char>, needle: Seq<char>) -> Option<int> {
    find_from(hay, needle, 0)
}

/// The largest position at or before `start` where `needle` occurs in `hay`.
pub open spec fn rfind_from(hay: Seq<char>, needle: Seq<char>, start: int) -> Option<int>
    decreases start + 1,
{
    if start < 0 {
        None
    } else if matches_at(hay, needle, start) {
        Some(start)
    } else {
        rfind_from(hay, needle, start - 1)
    }
}

/// The position of the last occurrence of `needle` in `hay`.
pub open spec fn find_last(hay: Seq<char>, needle: Seq<char>) -> Option<int> {
    rfind_from(hay, needle, hay.len() - needle.len())
}

/// `find_from` returns the least match at or after `start`, and `None` only
/// when there is none.
pub proof fn lemma_find_from(hay: Seq<char>, needle: Seq<char>, start: int)
    requires
        0 <= start,
    ensures
        match find_from(hay, needle, start) {
            Some(i) => start <= i && matches_at(hay, needle, i) && forall|j: int|
                start <= j < i ==> !matches_at(hay, needle, j),
            None => forall|j: int| start <= j ==> !matches_at(hay, needle, j),
        },
    decreases hay.len() - start + 1,
{
    if start + needle.len() > hay.len() {
    } else if matches_at(hay, needle, start) {
    } else {
        lemma_find_from(hay, needle, start + 1);
    }
}

/// `rfind_from` returns the greatest match at or before `start`, and `None`
/// only when there is none.
pub proof fn lemma_rfind_from(hay: Seq<char>, needle: Seq<char>, start: int)
    ensures
        match rfind_from(hay, needle, start) {
            Some(i) => 0 <= i <= start && matches_at(hay, needle, i) && forall|j: int|
                i < j <= start ==> !matches_at(hay, needle, j),
            None => forall|j: int| 0 <= j <= start ==> !matches_at(hay, needle, j),
        },
    decreases start + 1,
{
    if start < 0 {
    } else if matches_at(hay, needle, start) {
    } else {
        lemma_rfind_from(hay, needle, start - 1);
    }
}

/// The characters of `s`, in order.
pub fn chars_of(s: &str) -> (out: Vec<char>)
    ensures
        out@ == s@,
{
    let n: usize = s.unicode_len();
    let mut out: Vec<char> = Vec::new();
    let mut i: usize = 0;
    while i < n
        invariant
            n == s@.len(),
            i <= n,
            out@ == s@.subrange(0, i as int),
        decreases n - i,
    {
        out.push(s.get_char(i));
        i = i + 1;
        assert(out@ =~= s@.subrange(0, i as int));
    }
    assert(s@.subrange(0, n as int) =~= s@);
    out
}

/// Whether `needle` occurs in `hay` at position `at`.
pub fn occurs_at(hay: &Vec<char>, needle: &Vec<char>, at: usize) -> (found: bool)
    ensures
        found == matches_at(hay@, needle@, at as int),
{
    if needle.len() > hay.len() || at > hay.len() - needle.len() {
        return false;
    }
    let mut k: usize = 0;
    while k < needle.len()
        invariant
            k <= needle.len(),
            at + needle.len() <= hay.len(),
            forall|j: int| 0 <= j < k ==> hay@[at + j] == needle@[j],
        decreases needle.len() - k,
    {
        if hay[at + k] != needle[k] {
            assert(hay@.subrange(at as int, at + needle@.len())[k as int] == hay@[at + k]);
            return false;
        }
        k = k + 1;
    }
    assert(hay@.subrange(at as int, at + needle@.len()) =~= needle@);
    true
}

/// Position of the first occurrence of `needle` in `hay` at or after `start`.
pub fn find_chars_from(hay: &Vec<char>, needle: &Vec<char>, start: usize) -> (pos: Option<usize>)
    ensures
        match pos {
            Some(i) => find_from(hay@, needle@, start as int) == Some(i as int),
            None => find_from(hay@, needle@, start as int).is_none(),
        },
{
    if needle.len() > hay.len() || start > hay.len() - needle.len() {
        return None;
    }
    let last: usize = hay.len() - needle.len();
    let mut i: usize = start;
    loop
        invariant
            start <= i <= last,
            last == hay.len() - needle.len(),
            find_from(hay@, needle@, start as int) == find_from(hay@, needle@, i as int),
        decreases last - i,
    {
        if occurs_at(hay, needle, i) {
            return Some(i);
        }
        if i == last {
            assert(find_from(hay@, needle@, i + 1).is_none());
            return None;
        }
        i = i + 1;
    }
}

/// Position of the first occurrence of `needle` in `hay`.
pub fn find_chars(hay: &Vec<char>, needle: &Vec<char>) -> (pos: Option<usize>)
    ensures
        match pos {
            Some(i) => find_first(hay@, needle@) == Some(i as int),
            None => find_first(hay@, needle@).is_none(),
        },
{
    find_chars_from(hay, needle, 0)
}

/// Position of the last occurrence of `needle` in `hay`.
pub fn rfind_chars(hay: &Vec<char>, needle: &Vec<char>) -> (pos: Option<usize>)
    ensures
        match pos {
            Some(i) => find_last(hay@, needle@) == Some(i as int),
            None => find_last(hay@, needle@).is_none(),
        },
{
    if needle.len() > hay.len() {
        return None;
    }
    let mut i: usize = hay.len() - needle.len();
    loop
        invariant
            i <= hay.len() - needle.len(),
            needle.len() <= hay.len(),
            find_last(hay@, needle@) == rfind_from(hay@, needle@, i as int),
        decreases i,
    {
        if occurs_at(hay, needle, i) {
            return Some(i);
        }
        if i == 0 {
            assert(rfind_from(hay@, needle@, -1).is_none());
            return None;
        }
        i = i - 1;
    }
}

/// Whether `needle` occurs anywhere in `hay`.
pub fn contains_chars(hay: &Vec<char>, needle: &Vec<char>) -> (found: bool)
    ensures
        found == find_first(hay@, needle@).is_some(),
{
    find_chars(hay, needle).is_some()
}

/// Whether two strings hold the same characters.
pub fn same_text(a: &str, b: &str) -> (same: bool)
    ensures
        same == (a@ == b@),
{
    let x = chars_of(a);
    let y = chars_of(b);
    if x.len() != y.len() {
        return false;
    }
    let mut i: usize = 0;
    while i < x.len()
        invariant
            i <= x.len(),
            x.len() == y.len(),
            x@ == a@,
            y@ == b@,
            forall|j: int| 0 <= j < i ==> x@[j] == y@[j],
        decreases x.len() - i,
    {
        if x[i] != y[i] {
            return false;
        }
        i = i + 1;
    }
    assert(x@ =~= y@);
    true
}

/// The characters of `s` from position `from` up to, not including, `to`.
pub fn slice_text(s: &str, from: usize, to: usize) -> (out: String)
    requires
        from <= to <= s@.len(),
    ensures
        out@ == s@.subrange(from as int, to as int),
{
    s.substring_char(from, to).to_owned()
}

/// `c` is white space, as Unicode defines it.
pub open spec fn is_space(c: char) -> bool {
    let code = c as u32;
    9 <= code <= 13 || code == 32 || code == 0x85 || code == 0xA0 || code == 0x1680 || 0x2000
        <= code <= 0x200A || code == 0x2028 || code == 0x2029 || code == 0x202F || code == 0x205F
        || code == 0x3000
}

/// The first position at or after `from` that holds no white space; the
/// length of `text` if there is none.
pub open spec fn content_start(text: Seq<char>, from: int) -> int
    decreases text.len() - from + 1,
{
    if from < 0 || from >= text.len() {
        text.len() as int
    } else if !is_space(text[from]) {
        from
    } else {
        content_start(text, from + 1)
    }
}

/// The end of the last stretch before `to` that holds no white space; zero
/// if there is none.
pub open spec fn content_end(text: Seq<char>, to: int) -> int
    decreases to,
{
    if to <= 0 || to > text.len() {
        0
    } else if !is_space(text[to - 1]) {
        to
    } else {
        content_end(text, to - 1)
    }
}

/// `text` without the white space at its beginning and at its end.
pub open spec fn trimmed(text: Seq<char>) -> Seq<char> {
    let start = content_start(text, 0);
    let end = content_end(text, text.len() as int);
    if start >= end {
        Seq::empty()
    } else {
        text.subrange(start, end)
    }
}

/// The pieces of `text` between its line breaks, in order. A text without
/// line break is one piece; a line break at the end leaves an empty piece
/// behind it.
pub open spec fn split_lines(text: Seq<char>) -> Seq<Seq<char>>
    decreases text.len(),
{
    if text.len() == 0 {
        seq![Seq::empty()]
    } else {
        let init = split_lines(text.drop_last());
        if text.last() == '\n' {
            init.push(Seq::empty())
        } else {
            init.drop_last().push(init.last().push(text.last()))
        }
    }
}

/// Whether `c` is white space.
pub fn is_white_space(c: char) -> (space: bool)
    ensures
        space == is_space(c),
{
    let code: u32 = c as u32;
    (9 <= code && code <= 13) || code == 32 || code == 0x85 || code == 0xA0 || code == 0x1680 || (
    0x2000 <= code && code <= 0x200A) || code == 0x2028 || code == 0x2029 || code == 0x202F
        || code == 0x205F || code == 0x3000
}

/// `s` without the white space at its beginning and at its end.
pub fn trim_text(s: &str) -> (out: String)
    ensures
        out@ == trimmed(s@),
{
    let chars = chars_of(s);
    let mut start: usize = 0;
    while start < chars.len() && is_white_space(chars[start])
        invariant
            start <= chars.len(),
            content_start(chars@, 0) == content_start(chars@, start as int),
        decreases chars.len() - start,
    {
        start = start + 1;
    }
    let mut end: usize = chars.len();
    while end > 0 && is_white_space(chars[end - 1])
        invariant
            end <= chars.len(),
            content_end(chars@, chars@.len() as int) == content_end(chars@, end as int),
        decreases end,
    {
        end = end - 1;
    }
    if start >= end {
        String::new()
    } else {
        slice_text(s, start, end)
    }
}

/// The pieces of `s` between its line breaks, in order.
pub fn lines_of_text(s: &str) -> (lines: Vec<String>)
    ensures
        texts_of(lines@) == split_lines(s@),
{
    let chars = chars_of(s);
    let mut lines: Vec<String> = Vec::new();
    let mut start: usize = 0;
    let mut i: usize = 0;
    assert(s@.subrange(0, 0) =~= Seq::<char>::empty());
    assert(texts_of(lines@).push(s@.subrange(0, 0)) =~= split_lines(s@.subrange(0, 0)));
    while i < chars.len()
        invariant
            start <= i <= chars.len(),
            chars@ == s@,
            texts_of(lines@).push(s@.subrange(start as int, i as int)) == split_lines(
                s@.subrange(0, i as int),
            ),
        decreases chars.len() - i,
    {
        let ghost done = texts_of(lines@);
        let ghost part = s@.subrange(start as int, i as int);
        let ghost longer = s@.subrange(0, i + 1);
        assert(longer.drop_last() =~= s@.subrange(0, i as int));
        assert(longer.last() == s@[i as int]);
        assert(done.push(part).drop_last() =~= done);
        if chars[i] == '\n' {
            lines.push(slice_text(s, start, i));
            start = i + 1;
            assert(texts_of(lines@) =~= done.push(part));
            assert(s@.subrange(start as int, i + 1) =~= Seq::<char>::empty());
        } else {
            assert(s@.subrange(start as int, i + 1) =~= part.push(s@[i as int]));
        }
        i = i + 1;
    }
    let ghost done = texts_of(lines@);
    lines.push(slice_text(s, start, i));
    assert(texts_of(lines@) =~= done.push(s@.subrange(start as int, i as int)));
    assert(s@.subrange(0, i as int) =~= s@);
    lines
}

} // verus!
