//! Characters and character sequences: white space, letter case, trimming, and
//! the conversions between strings and vectors of characters.
use vstd::prelude::*;

verus! {

/// `String::push` appends one character to the end of the string.
pub assume_specification[ String::push ](s: &mut String, c: char)
    ensures
        final(s)@ == old(s)@.push(c),
;

/// White space as Unicode defines it (the property `White_Space`).
pub open spec fn is_space(c: char) -> bool {
    ('\u{0009}' <= c && c <= '\u{000D}') || c == ' ' || c == '\u{0085}' || c == '\u{00A0}' || c
        == '\u{1680}' || ('\u{2000}' <= c && c <= '\u{200A}') || c == '\u{2028}' || c
        == '\u{2029}' || c == '\u{202F}' || c == '\u{205F}' || c == '\u{3000}'
}

/// Computes [`is_space`].
pub fn char_is_space(c: char) -> (space: bool)
    ensures
        space == is_space(c),
{
    ('\u{0009}' <= c && c <= '\u{000D}') || c == ' ' || c == '\u{0085}' || c == '\u{00A0}' || c
        == '\u{1680}' || ('\u{2000}' <= c && c <= '\u{200A}') || c == '\u{2028}' || c
        == '\u{2029}' || c == '\u{202F}' || c == '\u{205F}' || c == '\u{3000}'
}

/// The lower-case form of an ASCII capital letter; any other character itself.
pub open spec fn lower(c: char) -> char {
    if 'A' <= c && c <= 'Z' {
        ((c as u8) + 32) as char
    } else {
        c
    }
}

/// Computes [`lower`].
pub fn char_lower(c: char) -> (low: char)
    ensures
        low == lower(c),
{
    if 'A' <= c && c <= 'Z' {
        ((c as u8) + 32) as char
    } else {
        c
    }
}

/// Equality of two texts when ASCII letters count the same in either case.
pub open spec fn eq_ignore_case(a: Seq<char>, b: Seq<char>) -> bool {
    &&& a.len() == b.len()
    &&& forall|i: int| 0 <= i < a.len() ==> lower(#[trigger] a[i]) == lower(b[i])
}

/// The characters of a string, in a vector.
pub fn to_chars(s: &str) -> (chars: Vec<char>)
    ensures
        chars@ == s@,
{
    let mut chars: Vec<char> = Vec::new();
    for c in it: s.chars()
        invariant
            chars@ == it.seq().take(it.index() as int),
            it.seq() == s@,
    {
        chars.push(c);
    }
    chars
}

/// The characters `chars[from..to]` as a string.
pub fn to_string(chars: &Vec<char>, from: usize, to: usize) -> (s: String)
    requires
        from <= to <= chars.len(),
    ensures
        s@ == chars@.subrange(from as int, to as int),
{
    let mut s = String::new();
    let mut i: usize = from;
    while i < to
        invariant
            from <= i <= to <= chars.len(),
            s@ == chars@.subrange(from as int, i as int),
        decreases to - i,
    {
        s.push(chars[i]);
        i += 1;
    }
    s
}

/// Computes [`eq_ignore_case`] on vectors of characters.
pub fn chars_eq_ignore_case(a: &Vec<char>, b: &Vec<char>) -> (equal: bool)
    ensures
        equal == eq_ignore_case(a@, b@),
{
    if a.len() != b.len() {
        return false;
    }
    let mut i: usize = 0;
    while i < a.len()
        invariant
            i <= a.len() == b.len(),
            forall|j: int| 0 <= j < i ==> lower(#[trigger] a@[j]) == lower(b@[j]),
        decreases a.len() - i,
    {
        if char_lower(a[i]) != char_lower(b[i]) {
            return false;
        }
        i += 1;
    }
    true
}

/// Computes [`eq_ignore_case`] on strings.
pub fn str_eq_ignore_case(a: &str, b: &str) -> (equal: bool)
    ensures
        equal == eq_ignore_case(a@, b@),
{
    let a_chars = to_chars(a);
    let b_chars = to_chars(b);
    chars_eq_ignore_case(&a_chars, &b_chars)
}

/// The place of the first character of `s` of which `p` holds; the length of
/// `s` if there is none.
pub open spec fn first_where(s: Seq<char>, p: spec_fn(char) -> bool) -> int
    decreases s.len(),
{
    if s.len() == 0 || p(s[0]) {
        0
    } else {
        1 + first_where(s.drop_first(), p)
    }
}

/// The place behind the last character of `s` of which `p` holds; zero if
/// there is none.
pub open spec fn end_where(s: Seq<char>, p: spec_fn(char) -> bool) -> int
    decreases s.len(),
{
    if s.len() == 0 {
        0
    } else if p(s.last()) {
        s.len() as int
    } else {
        end_where(s.drop_last(), p)
    }
}

/// [`first_where`] gives a place in `s` or its end, `p` holds there if it is
/// a place in `s`, and `p` holds nowhere before it.
pub proof fn lemma_first_where(s: Seq<char>, p: spec_fn(char) -> bool)
    ensures
        0 <= first_where(s, p) <= s.len(),
        first_where(s, p) < s.len() ==> p(s[first_where(s, p)]),
        forall|i: int| 0 <= i < first_where(s, p) ==> !p(#[trigger] s[i]),
    decreases s.len(),
{
    if s.len() > 0 && !p(s[0]) {
        let rest = s.drop_first();
        lemma_first_where(rest, p);
        assert forall|i: int| 0 <= i < first_where(s, p) implies !p(#[trigger] s[i]) by {
            if i > 0 {
                assert(rest[i - 1] == s[i]);
            }
        }
    }
}

/// A place before which `p` holds nowhere, and which is the end of `s` or a
/// place where `p` holds, is the place that [`first_where`] gives.
pub proof fn lemma_first_where_is(s: Seq<char>, p: spec_fn(char) -> bool, place: int)
    requires
        0 <= place <= s.len(),
        forall|i: int| 0 <= i < place ==> !p(#[trigger] s[i]),
        place < s.len() ==> p(s[place]),
    ensures
        first_where(s, p) == place,
{
    lemma_first_where(s, p);
    let found = first_where(s, p);
    if found < place {
        assert(!p(s[found]));
    }
    if place < found {
        assert(!p(s[place]));
    }
}

/// [`end_where`] gives a place in `s` or its end, `p` holds just before it
/// unless it is zero, and `p` holds nowhere from it on.
pub proof fn lemma_end_where(s: Seq<char>, p: spec_fn(char) -> bool)
    ensures
        0 <= end_where(s, p) <= s.len(),
        end_where(s, p) > 0 ==> p(s[end_where(s, p) - 1]),
        forall|i: int| end_where(s, p) <= i < s.len() ==> !p(#[trigger] s[i]),
    decreases s.len(),
{
    if s.len() > 0 && !p(s.last()) {
        let front = s.drop_last();
        lemma_end_where(front, p);
        assert forall|i: int| end_where(s, p) <= i < s.len() implies !p(#[trigger] s[i]) by {
            if i < s.len() - 1 {
                assert(front[i] == s[i]);
            }
        }
    }
}

/// A place from which on `p` holds nowhere, and which is zero or has `p`
/// holding just before it, is the place that [`end_where`] gives.
pub proof fn lemma_end_where_is(s: Seq<char>, p: spec_fn(char) -> bool, place: int)
    requires
        0 <= place <= s.len(),
        forall|i: int| place <= i < s.len() ==> !p(#[trigger] s[i]),
        place > 0 ==> p(s[place - 1]),
    ensures
        end_where(s, p) == place,
{
    lemma_end_where(s, p);
    let found = end_where(s, p);
    if found < place {
        assert(!p(s[place - 1]));
    }
    if place < found {
        assert(!p(s[found - 1]));
    }
}

/// The text without the white space at its start.
pub open spec fn trim_start(s: Seq<char>) -> Seq<char> {
    s.skip(first_where(s, |c: char| !is_space(c)))
}

/// The text without the white space at its end.
pub open spec fn trim_end(s: Seq<char>) -> Seq<char> {
    s.take(end_where(s, |c: char| !is_space(c)))
}

/// The text without the white space at its start and at its end.
pub open spec fn trim(s: Seq<char>) -> Seq<char> {
    trim_end(trim_start(s))
}

/// Where `chars[from..to]` begins once the white space at its start is cut.
pub fn skip_spaces(chars: &Vec<char>, from: usize, to: usize) -> (start: usize)
    requires
        from <= to <= chars.len(),
    ensures
        from <= start <= to,
        chars@.subrange(start as int, to as int) == trim_start(
            chars@.subrange(from as int, to as int),
        ),
{
    let ghost s = chars@.subrange(from as int, to as int);
    let mut start: usize = from;
    while start < to && char_is_space(chars[start])
        invariant
            from <= start <= to <= chars.len(),
            s == chars@.subrange(from as int, to as int),
            forall|i: int| 0 <= i < start - from ==> is_space(#[trigger] s[i]),
        decreases to - start,
    {
        start += 1;
    }
    proof {
        lemma_first_where_is(s, |c: char| !is_space(c), start - from);
        assert(chars@.subrange(start as int, to as int) =~= s.skip(start - from));
    }
    start
}

/// Where `chars[from..to]` ends once the white space at its end is cut.
pub fn skip_spaces_back(chars: &Vec<char>, from: usize, to: usize) -> (end: usize)
    requires
        from <= to <= chars.len(),
    ensures
        from <= end <= to,
        chars@.subrange(from as int, end as int) == trim_end(
            chars@.subrange(from as int, to as int),
        ),
{
    let ghost s = chars@.subrange(from as int, to as int);
    let mut end: usize = to;
    while end > from && char_is_space(chars[end - 1])
        invariant
            from <= end <= to <= chars.len(),
            s == chars@.subrange(from as int, to as int),
            forall|i: int| end - from <= i < s.len() ==> is_space(#[trigger] s[i]),
        decreases end - from,
    {
        end -= 1;
    }
    proof {
        lemma_end_where_is(s, |c: char| !is_space(c), end - from);
        assert(chars@.subrange(from as int, end as int) =~= s.take(end - from));
    }
    end
}

/// The bounds of `chars[from..to]` once the white space at both ends is cut.
pub fn trim_bounds(chars: &Vec<char>, from: usize, to: usize) -> (bounds: (usize, usize))
    requires
        from <= to <= chars.len(),
    ensures
        from <= bounds.0 <= bounds.1 <= to,
        chars@.subrange(bounds.0 as int, bounds.1 as int) == trim(
            chars@.subrange(from as int, to as int),
        ),
{
    let start = skip_spaces(chars, from, to);
    let end = skip_spaces_back(chars, start, to);
    (start, end)
}

} // verus!
