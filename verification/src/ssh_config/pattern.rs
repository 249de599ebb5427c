//! Host patterns: which of them are wildcards, the regular expression that a
//! wildcard stands for, and the question whether one applies to a host name.
use crate::text::to_chars;
use vstd::prelude::*;

verus! {

/// Whether `regex::Regex::new` accepts `source` as a regular expression.
pub uninterp spec fn regex_compiles(source: Seq<char>) -> bool;

/// Whether the regular expression that `regex::Regex::new` makes of `source`
/// matches somewhere in `text`, as `regex::Regex::is_match` tells.
pub uninterp spec fn regex_matches(source: Seq<char>, text: Seq<char>) -> bool;

/// Calls `regex::Regex::new` and tells whether it returned a regular
/// expression rather than an error.
#[verifier::external_body]
fn compiles(source: &str) -> (accepted: bool)
    ensures
        accepted == regex_compiles(source@),
{
    regex::Regex::new(source).is_ok()
}

/// Calls `regex::Regex::new` on `source` and, where that gives a regular
/// expression, `regex::Regex::is_match` on `text`: the answer of `is_match`, or
/// nothing where `source` is not accepted.
#[verifier::external_body]
fn is_match(source: &str, text: &str) -> (found: Option<bool>)
    ensures
        found == if regex_compiles(source@) {
            Some(regex_matches(source@, text@))
        } else {
            None::<bool>
        },
{
    match regex::Regex::new(source) {
        Ok(regex) => Some(regex.is_match(text)),
        Err(_) => None,
    }
}

/// A pattern with `*`, `?` or `!` in it is a wildcard; any other is a plain name.
pub open spec fn is_wildcard(pattern: Seq<char>) -> bool {
    pattern.contains('*') || pattern.contains('?') || pattern.contains('!')
}

/// A pattern that begins with `!` is negated.
pub open spec fn is_negated(pattern: Seq<char>) -> bool {
    pattern.len() > 0 && pattern[0] == '!'
}

/// What one character of a pattern becomes in its regular expression: a dot
/// is escaped, `*` stands for any text, `?` for any one character.
pub open spec fn translate(c: char) -> Seq<char> {
    if c == '.' {
        seq!['\\', '.']
    } else if c == '*' {
        seq!['.', '*']
    } else if c == '?' {
        seq!['.']
    } else {
        seq![c]
    }
}

/// The characters of a pattern, each translated.
pub open spec fn translated(pattern: Seq<char>) -> Seq<char>
    decreases pattern.len(),
{
    if pattern.len() == 0 {
        Seq::empty()
    } else {
        translated(pattern.drop_last()) + translate(pattern.last())
    }
}

/// The regular expression of a pattern: the pattern without its leading `!`,
/// translated, between `^` and `$`.
pub open spec fn regex_source(pattern: Seq<char>) -> Seq<char> {
    let body = if is_negated(pattern) {
        pattern.drop_first()
    } else {
        pattern
    };
    seq!['^'] + translated(body) + seq!['$']
}

/// Whether a wildcard pattern applies to a host name: its regular expression
/// matches the name, or, for a negated pattern, does not.
pub open spec fn pattern_applies(pattern: Seq<char>, name: Seq<char>) -> bool {
    is_wildcard(pattern) && regex_matches(regex_source(pattern), name) != is_negated(pattern)
}

/// The wildcards among the patterns, each as its regular expression and
/// whether it is negated, in the order of the patterns.
pub open spec fn matchers(patterns: Seq<Seq<char>>) -> Seq<(Seq<char>, bool)>
    decreases patterns.len(),
{
    if patterns.len() == 0 {
        Seq::empty()
    } else {
        let rest = matchers(patterns.drop_last());
        let pattern = patterns.last();
        if is_wildcard(pattern) {
            rest.push((regex_source(pattern), is_negated(pattern)))
        } else {
            rest
        }
    }
}

/// Computes [`is_wildcard`].
pub fn has_wildcard(pattern: &str) -> (wildcard: bool)
    ensures
        wildcard == is_wildcard(pattern@),
{
    let chars = to_chars(pattern);
    let mut i: usize = 0;
    while i < chars.len()
        invariant
            i <= chars.len(),
            chars@ == pattern@,
            forall|j: int| 0 <= j < i ==> chars[j] != '*' && chars[j] != '?' && chars[j] != '!',
        decreases chars.len() - i,
    {
        if chars[i] == '*' || chars[i] == '?' || chars[i] == '!' {
            return true;
        }
        i += 1;
    }
    false
}

/// Computes [`is_negated`].
pub fn starts_negated(pattern: &str) -> (negated: bool)
    ensures
        negated == is_negated(pattern@),
{
    let chars = to_chars(pattern);
    chars.len() > 0 && chars[0] == '!'
}

/// Computes [`regex_source`].
pub fn regex_source_of(pattern: &str) -> (source: String)
    ensures
        source@ == regex_source(pattern@),
{
    let chars = to_chars(pattern);
    let start: usize = if chars.len() > 0 && chars[0] == '!' {
        1
    } else {
        0
    };
    let ghost body = pattern@.subrange(start as int, pattern@.len() as int);
    let mut source = String::new();
    source.push('^');
    let mut i: usize = start;
    assert(body.take(0) =~= Seq::<char>::empty());
    while i < chars.len()
        invariant
            start <= i <= chars.len(),
            chars@ == pattern@,
            body == pattern@.subrange(start as int, pattern@.len() as int),
            source@ == seq!['^'] + translated(body.take(i - start)),
        decreases chars.len() - i,
    {
        let c = chars[i];
        proof {
            assert(body.take(i + 1 - start).drop_last() =~= body.take(i - start));
            assert(body.take(i + 1 - start).last() == c);
        }
        let ghost before = source@;
        if c == '.' {
            source.push('\\');
            source.push('.');
        } else if c == '*' {
            source.push('.');
            source.push('*');
        } else if c == '?' {
            source.push('.');
        } else {
            source.push(c);
        }
        assert(source@ =~= before + translate(c));
        assert(source@ =~= seq!['^'] + translated(body.take(i + 1 - start)));
        i += 1;
    }
    assert(body.take(i - start) =~= body);
    source.push('$');
    assert(body =~= if is_negated(pattern@) {
        pattern@.drop_first()
    } else {
        pattern@
    });
    source
}

/// Whether the regular expression of a wildcard pattern is one that the
/// `regex` crate accepts.
pub fn wildcard_compiles(pattern: &str) -> (accepted: bool)
    ensures
        accepted == regex_compiles(regex_source(pattern@)),
{
    let source = regex_source_of(pattern);
    compiles(source.as_str())
}

/// Whether a pattern applies to a host name, as far as its regular expression
/// says: nothing where the `regex` crate does not accept that expression.
pub fn wildcard_applies(pattern: &str, name: &str) -> (applies: Option<bool>)
    ensures
        applies == if regex_compiles(regex_source(pattern@)) {
            Some(regex_matches(regex_source(pattern@), name@) != is_negated(pattern@))
        } else {
            None::<bool>
        },
{
    let source = regex_source_of(pattern);
    let negated = starts_negated(pattern);
    match is_match(source.as_str(), name) {
        Some(found) => Some(found != negated),
        None => None,
    }
}

} // verus!
