//! One line of a configuration file: its comment, its key and value, and the
//! patterns of a `Host` line.
use super::host::Entry;
use super::host_entry::{classify, EntryType};
use super::parser_error::{Failure, ParseError};
use crate::text::{
    char_is_space, first_where, is_space, lemma_first_where_is, skip_spaces, skip_spaces_back,
    to_chars, to_string, trim, trim_bounds, trim_end, trim_start,
};
use vstd::prelude::*;

verus! {

/// The place of the first `#` from `from` on that stands outside double
/// quotes, where `quoted` tells whether `from` stands inside them; the length
/// of the line if there is none.
pub open spec fn comment_start(line: Seq<char>, from: int, quoted: bool) -> int
    decreases line.len() - from,
{
    if from < 0 || from >= line.len() {
        line.len() as int
    } else if line[from] == '#' && !quoted {
        from
    } else if line[from] == '"' {
        comment_start(line, from + 1, !quoted)
    } else {
        comment_start(line, from + 1, quoted)
    }
}

/// The line without its comment: what stands before the first `#` outside
/// double quotes.
pub open spec fn uncommented(line: Seq<char>) -> Seq<char> {
    line.take(comment_start(line, 0, false))
}

/// What a line says: the line without its comment and without the white
/// space around the rest.
pub open spec fn content(line: Seq<char>) -> Seq<char> {
    trim(uncommented(line))
}

/// A blank, a tab or an equals sign ends a key.
pub open spec fn is_separator(c: char) -> bool {
    c == ' ' || c == '\t' || c == '='
}

/// The key and the value of a line, or nothing if no separator parts them.
///
/// The key is what stands before the first separator of the trimmed line,
/// without white space at its end. The value is what follows that separator,
/// without white space at its start; if it then begins with equals signs, as
/// in `Key = Value`, without those and the white space behind them.
pub open spec fn split_line(line: Seq<char>) -> Option<(Seq<char>, Seq<char>)> {
    let text = trim(line);
    let at = first_where(text, |c: char| is_separator(c));
    if at >= text.len() {
        None
    } else {
        let key = trim_end(text.take(at));
        let rest = trim_start(text.skip(at + 1));
        let value = if rest.len() > 0 && rest[0] == '=' {
            trim_start(rest.skip(first_where(rest, |c: char| c != '=')))
        } else {
            rest
        };
        Some((key, value))
    }
}

/// The state of reading patterns: the patterns read so far, the pattern
/// being read, and whether the place is inside double quotes.
pub struct Tokens {
    pub done: Seq<Seq<char>>,
    pub current: Seq<char>,
    pub quoted: bool,
}

/// Reading one more character. A double quote opens a quoted span or closes
/// it and ends the pattern; white space inside quotes belongs to the pattern
/// and outside them ends it; any other character belongs to the pattern.
pub open spec fn token_step(tokens: Tokens, c: char) -> Tokens {
    if c == '"' {
        if tokens.quoted {
            Tokens {
                done: tokens.done.push(trim(tokens.current)),
                current: Seq::empty(),
                quoted: false,
            }
        } else {
            Tokens { done: tokens.done, current: tokens.current, quoted: true }
        }
    } else if is_space(c) {
        if tokens.quoted {
            Tokens { done: tokens.done, current: tokens.current.push(c), quoted: true }
        } else if tokens.current.len() > 0 {
            Tokens {
                done: tokens.done.push(trim(tokens.current)),
                current: Seq::empty(),
                quoted: false,
            }
        } else {
            tokens
        }
    } else {
        Tokens { done: tokens.done, current: tokens.current.push(c), quoted: tokens.quoted }
    }
}

/// The state after reading all of `value`.
pub open spec fn tokens_of(value: Seq<char>) -> Tokens
    decreases value.len(),
{
    if value.len() == 0 {
        Tokens { done: Seq::empty(), current: Seq::empty(), quoted: false }
    } else {
        token_step(tokens_of(value.drop_last()), value.last())
    }
}

/// The patterns that the value of a `Host` line names: the patterns read,
/// and the one being read at the end if it is not empty. Each is trimmed.
pub open spec fn patterns_of(value: Seq<char>) -> Seq<Seq<char>> {
    let tokens = tokens_of(value);
    if tokens.current.len() > 0 {
        tokens.done.push(trim(tokens.current))
    } else {
        tokens.done
    }
}

/// Where the comment of the line `chars[from..to]` starts.
pub fn find_comment(chars: &Vec<char>, from: usize, to: usize) -> (at: usize)
    requires
        from <= to <= chars.len(),
    ensures
        from <= at <= to,
        chars@.subrange(from as int, at as int) == uncommented(
            chars@.subrange(from as int, to as int),
        ),
{
    let ghost line = chars@.subrange(from as int, to as int);
    let mut at: usize = from;
    let mut quoted = false;
    let mut found = false;
    while at < to && !found
        invariant
            from <= at <= to <= chars.len(),
            line == chars@.subrange(from as int, to as int),
            comment_start(line, 0, false) == comment_start(line, at - from, quoted),
            found ==> at < to && line[at - from] == '#' && !quoted,
        decreases to - at + (if found { 0int } else { 1int }),
    {
        let c = chars[at];
        assert(line[at - from] == c);
        if c == '#' && !quoted {
            found = true;
        } else {
            if c == '"' {
                quoted = !quoted;
            }
            at += 1;
        }
    }
    assert(chars@.subrange(from as int, at as int) =~= line.take(at - from));
    at
}

/// Reads the key and the value of a line.
///
/// Fails with [`ParseError::UnparseableLine`], holding the line, exactly if
/// the line has no separator.
pub fn parse_line(line: &str) -> (parsed: Result<Entry, ParseError>)
    ensures
        match parsed {
            Ok(entry) => split_line(line@) matches Some(parts) && entry.0@ == classify(parts.0)
                && entry.1@ == parts.1,
            Err(error) => split_line(line@) is None && error@ == Failure::UnparseableLine(line@),
        },
{
    let chars = to_chars(line);
    let (start, end) = trim_bounds(&chars, 0, chars.len());
    assert(chars@.subrange(0, chars.len() as int) =~= line@);
    let ghost text = trim(line@);
    let mut at: usize = start;
    while at < end && !(chars[at] == ' ' || chars[at] == '\t' || chars[at] == '=')
        invariant
            start <= at <= end <= chars.len(),
            text == chars@.subrange(start as int, end as int),
            forall|i: int| 0 <= i < at - start ==> !is_separator(#[trigger] text[i]),
        decreases end - at,
    {
        at += 1;
    }
    proof {
        lemma_first_where_is(text, |c: char| is_separator(c), at - start);
    }
    if at >= end {
        return Err(ParseError::UnparseableLine(line.to_owned()));
    }
    let key_end = skip_spaces_back(&chars, start, at);
    assert(chars@.subrange(start as int, at as int) =~= text.take(at - start));
    let mut value_start = skip_spaces(&chars, at + 1, end);
    assert(chars@.subrange(at + 1, end as int) =~= text.skip(at - start + 1));
    let ghost rest = trim_start(text.skip(at - start + 1));
    if value_start < end && chars[value_start] == '=' {
        let first = value_start;
        while value_start < end && chars[value_start] == '='
            invariant
                first <= value_start <= end <= chars.len(),
                rest == chars@.subrange(first as int, end as int),
                forall|i: int| 0 <= i < value_start - first ==> (#[trigger] rest[i]) == '=',
            decreases end - value_start,
        {
            value_start += 1;
        }
        proof {
            lemma_first_where_is(rest, |c: char| c != '=', value_start - first);
            assert(chars@.subrange(value_start as int, end as int) =~= rest.skip(
                value_start - first,
            ));
        }
        value_start = skip_spaces(&chars, value_start, end);
    }
    let key = to_string(&chars, start, key_end);
    let value = to_string(&chars, value_start, end);
    Ok((EntryType::from_name(key.as_str()), value))
}

/// Reads the patterns of a `Host` line from its value. Patterns are parted
/// by white space; a pattern in double quotes may hold white space.
pub fn parse_patterns(entry_value: &str) -> (patterns: Vec<String>)
    ensures
        patterns.deep_view() == patterns_of(entry_value@),
{
    let chars = to_chars(entry_value);
    let mut patterns: Vec<String> = Vec::new();
    let mut pattern: Vec<char> = Vec::new();
    let mut in_double_quotes = false;
    let mut i: usize = 0;
    assert(chars@.take(0) =~= Seq::<char>::empty());
    assert(patterns.deep_view() =~= Seq::<Seq<char>>::empty());
    while i < chars.len()
        invariant
            i <= chars.len(),
            chars@ == entry_value@,
            patterns.deep_view() == tokens_of(chars@.take(i as int)).done,
            pattern@ == tokens_of(chars@.take(i as int)).current,
            in_double_quotes == tokens_of(chars@.take(i as int)).quoted,
        decreases chars.len() - i,
    {
        let c = chars[i];
        proof {
            assert(chars@.take(i + 1).drop_last() =~= chars@.take(i as int));
            assert(chars@.take(i + 1).last() == c);
        }
        let ghost done = patterns.deep_view();
        if c == '"' {
            if in_double_quotes {
                patterns.push(trimmed(&pattern));
                assert(patterns.deep_view() =~= done.push(trim(pattern@)));
                pattern = Vec::new();
                in_double_quotes = false;
            } else {
                in_double_quotes = true;
            }
        } else if char_is_space(c) {
            if in_double_quotes {
                pattern.push(c);
            } else if pattern.len() > 0 {
                patterns.push(trimmed(&pattern));
                assert(patterns.deep_view() =~= done.push(trim(pattern@)));
                pattern = Vec::new();
            }
        } else {
            pattern.push(c);
        }
        i += 1;
    }
    assert(chars@.take(i as int) =~= chars@);
    if pattern.len() > 0 {
        let ghost done = patterns.deep_view();
        patterns.push(trimmed(&pattern));
        assert(patterns.deep_view() =~= done.push(trim(pattern@)));
    }
    patterns
}

/// The characters as a string, without the white space at either end.
fn trimmed(chars: &Vec<char>) -> (text: String)
    ensures
        text@ == trim(chars@),
{
    let (start, end) = trim_bounds(chars, 0, chars.len());
    assert(chars@.subrange(0, chars.len() as int) =~= chars@);
    to_string(chars, start, end)
}

} // verus!
