//! The parser: it reads a configuration line by line into a global block and
//! a list of host blocks, and follows `Include` lines into the files that it
//! has been handed.
use super::entries::{fill_if_absent, overwrite};
use super::host::{Host, HostView};
use super::host_entry::{classify, EntryKey, EntryType};
use super::host_list::HostVecExt;
use super::line::{content, find_comment, parse_line, parse_patterns, patterns_of, split_line};
use super::parser_error::{
    Failure, IncludeFailure, InvalidIncludeError, InvalidIncludeErrorDetails, ParseError,
    UnknownEntryError,
};
use crate::text::{first_where, lemma_first_where_is, to_chars, to_string, trim_bounds};
use vstd::prelude::*;

verus! {

/// How many `Include` lines deep the parser follows included files.
pub const MAX_INCLUDE_DEPTH: usize = 16;

/// The files that the parser has been handed: each path, as an `Include`
/// line gives it, with the texts of the files that it names, in their order.
pub type Includes = Seq<(Seq<char>, Seq<Seq<char>>)>;

/// What a [`Parser`] stands for in contracts.
pub struct ParserView {
    pub ignore_unknown_entries: bool,
    pub includes: Includes,
}

/// Reads configurations into host blocks.
///
/// The parser reads no file itself. It follows an `Include` line into the
/// texts that [`Parser::add_include`] has handed it for the path on that
/// line. Where none were handed over, parsing fails with
/// [`InvalidIncludeErrorDetails::NotLoaded`] and the path, so that the caller
/// can read the files, hand them over and parse again. Included files may
/// include further files, [`MAX_INCLUDE_DEPTH`] lines deep; a chain of
/// includes that goes deeper, as a file that includes itself does, fails
/// with [`InvalidIncludeErrorDetails::TooDeep`].
#[derive(Debug)]
pub struct Parser {
    ignore_unknown_entries: bool,
    includes: Vec<(String, Vec<String>)>,
}

/// What has been read of a configuration: the global block, the host blocks
/// in order, and whether the place is inside a host block.
pub struct Blocks {
    pub global: HostView,
    pub hosts: Seq<HostView>,
    pub in_host_block: bool,
}

/// Nothing read yet: an empty global block, no host block, at top level.
pub open spec fn start() -> Blocks {
    Blocks {
        global: HostView { patterns: Seq::empty(), entries: Map::empty() },
        hosts: Seq::empty(),
        in_host_block: false,
    }
}

/// A block with one more setting, in place of what it had for the key.
pub open spec fn block_with(block: HostView, key: EntryKey, value: Seq<char>) -> HostView {
    HostView { patterns: block.patterns, entries: block.entries.insert(key, value) }
}

/// After a `Host` line: a new last block with the line's patterns and no
/// settings, and the place inside it.
pub open spec fn open_block(state: Blocks, patterns: Seq<Seq<char>>) -> Blocks {
    Blocks {
        global: state.global,
        hosts: state.hosts.push(HostView { patterns, entries: Map::empty() }),
        in_host_block: true,
    }
}

/// After a setting: inside a host block the last block has it, at top level
/// the global block has it, in place of an earlier value for the key.
pub open spec fn set_entry(state: Blocks, key: EntryKey, value: Seq<char>) -> Blocks {
    if state.in_host_block {
        Blocks {
            global: state.global,
            hosts: state.hosts.update(
                state.hosts.len() - 1,
                block_with(state.hosts.last(), key, value),
            ),
            in_host_block: true,
        }
    } else {
        Blocks {
            global: block_with(state.global, key, value),
            hosts: state.hosts,
            in_host_block: false,
        }
    }
}

/// After one included file. Inside a host block the file may open no host
/// block, and its global settings fill in what the last block does not set.
/// At top level its global settings go into the global block, in place of
/// what that had for the same keys, and its host blocks follow the others.
pub open spec fn merge_included(state: Blocks, included: Blocks, line: Seq<char>) -> Result<
    Blocks,
    Failure,
> {
    if state.in_host_block {
        if included.hosts.len() > 0 {
            Err(
                Failure::InvalidInclude { line, details: IncludeFailure::HostsInsideHostBlock },
            )
        } else {
            Ok(
                Blocks {
                    global: state.global,
                    hosts: state.hosts.update(
                        state.hosts.len() - 1,
                        HostView {
                            patterns: state.hosts.last().patterns,
                            entries: fill_if_absent(
                                state.hosts.last().entries,
                                included.global.entries,
                            ),
                        },
                    ),
                    in_host_block: true,
                },
            )
        }
    } else {
        Ok(
            Blocks {
                global: HostView {
                    patterns: state.global.patterns,
                    entries: overwrite(state.global.entries, included.global.entries),
                },
                hosts: state.hosts + included.hosts,
                in_host_block: false,
            },
        )
    }
}

/// The texts handed over for a path: those of the first pair with that path.
pub open spec fn files_for(includes: Includes, path: Seq<char>) -> Option<Seq<Seq<char>>>
    decreases includes.len(),
{
    if includes.len() == 0 {
        None
    } else if includes[0].0 == path {
        Some(includes[0].1)
    } else {
        files_for(includes.drop_first(), path)
    }
}

/// What has been read after the text `text`, read line by line from `state`
/// on; `depth` tells how deep `Include` lines may still be followed.
pub open spec fn run(parser: ParserView, state: Blocks, text: Seq<char>, depth: nat) -> Result<
    Blocks,
    Failure,
>
    decreases depth, 2nat, text.len(),
{
    if text.len() == 0 {
        Ok(state)
    } else {
        let end = first_where(text, |c: char| c == '\n');
        match apply_line(parser, state, text.take(end), depth) {
            Err(failure) => Err(failure),
            Ok(next) => if 0 <= end < text.len() {
                run(parser, next, text.skip(end + 1), depth)
            } else {
                Ok(next)
            },
        }
    }
}

/// What has been read after one more line.
///
/// A line that says nothing changes nothing. A line without a separator is
/// an error. An unknown key is passed over, or is an error where the parser
/// does not ignore unknown keys. `Host` opens a block; `Include` reads the
/// files handed over for its path, and fails where none were, or where
/// `depth` is used up; any other keyword is a setting.
pub open spec fn apply_line(parser: ParserView, state: Blocks, raw: Seq<char>, depth: nat) -> Result<
    Blocks,
    Failure,
>
    decreases depth, 1nat, 0nat,
{
    let line = content(raw);
    if line.len() == 0 {
        Ok(state)
    } else {
        match split_line(line) {
            None => Err(Failure::UnparseableLine(line)),
            Some(parts) => {
                let key = classify(parts.0);
                if key.keyword == 0 {
                    if parser.ignore_unknown_entries {
                        Ok(state)
                    } else {
                        Err(Failure::UnknownEntry { line, entry: parts.0 })
                    }
                } else if key == EntryType::Host@ {
                    Ok(open_block(state, patterns_of(parts.1)))
                } else if key == EntryType::Include@ {
                    if depth == 0 {
                        Err(Failure::InvalidInclude { line, details: IncludeFailure::TooDeep })
                    } else {
                        match files_for(parser.includes, parts.1) {
                            None => Err(
                                Failure::InvalidInclude {
                                    line,
                                    details: IncludeFailure::NotLoaded(parts.1),
                                },
                            ),
                            Some(files) => include_all(parser, state, files, line, depth),
                        }
                    }
                } else {
                    Ok(set_entry(state, key, parts.1))
                }
            },
        }
    }
}

/// What has been read after the included files `files`, each read on its own
/// from the start and then merged in, in order.
pub open spec fn include_all(
    parser: ParserView,
    state: Blocks,
    files: Seq<Seq<char>>,
    line: Seq<char>,
    depth: nat,
) -> Result<Blocks, Failure>
    decreases depth, 0nat, files.len(),
{
    if depth == 0 || files.len() == 0 {
        Ok(state)
    } else {
        match run(parser, start(), files[0], (depth - 1) as nat) {
            Err(failure) => Err(failure),
            Ok(included) => match merge_included(state, included, line) {
                Err(failure) => Err(failure),
                Ok(next) => include_all(parser, next, files.drop_first(), line, depth),
            },
        }
    }
}

/// The host blocks, each filled from the global block with the settings that
/// it does not set itself.
pub open spec fn with_global(global: HostView, hosts: Seq<HostView>) -> Seq<HostView> {
    Seq::new(
        hosts.len(),
        |i: int|
            HostView {
                patterns: hosts[i].patterns,
                entries: fill_if_absent(hosts[i].entries, global.entries),
            },
    )
}

/// The global block and the host blocks of a configuration, before the global
/// settings are handed down.
pub open spec fn parse_raw_spec(parser: ParserView, text: Seq<char>) -> Result<Blocks, Failure> {
    run(parser, start(), text, MAX_INCLUDE_DEPTH as nat)
}

/// The host blocks of a configuration.
pub open spec fn parse_spec(parser: ParserView, text: Seq<char>) -> Result<Seq<HostView>, Failure> {
    match parse_raw_spec(parser, text) {
        Err(failure) => Err(failure),
        Ok(blocks) => Ok(with_global(blocks.global, blocks.hosts)),
    }
}

/// Whether every line of the text says nothing: each is blank or a comment.
pub open spec fn says_nothing(text: Seq<char>) -> bool
    decreases text.len(),
{
    if text.len() == 0 {
        true
    } else {
        let end = first_where(text, |c: char| c == '\n');
        content(text.take(end)).len() == 0 && (0 <= end < text.len() ==> says_nothing(
            text.skip(end + 1),
        ))
    }
}

/// Reading a text that says nothing changes nothing and does not fail.
pub proof fn lemma_nothing_read(parser: ParserView, state: Blocks, text: Seq<char>, depth: nat)
    requires
        says_nothing(text),
    ensures
        run(parser, state, text, depth) == Ok::<Blocks, Failure>(state),
    decreases text.len(),
{
    if text.len() > 0 {
        let end = first_where(text, |c: char| c == '\n');
        assert(apply_line(parser, state, text.take(end), depth) == Ok::<Blocks, Failure>(state));
        if 0 <= end < text.len() {
            lemma_nothing_read(parser, state, text.skip(end + 1), depth);
        }
    }
}

/// A configuration of blank lines and comments has no host and an empty
/// global block, and parsing it does not fail.
pub proof fn lemma_parse_nothing(parser: ParserView, text: Seq<char>)
    requires
        says_nothing(text),
    ensures
        parse_raw_spec(parser, text) == Ok::<Blocks, Failure>(start()),
        start().hosts.len() == 0,
        start().global.entries == Map::<EntryKey, Seq<char>>::empty(),
        parse_spec(parser, text) == Ok::<Seq<HostView>, Failure>(Seq::empty()),
{
    lemma_nothing_read(parser, start(), text, MAX_INCLUDE_DEPTH as nat);
    assert(with_global(start().global, start().hosts) =~= Seq::<HostView>::empty());
}

/// An included file that opens a host block cannot be merged in inside a
/// host block.
pub proof fn lemma_include_inside_host_block(state: Blocks, included: Blocks, line: Seq<char>)
    requires
        state.in_host_block,
        included.hosts.len() > 0,
    ensures
        merge_included(state, included, line) == Err::<Blocks, Failure>(
            Failure::InvalidInclude { line, details: IncludeFailure::HostsInsideHostBlock },
        ),
{
}

/// At top level an included file is always merged in: its host blocks follow
/// those read before, and the place stays at top level.
pub proof fn lemma_include_at_top_level(state: Blocks, included: Blocks, line: Seq<char>)
    requires
        !state.in_host_block,
    ensures
        merge_included(state, included, line) matches Ok(next) && next.hosts == state.hosts
            + included.hosts && !next.in_host_block && next.global.entries == overwrite(
            state.global.entries,
            included.global.entries,
        ),
{
}

/// Whether every key of the settings is a keyword other than `Host` and
/// `Include`.
pub open spec fn settings_only(entries: Map<EntryKey, Seq<char>>) -> bool {
    forall|key: EntryKey| #[trigger]
        entries.contains_key(key) ==> key.keyword != 0 && key != EntryType::Host@ && key
            != EntryType::Include@
}

/// What holds of everything that the parser has read: the global block has
/// no pattern, inside a host block there is a host block, and no block sets
/// `Host`, `Include` or a key that is no keyword.
pub open spec fn sound(state: Blocks) -> bool {
    &&& state.global.patterns.len() == 0
    &&& state.in_host_block ==> state.hosts.len() > 0
    &&& settings_only(state.global.entries)
    &&& forall|i: int| 0 <= i < state.hosts.len() ==> settings_only(#[trigger] state.hosts[i].entries)
}

/// Reading a text keeps what has been read sound.
pub proof fn lemma_run_sound(parser: ParserView, state: Blocks, text: Seq<char>, depth: nat)
    requires
        sound(state),
    ensures
        run(parser, state, text, depth) matches Ok(next) ==> sound(next),
    decreases depth, 2nat, text.len(),
{
    if text.len() > 0 {
        let end = first_where(text, |c: char| c == '\n');
        lemma_apply_line_sound(parser, state, text.take(end), depth);
        match apply_line(parser, state, text.take(end), depth) {
            Err(_) => {},
            Ok(next) => {
                if 0 <= end < text.len() {
                    lemma_run_sound(parser, next, text.skip(end + 1), depth);
                }
            },
        }
    }
}

/// Reading a line keeps what has been read sound.
pub proof fn lemma_apply_line_sound(parser: ParserView, state: Blocks, raw: Seq<char>, depth: nat)
    requires
        sound(state),
    ensures
        apply_line(parser, state, raw, depth) matches Ok(next) ==> sound(next),
    decreases depth, 1nat, 0nat,
{
    let line = content(raw);
    if line.len() > 0 {
        match split_line(line) {
            None => {},
            Some(parts) => {
                let key = classify(parts.0);
                if key.keyword == 0 {
                } else if key == EntryType::Host@ {
                    let next = open_block(state, patterns_of(parts.1));
                    assert forall|i: int| 0 <= i < next.hosts.len() implies settings_only(
                        #[trigger] next.hosts[i].entries,
                    ) by {
                        if i < state.hosts.len() {
                            assert(next.hosts[i] == state.hosts[i]);
                        }
                    }
                } else if key == EntryType::Include@ {
                    if depth > 0 {
                        match files_for(parser.includes, parts.1) {
                            None => {},
                            Some(files) => {
                                lemma_include_all_sound(parser, state, files, line, depth);
                            },
                        }
                    }
                } else {
                    let next = set_entry(state, key, parts.1);
                    assert forall|i: int| 0 <= i < next.hosts.len() implies settings_only(
                        #[trigger] next.hosts[i].entries,
                    ) by {
                        assert(settings_only(state.hosts[i].entries));
                    }
                }
            },
        }
    }
}

/// Reading included files keeps what has been read sound.
pub proof fn lemma_include_all_sound(
    parser: ParserView,
    state: Blocks,
    files: Seq<Seq<char>>,
    line: Seq<char>,
    depth: nat,
)
    requires
        sound(state),
    ensures
        include_all(parser, state, files, line, depth) matches Ok(next) ==> sound(next),
    decreases depth, 0nat, files.len(),
{
    if depth > 0 && files.len() > 0 {
        lemma_run_sound(parser, start(), files[0], (depth - 1) as nat);
        match run(parser, start(), files[0], (depth - 1) as nat) {
            Err(_) => {},
            Ok(included) => match merge_included(state, included, line) {
                Err(_) => {},
                Ok(next) => {
                    assert forall|i: int| 0 <= i < next.hosts.len() implies settings_only(
                        #[trigger] next.hosts[i].entries,
                    ) by {
                        if i < state.hosts.len() {
                            assert(settings_only(state.hosts[i].entries));
                        } else {
                            assert(settings_only(included.hosts[i - state.hosts.len()].entries));
                        }
                    }
                    lemma_include_all_sound(parser, next, files.drop_first(), line, depth);
                },
            },
        }
    }
}

/// No host block of a parsed configuration sets `Host`, `Include` or a key
/// that is no keyword.
pub proof fn lemma_parse_settings_only(parser: ParserView, text: Seq<char>)
    ensures
        parse_raw_spec(parser, text) matches Ok(blocks) ==> sound(blocks),
        parse_spec(parser, text) matches Ok(hosts) ==> forall|i: int|
            0 <= i < hosts.len() ==> settings_only(#[trigger] hosts[i].entries),
{
    lemma_run_sound(parser, start(), text, MAX_INCLUDE_DEPTH as nat);
    match parse_raw_spec(parser, text) {
        Err(_) => {},
        Ok(blocks) => {
            let hosts = with_global(blocks.global, blocks.hosts);
            assert forall|i: int| 0 <= i < hosts.len() implies settings_only(
                #[trigger] hosts[i].entries,
            ) by {
                assert(settings_only(blocks.hosts[i].entries));
            }
        },
    }
}

/// Whether the line is an `Include` line for which the parser has been
/// handed exactly the texts `files`.
pub open spec fn includes_files(parser: ParserView, raw: Seq<char>, files: Seq<Seq<char>>) -> bool {
    split_line(content(raw)) matches Some(parts) && classify(parts.0) == EntryType::Include@
        && files_for(parser.includes, parts.1) == Some(files)
}

/// An `Include` line inside a host block fails as an invalid include if the
/// first of its files opens a host block.
pub proof fn lemma_include_line_inside_host_block(
    parser: ParserView,
    state: Blocks,
    raw: Seq<char>,
    depth: nat,
    files: Seq<Seq<char>>,
    included: Blocks,
)
    requires
        state.in_host_block,
        depth > 0,
        content(raw).len() > 0,
        includes_files(parser, raw, files),
        files.len() > 0,
        run(parser, start(), files[0], (depth - 1) as nat) == Ok::<Blocks, Failure>(included),
        included.hosts.len() > 0,
    ensures
        apply_line(parser, state, raw, depth) == Err::<Blocks, Failure>(
            Failure::InvalidInclude {
                line: content(raw),
                details: IncludeFailure::HostsInsideHostBlock,
            },
        ),
{
    assert(include_all(parser, state, files, content(raw), depth) == Err::<Blocks, Failure>(
        Failure::InvalidInclude {
            line: content(raw),
            details: IncludeFailure::HostsInsideHostBlock,
        },
    ));
}

/// The same line at top level is read: the host blocks of its one file
/// follow those read before.
pub proof fn lemma_include_line_at_top_level(
    parser: ParserView,
    state: Blocks,
    raw: Seq<char>,
    depth: nat,
    file: Seq<char>,
    included: Blocks,
)
    requires
        !state.in_host_block,
        depth > 0,
        content(raw).len() > 0,
        includes_files(parser, raw, seq![file]),
        run(parser, start(), file, (depth - 1) as nat) == Ok::<Blocks, Failure>(included),
    ensures
        apply_line(parser, state, raw, depth) matches Ok(next) && next.hosts == state.hosts
            + included.hosts && !next.in_host_block,
{
    let files = seq![file];
    let merged = merge_included(state, included, content(raw))->Ok_0;
    assert(files.drop_first() =~= Seq::<Seq<char>>::empty());
    assert(include_all(parser, merged, files.drop_first(), content(raw), depth) == Ok::<
        Blocks,
        Failure,
    >(merged));
    assert(include_all(parser, state, files, content(raw), depth) == Ok::<Blocks, Failure>(
        merged,
    ));
}

/// Inside a host block an included file without host blocks fills in what
/// the last block does not set, and changes nothing that it sets.
pub proof fn lemma_include_fills_block(
    state: Blocks,
    included: Blocks,
    line: Seq<char>,
    key: EntryKey,
)
    requires
        state.in_host_block,
        state.hosts.len() > 0,
        included.hosts.len() == 0,
    ensures
        merge_included(state, included, line) matches Ok(next) && next.hosts.len()
            == state.hosts.len() && (state.hosts.last().entries.contains_key(key)
            ==> next.hosts.last().entries[key] == state.hosts.last().entries[key]) && (
        !state.hosts.last().entries.contains_key(key) && included.global.entries.contains_key(key)
            ==> next.hosts.last().entries[key] == included.global.entries[key]),
{
}

/// Handing the global settings down never changes what a host block sets,
/// and fills in every global setting that it does not set.
pub proof fn lemma_global_fills_hosts(global: HostView, hosts: Seq<HostView>, i: int, key: EntryKey)
    requires
        0 <= i < hosts.len(),
    ensures
        with_global(global, hosts).len() == hosts.len(),
        with_global(global, hosts)[i].patterns == hosts[i].patterns,
        hosts[i].entries.contains_key(key) ==> with_global(global, hosts)[i].entries[key]
            == hosts[i].entries[key],
        !hosts[i].entries.contains_key(key) && global.entries.contains_key(key) ==> with_global(
            global,
            hosts,
        )[i].entries[key] == global.entries[key],
        with_global(global, hosts)[i].entries.contains_key(key) <==> hosts[i].entries.contains_key(
            key,
        ) || global.entries.contains_key(key),
{
}

/// What the parser has read so far.
struct Progress {
    global: Host,
    hosts: Vec<Host>,
    in_host_block: bool,
}

impl Progress {
    spec fn blocks(&self) -> Blocks {
        Blocks {
            global: self.global@,
            hosts: self.hosts.blocks(),
            in_host_block: self.in_host_block,
        }
    }

    /// Inside a host block there is a host block.
    spec fn well_formed(&self) -> bool {
        self.in_host_block ==> self.hosts.len() > 0
    }
}

impl View for Parser {
    type V = ParserView;

    closed spec fn view(&self) -> ParserView {
        ParserView {
            ignore_unknown_entries: self.ignore_unknown_entries,
            includes: Seq::new(
                self.includes@.len(),
                |i: int| (self.includes@[i].0@, self.includes@[i].1.deep_view()),
            ),
        }
    }
}

impl Default for Parser {
    fn default() -> (parser: Parser)
        ensures
            parser@ == (ParserView { ignore_unknown_entries: true, includes: Seq::empty() }),
    {
        Parser::new()
    }
}

impl Parser {
    /// A parser that passes over unknown keys and has been handed no files.
    pub fn new() -> (parser: Parser)
        ensures
            parser@ == (ParserView { ignore_unknown_entries: true, includes: Seq::empty() }),
    {
        let parser = Parser { ignore_unknown_entries: true, includes: Vec::new() };
        assert(parser@.includes =~= Seq::empty());
        parser
    }

    /// Says whether the parser passes over unknown keys or fails on them.
    pub fn set_ignore_unknown_entries(&mut self, ignore: bool)
        ensures
            final(self)@ == (ParserView { ignore_unknown_entries: ignore, includes: old(self)@.includes }),
    {
        self.ignore_unknown_entries = ignore;
        assert(self@.includes =~= old(self)@.includes);
    }

    /// Hands the parser the texts of the files that a path names, for the
    /// `Include` lines that give this path. For a path handed over before,
    /// the earlier texts stay in force.
    pub fn add_include(&mut self, path: &str, files: Vec<String>)
        ensures
            final(self)@ == (ParserView {
                ignore_unknown_entries: old(self)@.ignore_unknown_entries,
                includes: old(self)@.includes.push((path@, files.deep_view())),
            }),
    {
        self.includes.push((path.to_owned(), files));
        assert(self@.includes =~= old(self)@.includes.push((path@, files.deep_view())));
    }

    /// Where the texts for a path stand among those handed over.
    fn find_files(&self, path: &str) -> (found: Option<usize>)
        ensures
            match found {
                Some(i) => i < self.includes.len() && files_for(self@.includes, path@) == Some(
                    self.includes[i as int].1.deep_view(),
                ),
                None => files_for(self@.includes, path@) is None,
            },
    {
        let ghost includes = self@.includes;
        let mut i: usize = 0;
        assert(includes.skip(0) =~= includes);
        while i < self.includes.len()
            invariant
                i <= self.includes.len(),
                includes == self@.includes,
                files_for(includes, path@) == files_for(includes.skip(i as int), path@),
            decreases self.includes.len() - i,
        {
            assert(includes.skip(i as int)[0] == includes[i as int]);
            assert(includes.skip(i as int).drop_first() =~= includes.skip(i + 1));
            if str_equal(self.includes[i].0.as_str(), path) {
                return Some(i);
            }
            i += 1;
        }
        None
    }

    /// Reads a configuration and hands the global settings down to the host
    /// blocks, each of which keeps what it sets itself.
    ///
    /// Fails on the first line that cannot be read: a line without a value,
    /// an unknown key where those are not ignored, or an `Include` line that
    /// cannot be followed.
    pub fn parse(&self, text: &str) -> (parsed: Result<Vec<Host>, ParseError>)
        ensures
            match parsed {
                Ok(hosts) => parse_spec(self@, text@) == Ok::<Seq<HostView>, Failure>(
                    hosts.blocks(),
                ) && forall|i: int|
                    0 <= i < hosts.len() ==> settings_only(#[trigger] hosts.blocks()[i].entries),
                Err(error) => parse_spec(self@, text@) == Err::<Seq<HostView>, Failure>(error@),
            },
    {
        proof {
            lemma_parse_settings_only(self@, text@);
        }
        let (global, hosts) = match self.parse_raw(text) {
            Ok(blocks) => blocks,
            Err(error) => {
                return Err(error);
            },
        };
        let mut filled: Vec<Host> = Vec::new();
        let mut i: usize = 0;
        while i < hosts.len()
            invariant
                i <= hosts.len(),
                filled.len() == i,
                forall|j: int|
                    0 <= j < i ==> (#[trigger] filled[j])@ == with_global(
                        global@,
                        hosts.blocks(),
                    )[j],
            decreases hosts.len() - i,
        {
            let mut host = hosts[i].clone();
            host.extend_if_not_contained(&global);
            filled.push(host);
            i += 1;
        }
        assert(filled.blocks() =~= with_global(global@, hosts.blocks()));
        Ok(filled)
    }

    /// Reads a configuration into its global block and its host blocks.
    pub fn parse_raw(&self, text: &str) -> (parsed: Result<(Host, Vec<Host>), ParseError>)
        ensures
            match parsed {
                Ok(read) => parse_raw_spec(self@, text@) matches Ok(blocks) && blocks.global
                    == read.0@ && blocks.hosts == read.1.blocks() && sound(blocks),
                Err(error) => parse_raw_spec(self@, text@) == Err::<Blocks, Failure>(error@),
            },
    {
        proof {
            lemma_parse_settings_only(self@, text@);
        }
        match self.read(text, MAX_INCLUDE_DEPTH) {
            Ok(progress) => Ok((progress.global, progress.hosts)),
            Err(error) => Err(error),
        }
    }

    /// Reads a text line by line.
    fn read(&self, text: &str, depth: usize) -> (parsed: Result<Progress, ParseError>)
        ensures
            match parsed {
                Ok(progress) => progress.well_formed() && run(
                    self@,
                    start(),
                    text@,
                    depth as nat,
                ) == Ok::<Blocks, Failure>(progress.blocks()),
                Err(error) => run(self@, start(), text@, depth as nat) == Err::<Blocks, Failure>(
                    error@,
                ),
            },
        decreases depth, 2nat,
    {
        let chars = to_chars(text);
        let empty: Vec<Host> = Vec::new();
        let mut progress = Progress {
            global: Host::new(Vec::new()),
            hosts: empty,
            in_host_block: false,
        };
        assert(progress.blocks().hosts =~= start().hosts);
        assert(progress.blocks().global.patterns =~= start().global.patterns);
        assert(progress.blocks() == start());
        let mut position: usize = 0;
        assert(chars@.skip(0) =~= chars@);
        while position < chars.len()
            invariant
                position <= chars.len(),
                chars@ == text@,
                progress.well_formed(),
                run(self@, start(), text@, depth as nat) == run(
                    self@,
                    progress.blocks(),
                    chars@.skip(position as int),
                    depth as nat,
                ),
            decreases chars.len() - position,
        {
            let ghost rest = chars@.skip(position as int);
            let mut end: usize = position;
            while end < chars.len() && chars[end] != '\n'
                invariant
                    position <= end <= chars.len(),
                    rest == chars@.skip(position as int),
                    forall|i: int| 0 <= i < end - position ==> (#[trigger] rest[i]) != '\n',
                decreases chars.len() - end,
            {
                end += 1;
            }
            proof {
                lemma_first_where_is(rest, |c: char| c == '\n', end - position);
                assert(rest.take(end - position) =~= chars@.subrange(position as int, end as int));
                if end < chars.len() {
                    assert(rest.skip(end - position + 1) =~= chars@.skip(end + 1));
                }
            }
            progress = match self.read_line(progress, &chars, position, end, depth) {
                Ok(next) => next,
                Err(error) => {
                    return Err(error);
                },
            };
            if end < chars.len() {
                position = end + 1;
            } else {
                position = end;
                assert(chars@.skip(position as int).len() == 0);
            }
        }
        Ok(progress)
    }

    /// Reads one line, `chars[from..to]`.
    fn read_line(
        &self,
        progress: Progress,
        chars: &Vec<char>,
        from: usize,
        to: usize,
        depth: usize,
    ) -> (parsed: Result<Progress, ParseError>)
        requires
            from <= to <= chars.len(),
            progress.well_formed(),
        ensures
            match parsed {
                Ok(next) => next.well_formed() && apply_line(
                    self@,
                    progress.blocks(),
                    chars@.subrange(from as int, to as int),
                    depth as nat,
                ) == Ok::<Blocks, Failure>(next.blocks()),
                Err(error) => apply_line(
                    self@,
                    progress.blocks(),
                    chars@.subrange(from as int, to as int),
                    depth as nat,
                ) == Err::<Blocks, Failure>(error@),
            },
        decreases depth, 1nat,
    {
        let mut progress = progress;
        let ghost before = progress.blocks();
        let comment = find_comment(chars, from, to);
        let (start, end) = trim_bounds(chars, from, comment);
        if start == end {
            return Ok(progress);
        }
        let line = to_string(chars, start, end);
        assert(line@ == content(chars@.subrange(from as int, to as int)));
        let (key, value) = match parse_line(line.as_str()) {
            Ok(entry) => entry,
            Err(error) => {
                return Err(error);
            },
        };
        match key {
            EntryType::Unknown(entry) => {
                if self.ignore_unknown_entries {
                    Ok(progress)
                } else {
                    Err(ParseError::UnknownEntry(UnknownEntryError { line, entry }))
                }
            },
            EntryType::Host => {
                let patterns = parse_patterns(value.as_str());
                progress.hosts.push(Host::new(patterns));
                progress.in_host_block = true;
                assert(progress.blocks().hosts =~= open_block(before, patterns_of(value@)).hosts);
                Ok(progress)
            },
            EntryType::Include => {
                if depth == 0 {
                    return Err(
                        ParseError::InvalidInclude(
                            InvalidIncludeError { line, details: InvalidIncludeErrorDetails::TooDeep },
                        ),
                    );
                }
                match self.find_files(value.as_str()) {
                    None => Err(
                        ParseError::InvalidInclude(
                            InvalidIncludeError {
                                line,
                                details: InvalidIncludeErrorDetails::NotLoaded(value),
                            },
                        ),
                    ),
                    Some(i) => self.read_files(progress, &self.includes[i].1, &line, depth),
                }
            },
            _ => {
                let ghost key_view = key@;
                assert(key_view.keyword != 0);
                assert(key_view != EntryType::Host@);
                assert(key_view != EntryType::Include@);
                if progress.in_host_block {
                    let mut last = progress.hosts.pop().unwrap();
                    last.update((key, value));
                    progress.hosts.push(last);
                    assert(progress.blocks().hosts =~= set_entry(before, key_view, value@).hosts);
                } else {
                    progress.global.update((key, value));
                }
                assert(progress.blocks() == set_entry(before, key_view, value@));
                Ok(progress)
            },
        }
    }

    /// Reads the included files `files` and merges each into what has been
    /// read; `line` is the `Include` line that names them.
    fn read_files(&self, initial: Progress, files: &Vec<String>, line: &String, depth: usize) -> (parsed:
        Result<Progress, ParseError>)
        requires
            depth > 0,
            initial.well_formed(),
        ensures
            match parsed {
                Ok(next) => next.well_formed() && include_all(
                    self@,
                    initial.blocks(),
                    files.deep_view(),
                    line@,
                    depth as nat,
                ) == Ok::<Blocks, Failure>(next.blocks()),
                Err(error) => include_all(
                    self@,
                    initial.blocks(),
                    files.deep_view(),
                    line@,
                    depth as nat,
                ) == Err::<Blocks, Failure>(error@),
            },
        decreases depth, 0nat,
    {
        let mut progress = initial;
        let ghost first = progress.blocks();
        let ghost texts = files.deep_view();
        let mut k: usize = 0;
        assert(texts.skip(0) =~= texts);
        while k < files.len()
            invariant
                k <= files.len(),
                depth > 0,
                texts == files.deep_view(),
                first == initial.blocks(),
                progress.well_formed(),
                include_all(self@, first, texts, line@, depth as nat) == include_all(
                    self@,
                    progress.blocks(),
                    texts.skip(k as int),
                    line@,
                    depth as nat,
                ),
            decreases files.len() - k,
        {
            proof {
                assert(texts.skip(k as int)[0] == files[k as int]@);
                assert(texts.skip(k as int).drop_first() =~= texts.skip(k + 1));
            }
            let ghost before = progress.blocks();
            let included = match self.read(files[k].as_str(), depth - 1) {
                Ok(included) => included,
                Err(error) => {
                    return Err(error);
                },
            };
            if progress.in_host_block {
                if included.hosts.len() > 0 {
                    return Err(
                        ParseError::InvalidInclude(
                            InvalidIncludeError {
                                line: line.clone(),
                                details: InvalidIncludeErrorDetails::HostsInsideHostBlock,
                            },
                        ),
                    );
                }
                let mut last = progress.hosts.pop().unwrap();
                last.extend_if_not_contained(&included.global);
                progress.hosts.push(last);
                assert(progress.blocks().hosts =~= merge_included(
                    before,
                    included.blocks(),
                    line@,
                )->Ok_0.hosts);
            } else {
                progress.global.extend_entries(&included.global);
                let mut hosts = included.hosts;
                progress.hosts.append(&mut hosts);
                assert(progress.blocks().hosts =~= merge_included(
                    before,
                    included.blocks(),
                    line@,
                )->Ok_0.hosts);
            }
            assert(merge_included(before, included.blocks(), line@) == Ok::<Blocks, Failure>(
                progress.blocks(),
            ));
            k += 1;
        }
        Ok(progress)
    }
}

/// Whether two strings hold the same text.
fn str_equal(a: &str, b: &str) -> (equal: bool)
    ensures
        equal == (a@ == b@),
{
    let a_chars = to_chars(a);
    let b_chars = to_chars(b);
    if a_chars.len() != b_chars.len() {
        return false;
    }
    let mut i: usize = 0;
    while i < a_chars.len()
        invariant
            i <= a_chars.len() == b_chars.len(),
            a_chars@ == a@,
            b_chars@ == b@,
            forall|j: int| 0 <= j < i ==> a_chars[j] == b_chars[j],
        decreases a_chars.len() - i,
    {
        if a_chars[i] != b_chars[i] {
            return false;
        }
        i += 1;
    }
    assert(a@ =~= b@);
    true
}

} // verus!
