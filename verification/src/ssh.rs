//! Resolved hosts: the plain records that a configuration comes down to, and
//! the way from host blocks to those records.
use crate::ssh_config::host::{Host as Block, HostView};
use crate::ssh_config::host_entry::{EntryKey, EntryType};
use crate::ssh_config::host_list::{
    apply_patterns_to, can_default_hostnames, default_hostnames, merge_blocks, patterns_usable,
    spread_blocks, with_default_hostname, HostVecExt,
};
use crate::ssh_config::parser::{parse_spec, Parser};
use crate::ssh_config::parser_error::ParseError;
use crate::text::to_chars;
use vstd::prelude::*;

verus! {

/// What a [`Host`] stands for in contracts.
pub struct HostRecord {
    pub name: Seq<char>,
    pub aliases: Seq<char>,
    pub user: Option<Seq<char>>,
    pub destination: Seq<char>,
    pub port: Option<Seq<char>>,
    pub proxy_command: Option<Seq<char>>,
}

/// One resolved host, ready to be shown and connected to.
#[derive(Debug)]
pub struct Host {
    /// The first pattern of the host's block.
    pub name: String,
    /// The other patterns of the block, joined with a comma and a blank.
    pub aliases: String,
    pub user: Option<String>,
    /// The `Hostname` of the block.
    pub destination: String,
    pub port: Option<String>,
    pub proxy_command: Option<String>,
}

/// The text that an optional string holds, if it holds one.
pub open spec fn text_of(value: Option<String>) -> Option<Seq<char>> {
    match value {
        Some(text) => Some(text@),
        None => None,
    }
}

impl View for Host {
    type V = HostRecord;

    open spec fn view(&self) -> HostRecord {
        HostRecord {
            name: self.name@,
            aliases: self.aliases@,
            user: text_of(self.user),
            destination: self.destination@,
            port: text_of(self.port),
            proxy_command: text_of(self.proxy_command),
        }
    }
}

/// A copy of an optional string.
fn clone_text(value: &Option<String>) -> (copy: Option<String>)
    ensures
        text_of(copy) == text_of(*value),
{
    match value {
        Some(text) => Some(text.clone()),
        None => None,
    }
}

impl Clone for Host {
    fn clone(&self) -> (copy: Host)
        ensures
            copy@ == self@,
    {
        Host {
            name: self.name.clone(),
            aliases: self.aliases.clone(),
            user: clone_text(&self.user),
            destination: self.destination.clone(),
            port: clone_text(&self.port),
            proxy_command: clone_text(&self.proxy_command),
        }
    }
}

/// Why a configuration could not be resolved.
#[derive(Debug)]
pub enum ParseConfigError {
    /// The configuration could not be read; the text says why.
    Io(String),
    /// The configuration could not be parsed.
    SshConfig(ParseError),
    /// The blocks cannot be resolved: a wildcard pattern has no regular
    /// expression that the `regex` crate accepts, or a block that needs a
    /// name has no pattern.
    Pattern,
}

impl From<ParseError> for ParseConfigError {
    fn from(e: ParseError) -> (error: ParseConfigError) {
        ParseConfigError::SshConfig(e)
    }
}

impl vstd::std_specs::convert::FromSpecImpl<ParseError> for ParseConfigError {
    open spec fn obeys_from_spec() -> bool {
        true
    }

    open spec fn from_spec(e: ParseError) -> ParseConfigError {
        ParseConfigError::SshConfig(e)
    }
}

/// The texts joined, with a comma and a blank between each two.
pub open spec fn joined(parts: Seq<Seq<char>>) -> Seq<char>
    decreases parts.len(),
{
    if parts.len() == 0 {
        Seq::empty()
    } else if parts.len() == 1 {
        parts[0]
    } else {
        joined(parts.drop_last()) + seq![',', ' '] + parts.last()
    }
}

/// The value of a key, if the settings have the key.
pub open spec fn setting(entries: Map<EntryKey, Seq<char>>, key: EntryKey) -> Option<Seq<char>> {
    if entries.contains_key(key) {
        Some(entries[key])
    } else {
        None
    }
}

/// The record of a block: its first pattern as name, its other patterns as
/// aliases, and its user, destination, port and proxy command as the block
/// sets them. A block without patterns has an empty name, and a block
/// without `Hostname` an empty destination.
pub open spec fn project(block: HostView) -> HostRecord {
    HostRecord {
        name: if block.patterns.len() > 0 {
            block.patterns[0]
        } else {
            Seq::empty()
        },
        aliases: if block.patterns.len() > 0 {
            joined(block.patterns.skip(1))
        } else {
            Seq::empty()
        },
        user: setting(block.entries, EntryType::User@),
        destination: match setting(block.entries, EntryType::Hostname@) {
            Some(text) => text,
            None => Seq::empty(),
        },
        port: setting(block.entries, EntryType::Port@),
        proxy_command: setting(block.entries, EntryType::ProxyCommand@),
    }
}

/// The records of a list of hosts.
pub open spec fn records(hosts: Seq<Host>) -> Seq<HostRecord> {
    Seq::new(hosts.len(), |i: int| hosts[i]@)
}

/// Whether the blocks can be resolved: patterns can be applied to them, and
/// every host that then lacks a `Hostname` has a pattern to take its place.
pub open spec fn can_resolve(blocks: Seq<HostView>) -> bool {
    patterns_usable(spread_blocks(blocks)) && can_default_hostnames(apply_patterns_to(blocks))
}

/// The hosts that the blocks resolve to: patterns are applied, every host
/// gets a destination, hosts with the same settings are merged, and each
/// remaining block gives one record.
pub open spec fn resolved(blocks: Seq<HostView>) -> Seq<HostRecord> {
    let rows = merge_blocks(default_hostnames(apply_patterns_to(blocks)));
    Seq::new(rows.len(), |i: int| project(rows[i]))
}

/// The path that an `Include` line means: the path itself if it starts at the
/// root, else the path below the directory of the user's configuration.
pub open spec fn include_path_of(path: Seq<char>, directory: Seq<char>) -> Seq<char> {
    if path.len() > 0 && path[0] == '/' {
        path
    } else {
        directory + seq!['/'] + path
    }
}

/// A host that sets no `Hostname` has its own name as destination once it
/// has been given a default.
pub proof fn lemma_destination_defaults_to_name(block: HostView)
    requires
        block.patterns.len() > 0,
        !block.entries.contains_key(EntryType::Hostname@),
    ensures
        project(with_default_hostname(block)).destination == block.patterns[0],
        project(with_default_hostname(block)).destination == project(block).name,
{
}

/// A host that sets a `Hostname` has it as destination.
pub proof fn lemma_destination_is_hostname(block: HostView)
    requires
        block.entries.contains_key(EntryType::Hostname@),
    ensures
        project(with_default_hostname(block)).destination == block.entries[EntryType::Hostname@],
{
}

/// Appends a text to a string.
fn push_text(target: &mut String, text: &str)
    ensures
        final(target)@ == old(target)@ + text@,
{
    let chars = to_chars(text);
    let mut i: usize = 0;
    assert(chars@.take(0) =~= Seq::<char>::empty());
    assert(target@ =~= old(target)@ + chars@.take(0));
    while i < chars.len()
        invariant
            i <= chars.len(),
            chars@ == text@,
            target@ == old(target)@ + chars@.take(i as int),
        decreases chars.len() - i,
    {
        target.push(chars[i]);
        assert(chars@.take(i + 1) =~= chars@.take(i as int).push(chars[i as int]));
        assert(target@ =~= old(target)@ + chars@.take(i + 1));
        i += 1;
    }
    assert(chars@.take(i as int) =~= chars@);
}

/// Computes [`include_path_of`] from a path in which the tilde has been
/// expanded and the directory of the user's configuration.
pub fn include_path(path: &str, directory: &str) -> (full: String)
    ensures
        full@ == include_path_of(path@, directory@),
{
    let chars = to_chars(path);
    let mut full = String::new();
    if !(chars.len() > 0 && chars[0] == '/') {
        push_text(&mut full, directory);
        full.push('/');
    }
    push_text(&mut full, path);
    assert(full@ =~= include_path_of(path@, directory@));
    full
}

impl Host {
    /// The record of a block.
    pub fn from_block(block: &Block) -> (host: Host)
        ensures
            host@ == project(block@),
    {
        let patterns = block.get_patterns();
        let mut name = String::new();
        let mut aliases = String::new();
        if patterns.len() > 0 {
            name = patterns[0].clone();
            let ghost others = block@.patterns.skip(1);
            let mut i: usize = 1;
            assert(others.take(0) =~= Seq::<Seq<char>>::empty());
            while i < patterns.len()
                invariant
                    1 <= i <= patterns.len(),
                    patterns.deep_view() == block@.patterns,
                    others == block@.patterns.skip(1),
                    aliases@ == joined(others.take(i - 1)),
                decreases patterns.len() - i,
            {
                proof {
                    assert(others.take(i as int).drop_last() =~= others.take(i - 1));
                    assert(others.take(i as int).last() == patterns[i as int]@);
                }
                if i > 1 {
                    push_text(&mut aliases, ", ");
                    proof {
                        reveal_strlit(", ");
                        assert(", "@ =~= seq![',', ' ']);
                    }
                }
                push_text(&mut aliases, patterns[i].as_str());
                assert(aliases@ =~= joined(others.take(i as int)));
                i += 1;
            }
            assert(others.take(i - 1) =~= others);
        }
        let destination = match block.get(&EntryType::Hostname) {
            Some(text) => text,
            None => String::new(),
        };
        Host {
            name,
            aliases,
            user: block.get(&EntryType::User),
            destination,
            port: block.get(&EntryType::Port),
            proxy_command: block.get(&EntryType::ProxyCommand),
        }
    }
}

/// Whether [`resolve`] can be used on the blocks.
pub fn resolvable(blocks: &Vec<Block>) -> (usable: bool)
    ensures
        usable == can_resolve(blocks.blocks()),
{
    if !blocks.can_apply_patterns() {
        return false;
    }
    let applied = blocks.apply_patterns();
    applied.can_apply_name_to_empty_hostname()
}

/// Resolves host blocks into hosts.
pub fn resolve(blocks: &Vec<Block>) -> (hosts: Vec<Host>)
    requires
        can_resolve(blocks.blocks()),
    ensures
        records(hosts@) == resolved(blocks.blocks()),
{
    let rows = blocks.apply_patterns().apply_name_to_empty_hostname().merge_same_hosts();
    let mut hosts: Vec<Host> = Vec::new();
    let mut i: usize = 0;
    while i < rows.len()
        invariant
            i <= rows.len(),
            hosts.len() == i,
            forall|j: int| 0 <= j < i ==> (#[trigger] hosts[j])@ == project(rows.blocks()[j]),
        decreases rows.len() - i,
    {
        hosts.push(Host::from_block(&rows[i]));
        i += 1;
    }
    assert(records(hosts@) =~= resolved(blocks.blocks()));
    hosts
}

/// Resolves host blocks into hosts where that can be done, and gives nothing
/// where it cannot.
pub fn try_resolve(blocks: &Vec<Block>) -> (hosts: Option<Vec<Host>>)
    ensures
        match hosts {
            Some(hosts) => can_resolve(blocks.blocks()) && records(hosts@) == resolved(
                blocks.blocks(),
            ),
            None => !can_resolve(blocks.blocks()),
        },
{
    if resolvable(blocks) {
        Some(resolve(blocks))
    } else {
        None
    }
}

/// Parses a configuration and resolves it into hosts.
///
/// Fails with [`ParseConfigError::SshConfig`] exactly if the text cannot be
/// parsed, and with [`ParseConfigError::Pattern`] exactly if it can, and its
/// blocks cannot be resolved.
pub fn parse_config(parser: &Parser, text: &str) -> (parsed: Result<Vec<Host>, ParseConfigError>)
    ensures
        match parse_spec(parser@, text@) {
            Err(failure) => parsed matches Err(ParseConfigError::SshConfig(error)) && error@
                == failure,
            Ok(blocks) => if can_resolve(blocks) {
                parsed matches Ok(hosts) && records(hosts@) == resolved(blocks)
            } else {
                parsed matches Err(ParseConfigError::Pattern)
            },
        },
{
    let blocks = match parser.parse(text) {
        Ok(blocks) => blocks,
        Err(error) => {
            return Err(ParseConfigError::SshConfig(error));
        },
    };
    match try_resolve(&blocks) {
        Some(hosts) => Ok(hosts),
        None => Err(ParseConfigError::Pattern),
    }
}

} // verus!
