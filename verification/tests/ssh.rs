use sshs::ssh::{include_path, parse_config, resolvable, resolve, try_resolve, Host, ParseConfigError};
use sshs::ssh_config::host::Host as Block;
use sshs::ssh_config::parser::Parser;
use sshs::ssh_config::pattern::{
    has_wildcard, regex_source_of, starts_negated, wildcard_applies, wildcard_compiles,
};
use sshs::ssh_config::parser_error::ParseError;
use sshs::ssh_config::EntryType;

fn block(patterns: &[&str], entries: &[(EntryType, &str)]) -> Block {
    let mut block = Block::new(patterns.iter().map(|p| p.to_string()).collect());
    for (key, value) in entries {
        block.update((key.clone(), value.to_string()));
    }
    block
}

#[test]
fn host_wildcard_applies_to_named_host() {
    let config = "\
        Host *\n\
            User global\n\
            Port 22\n\
        Host test\n\
            Hostname test-host\n";
    let hosts = parse_config(&Parser::new(), config).unwrap();
    assert_eq!(hosts.len(), 1);
    assert_eq!(hosts[0].name, "test");
    assert_eq!(hosts[0].user.as_deref(), Some("global"));
    assert_eq!(hosts[0].port.as_deref(), Some("22"));
    assert_eq!(hosts[0].destination, "test-host");
    assert_eq!(hosts[0].aliases, "");
    assert_eq!(hosts[0].proxy_command, None);
}

#[test]
fn wildcard_in_an_included_file_applies_to_later_hosts() {
    let mut parser = Parser::new();
    parser.add_include("fallback", vec!["Host *\n    User fallback\n    Port 2022".to_string()]);
    let config = "Include fallback\n\
        Host jumpbox\n\
            ProxyJump user@proxy.example.com\n\
        Host db\n\
            ProxyCommand ssh -W %h:%p jumpbox";
    let hosts = parse_config(&parser, config).unwrap();
    assert_eq!(hosts.len(), 2);
    assert_eq!(hosts[0].name, "jumpbox");
    assert_eq!(hosts[0].user.as_deref(), Some("fallback"));
    assert_eq!(hosts[0].port.as_deref(), Some("2022"));
    assert_eq!(hosts[1].name, "db");
    assert_eq!(hosts[1].user.as_deref(), Some("fallback"));
    assert_eq!(hosts[1].port.as_deref(), Some("2022"));
    assert_eq!(hosts[1].proxy_command.as_deref(), Some("ssh -W %h:%p jumpbox"));
}

#[test]
fn included_global_options_reach_the_hosts() {
    let mut parser = Parser::new();
    parser.add_include("options", vec!["User test_included".to_string()]);
    let hosts = parse_config(&parser, "Include options\nHost main\n    Port 2222\n").unwrap();
    assert_eq!(hosts.len(), 1);
    assert_eq!(hosts[0].name, "main");
    assert_eq!(hosts[0].user.as_deref(), Some("test_included"));
    assert_eq!(hosts[0].port.as_deref(), Some("2222"));
}

#[test]
fn negated_pattern_beside_a_wildcard() {
    let config = "Host *\n  Hostname example.com\n\
        Host !example.com\n  User hello\n\
        Host example.com\n  Port 22\n\
        Host hello.com\n  Port 22\n";
    let hosts = parse_config(&Parser::new(), config).unwrap();
    assert_eq!(hosts.len(), 2);
    assert_eq!(hosts[0].name, "example.com");
    assert_eq!(hosts[0].destination, "example.com");
    assert_eq!(hosts[0].user, None);
    assert_eq!(hosts[0].port.as_deref(), Some("22"));
    assert_eq!(hosts[1].name, "hello.com");
    assert_eq!(hosts[1].destination, "example.com");
    assert_eq!(hosts[1].user.as_deref(), Some("hello"));
    assert_eq!(hosts[1].port.as_deref(), Some("22"));
}

#[test]
fn destination_defaults_to_the_name() {
    let hosts = parse_config(&Parser::new(), "Host plain\n  Port 1\nHost named\n  Hostname h\n").unwrap();
    assert_eq!(hosts.len(), 2);
    assert_eq!(hosts[0].name, "plain");
    assert_eq!(hosts[0].destination, "plain");
    assert_eq!(hosts[1].name, "named");
    assert_eq!(hosts[1].destination, "h");
}

#[test]
fn hosts_with_the_same_settings_share_a_row() {
    let config = "Host a b\n  Hostname h\n  Port 1\nHost c\n  Port 2\nHost d\n  Port 1\n  Hostname h\n";
    let hosts = parse_config(&Parser::new(), config).unwrap();
    assert_eq!(hosts.len(), 2);
    assert_eq!(hosts[0].name, "a");
    assert_eq!(hosts[0].aliases, "b, d");
    assert_eq!(hosts[0].destination, "h");
    assert_eq!(hosts[1].name, "c");
    assert_eq!(hosts[1].aliases, "");
    assert_eq!(hosts[1].destination, "c");
}

#[test]
fn only_comments_resolve_to_no_host() {
    let hosts = parse_config(&Parser::new(), "# nothing here\n\n   # at all\n").unwrap();
    assert!(hosts.is_empty());
}

#[test]
fn parse_error_comes_out_as_ssh_config_error() {
    match parse_config(&Parser::new(), "Host a\nLonely\n") {
        Err(ParseConfigError::SshConfig(ParseError::UnparseableLine(line))) => {
            assert_eq!(line, "Lonely")
        }
        other => panic!("unexpected: {:?}", other),
    }
    let from: ParseConfigError = ParseError::UnparseableLine("x".to_string()).into();
    assert!(matches!(from, ParseConfigError::SshConfig(ParseError::UnparseableLine(_))));
}

#[test]
fn pattern_that_is_no_regex_is_a_pattern_error() {
    assert!(matches!(
        parse_config(&Parser::new(), "Host (*\n  Port 1\nHost a\n"),
        Err(ParseConfigError::Pattern)
    ));
    assert!(matches!(
        parse_config(&Parser::new(), "Host \"\n  Port 1\n"),
        Err(ParseConfigError::Pattern)
    ));
}

#[test]
fn resolve_gives_one_record_for_each_merged_block() {
    let blocks = vec![
        block(&["*"], &[(EntryType::User, "u")]),
        block(&["a", "b"], &[(EntryType::Port, "1")]),
        block(&["c"], &[(EntryType::Hostname, "h"), (EntryType::ProxyCommand, "p")]),
    ];
    assert!(resolvable(&blocks));
    let hosts = resolve(&blocks);
    assert_eq!(hosts.len(), 3);
    assert_eq!(hosts[0].name, "a");
    assert_eq!(hosts[0].destination, "a");
    assert_eq!(hosts[1].name, "b");
    assert_eq!(hosts[1].destination, "b");
    assert_eq!(hosts[2].name, "c");
    assert_eq!(hosts[2].destination, "h");
    assert_eq!(hosts[2].proxy_command.as_deref(), Some("p"));
    for host in &hosts {
        assert_eq!(host.user.as_deref(), Some("u"));
    }
    assert_eq!(try_resolve(&blocks).unwrap().len(), 3);
}

#[test]
fn try_resolve_gives_nothing_where_blocks_cannot_be_resolved() {
    let bad_pattern = vec![block(&["a[*"], &[]), block(&["a"], &[])];
    assert!(!resolvable(&bad_pattern));
    assert!(try_resolve(&bad_pattern).is_none());
    let unnamed = vec![block(&[], &[(EntryType::Port, "1")])];
    assert!(!resolvable(&unnamed));
    assert!(try_resolve(&unnamed).is_none());
    let unnamed_with_hostname = vec![block(&[], &[(EntryType::Hostname, "h")])];
    let hosts = try_resolve(&unnamed_with_hostname).unwrap();
    assert_eq!(hosts.len(), 1);
    assert_eq!(hosts[0].name, "");
    assert_eq!(hosts[0].aliases, "");
    assert_eq!(hosts[0].destination, "h");
}

#[test]
fn from_block_joins_aliases() {
    let host = Host::from_block(&block(
        &["first", "second", "third"],
        &[(EntryType::User, "u"), (EntryType::Port, "1")],
    ));
    assert_eq!(host.name, "first");
    assert_eq!(host.aliases, "second, third");
    assert_eq!(host.user.as_deref(), Some("u"));
    assert_eq!(host.port.as_deref(), Some("1"));
    assert_eq!(host.destination, "");
    assert_eq!(host.proxy_command, None);
    let single = Host::from_block(&block(&["only", "other"], &[]));
    assert_eq!(single.aliases, "other");
    let copy = single.clone();
    assert_eq!(copy.name, "only");
    assert_eq!(copy.aliases, "other");
}

#[test]
fn include_path_is_relative_to_the_directory() {
    assert_eq!(include_path("/etc/ssh/extra", "/home/me/.ssh"), "/etc/ssh/extra");
    assert_eq!(include_path("conf.d/*", "/home/me/.ssh"), "/home/me/.ssh/conf.d/*");
    assert_eq!(include_path("", "/home/me/.ssh"), "/home/me/.ssh/");
    assert_eq!(include_path("~other/x", "d"), "d/~other/x");
}

#[test]
fn regex_source_of_a_pattern() {
    assert_eq!(regex_source_of("*.example.com"), "^.*\\.example\\.com$");
    assert_eq!(regex_source_of("!web?"), "^web.$");
    assert_eq!(regex_source_of("plain"), "^plain$");
    assert_eq!(regex_source_of(""), "^$");
    assert_eq!(regex_source_of("!"), "^$");
    assert_eq!(regex_source_of("a!b"), "^a!b$");
    assert!(has_wildcard("a*"));
    assert!(has_wildcard("a?"));
    assert!(has_wildcard("a!"));
    assert!(!has_wildcard("a.b"));
    assert!(starts_negated("!a"));
    assert!(!starts_negated("a!"));
    assert!(!starts_negated(""));
}

#[test]
fn wildcard_applies_goes_by_the_regex() {
    assert_eq!(wildcard_applies("*", "anything"), Some(true));
    assert_eq!(wildcard_applies("web?", "web1"), Some(true));
    assert_eq!(wildcard_applies("web?", "web10"), Some(false));
    assert_eq!(wildcard_applies("web?", "xweb1"), Some(false));
    assert_eq!(wildcard_applies("*.example.com", "a.example.com"), Some(true));
    assert_eq!(wildcard_applies("*.example.com", "a.example.org"), Some(false));
    assert_eq!(wildcard_applies("!example.com", "example.com"), Some(false));
    assert_eq!(wildcard_applies("!example.com", "hello.com"), Some(true));
    assert_eq!(wildcard_applies("a[*", "a"), None);
    assert_eq!(wildcard_applies("^", "^"), Some(false));
    assert!(wildcard_compiles("*"));
    assert!(wildcard_compiles("a+*"));
    assert!(!wildcard_compiles("(*"));
    assert!(!wildcard_compiles("*)"));
}
