use sshs::ssh_config::host::Host;
use sshs::ssh_config::host_list::HostVecExt;
use sshs::ssh_config::EntryType;

fn host(patterns: &[&str], entries: &[(EntryType, &str)]) -> Host {
    let mut host = Host::new(patterns.iter().map(|p| p.to_string()).collect());
    for (key, value) in entries {
        host.update((key.clone(), value.to_string()));
    }
    host
}

#[test]
fn test_apply_patterns() {
    let mut hosts = Vec::new();

    let mut host = Host::new(vec!["*".to_string()]);
    host.update((EntryType::Hostname, "example.com".to_string()));
    hosts.push(host);

    let mut host = Host::new(vec!["!example.com".to_string()]);
    host.update((EntryType::User, "hello".to_string()));
    hosts.push(host);

    let mut host = Host::new(vec!["example.com".to_string()]);
    host.update((EntryType::Port, "22".to_string()));
    hosts.push(host);

    let mut host = Host::new(vec!["hello.com".to_string()]);
    host.update((EntryType::Port, "22".to_string()));
    hosts.push(host);

    let hosts = hosts.apply_patterns();

    assert_eq!(hosts.len(), 2);

    assert_eq!(hosts[0].get_patterns().len(), 1);
    assert_eq!(hosts[0].get_patterns()[0], "example.com");
    assert_eq!(hosts[0].entry_count(), 2);
    assert_eq!(hosts[0].get(&EntryType::Hostname).unwrap(), "example.com");
    assert_eq!(hosts[0].get(&EntryType::Port).unwrap(), "22");

    assert_eq!(hosts[1].get_patterns().len(), 1);
    assert_eq!(hosts[1].get_patterns()[0], "hello.com");
    assert_eq!(hosts[1].entry_count(), 3);
    assert_eq!(hosts[1].get(&EntryType::Hostname).unwrap(), "example.com");
    assert_eq!(hosts[1].get(&EntryType::User).unwrap(), "hello");
    assert_eq!(hosts[1].get(&EntryType::Port).unwrap(), "22");
}

#[test]
fn test_spread() {
    let mut hosts = Vec::new();

    let mut host = Host::new(vec!["example.com".to_string()]);
    host.update((EntryType::Port, "22".to_string()));
    hosts.push(host);

    let mut host = Host::new(vec!["hello.com".to_string(), "world.com".to_string()]);
    host.update((EntryType::Port, "22".to_string()));
    hosts.push(host);

    let hosts = hosts.spread();

    assert_eq!(hosts.len(), 3);

    assert_eq!(hosts[0].get_patterns().len(), 1);
    assert_eq!(hosts[0].get_patterns()[0], "example.com");
    assert_eq!(hosts[0].entry_count(), 1);
    assert_eq!(hosts[0].get(&EntryType::Port).unwrap(), "22");

    assert_eq!(hosts[1].get_patterns().len(), 1);
    assert_eq!(hosts[1].get_patterns()[0], "hello.com");
    assert_eq!(hosts[1].entry_count(), 1);
    assert_eq!(hosts[1].get(&EntryType::Port).unwrap(), "22");

    assert_eq!(hosts[2].get_patterns().len(), 1);
    assert_eq!(hosts[2].get_patterns()[0], "world.com");
    assert_eq!(hosts[2].entry_count(), 1);
    assert_eq!(hosts[2].get(&EntryType::Port).unwrap(), "22");
}

#[test]
fn test_merge_same_hosts() {
    let mut hosts = Vec::new();

    let mut host = Host::new(vec!["same1.com".to_string()]);
    host.update((EntryType::Port, "22".to_string()));
    hosts.push(host);

    let mut host = Host::new(vec!["same2.com".to_string()]);
    host.update((EntryType::Port, "22".to_string()));
    hosts.push(host);

    let hosts = hosts.merge_same_hosts();

    assert_eq!(hosts.len(), 1);

    assert_eq!(hosts[0].get_patterns().len(), 2);
    assert_eq!(hosts[0].get_patterns()[0], "same1.com");
    assert_eq!(hosts[0].entry_count(), 1);
    assert_eq!(hosts[0].get(&EntryType::Port).unwrap(), "22");
}

#[test]
fn merged_row_lists_both_names_in_order() {
    let hosts = vec![
        host(&["same1.com"], &[(EntryType::Port, "22")]),
        host(&["same2.com"], &[(EntryType::Port, "22")]),
    ];
    let merged = hosts.merge_same_hosts();
    assert_eq!(merged.len(), 1);
    assert_eq!(
        merged[0].get_patterns(),
        &vec!["same1.com".to_string(), "same2.com".to_string()]
    );
}

#[test]
fn merge_keeps_first_place_and_gathers_later_names() {
    let hosts = vec![
        host(&["a"], &[(EntryType::Port, "1")]),
        host(&["b"], &[(EntryType::Port, "2")]),
        host(&["c"], &[(EntryType::Port, "1")]),
        host(&["d"], &[(EntryType::Port, "2")]),
        host(&["e"], &[(EntryType::Port, "1")]),
        host(&["f"], &[(EntryType::Port, "1"), (EntryType::User, "u")]),
    ];
    let merged = hosts.merge_same_hosts();
    assert_eq!(merged.len(), 3);
    assert_eq!(
        merged[0].get_patterns(),
        &vec!["a".to_string(), "c".to_string(), "e".to_string()]
    );
    assert_eq!(merged[1].get_patterns(), &vec!["b".to_string(), "d".to_string()]);
    assert_eq!(merged[2].get_patterns(), &vec!["f".to_string()]);
    assert_eq!(merged[0].get(&EntryType::Port).unwrap(), "1");
    assert_eq!(merged[1].get(&EntryType::Port).unwrap(), "2");
}

#[test]
fn merge_is_idempotent_on_an_example() {
    let hosts = vec![
        host(&["a"], &[(EntryType::Port, "1")]),
        host(&["b"], &[(EntryType::Port, "2")]),
        host(&["c", "d"], &[(EntryType::Port, "1")]),
        host(&["e"], &[]),
        host(&["f"], &[]),
    ];
    let once = hosts.merge_same_hosts();
    let twice = once.merge_same_hosts();
    assert_eq!(once.len(), 3);
    assert_eq!(once.len(), twice.len());
    for (first, second) in once.iter().zip(twice.iter()) {
        assert_eq!(first.get_patterns(), second.get_patterns());
        assert!(first.same_entries(second));
    }
    assert_eq!(
        once[0].get_patterns(),
        &vec!["a".to_string(), "c".to_string(), "d".to_string()]
    );
}

#[test]
fn merge_of_nothing_is_nothing() {
    let hosts: Vec<Host> = Vec::new();
    assert_eq!(hosts.merge_same_hosts().len(), 0);
    assert_eq!(hosts.spread().len(), 0);
    assert!(hosts.can_apply_patterns());
    assert_eq!(hosts.apply_patterns().len(), 0);
    assert_eq!(hosts.apply_name_to_empty_hostname().len(), 0);
}

#[test]
fn spread_keeps_patterns_in_order_and_copies_settings() {
    let hosts = vec![
        host(&["a", "b", "c"], &[(EntryType::User, "u"), (EntryType::Port, "1")]),
        host(&[], &[(EntryType::Port, "9")]),
        host(&["d"], &[]),
    ];
    let spread = hosts.spread();
    assert_eq!(spread.len(), 5);
    let names: Vec<Vec<String>> = spread.iter().map(|h| h.get_patterns().clone()).collect();
    assert_eq!(
        names,
        vec![
            vec!["a".to_string()],
            vec!["b".to_string()],
            vec!["c".to_string()],
            vec![],
            vec!["d".to_string()],
        ]
    );
    for block in &spread[0..3] {
        assert_eq!(block.entry_count(), 2);
        assert_eq!(block.get(&EntryType::User).unwrap(), "u");
        assert_eq!(block.get(&EntryType::Port).unwrap(), "1");
    }
    assert_eq!(spread[3].get(&EntryType::Port).unwrap(), "9");
    assert!(spread[4].is_empty());
}

#[test]
fn wildcard_fills_in_and_never_overrides() {
    let hosts = vec![
        host(&["*"], &[(EntryType::User, "global"), (EntryType::Port, "22")]),
        host(&["test"], &[(EntryType::Hostname, "test-host"), (EntryType::Port, "2222")]),
    ];
    let applied = hosts.apply_patterns();
    assert_eq!(applied.len(), 1);
    assert_eq!(applied[0].get_patterns(), &vec!["test".to_string()]);
    assert_eq!(applied[0].get(&EntryType::User).unwrap(), "global");
    assert_eq!(applied[0].get(&EntryType::Port).unwrap(), "2222");
    assert_eq!(applied[0].get(&EntryType::Hostname).unwrap(), "test-host");
    assert_eq!(applied[0].entry_count(), 3);
}

#[test]
fn first_matching_pattern_block_wins() {
    let hosts = vec![
        host(&["web*"], &[(EntryType::User, "first")]),
        host(&["*"], &[(EntryType::User, "second"), (EntryType::Port, "22")]),
        host(&["web1"], &[]),
        host(&["db1"], &[]),
    ];
    let applied = hosts.apply_patterns();
    assert_eq!(applied.len(), 2);
    assert_eq!(applied[0].get(&EntryType::User).unwrap(), "first");
    assert_eq!(applied[0].get(&EntryType::Port).unwrap(), "22");
    assert_eq!(applied[1].get(&EntryType::User).unwrap(), "second");
}

#[test]
fn pattern_block_after_the_host_applies_too() {
    let hosts = vec![
        host(&["web1"], &[]),
        host(&["web?"], &[(EntryType::Port, "8022")]),
        host(&["web10"], &[]),
    ];
    let applied = hosts.apply_patterns();
    assert_eq!(applied.len(), 2);
    assert_eq!(applied[0].get(&EntryType::Port).unwrap(), "8022");
    assert_eq!(applied[1].get(&EntryType::Port), None);
}

#[test]
fn dot_in_a_pattern_is_a_dot() {
    let hosts = vec![
        host(&["*.example.com"], &[(EntryType::User, "u")]),
        host(&["a.example.com"], &[]),
        host(&["a-example-com"], &[]),
        host(&["axexample.com"], &[]),
    ];
    let applied = hosts.apply_patterns();
    assert_eq!(applied.len(), 3);
    assert_eq!(applied[0].get(&EntryType::User).unwrap(), "u");
    assert_eq!(applied[1].get(&EntryType::User), None);
    assert_eq!(applied[2].get(&EntryType::User), None);
}

#[test]
fn multi_pattern_block_is_spread_before_patterns_apply() {
    let hosts = vec![
        host(&["a", "b*"], &[(EntryType::Port, "1")]),
        host(&["bb"], &[]),
    ];
    let applied = hosts.apply_patterns();
    assert_eq!(applied.len(), 2);
    assert_eq!(applied[0].get_patterns(), &vec!["a".to_string()]);
    assert_eq!(applied[0].get(&EntryType::Port).unwrap(), "1");
    assert_eq!(applied[1].get_patterns(), &vec!["bb".to_string()]);
    assert_eq!(applied[1].get(&EntryType::Port).unwrap(), "1");
}

#[test]
fn pattern_that_is_no_regex_cannot_be_applied() {
    let hosts = vec![host(&["[*"], &[(EntryType::Port, "1")]), host(&["a"], &[])];
    assert!(!hosts.can_apply_patterns());
    let fine = vec![host(&["a*"], &[(EntryType::Port, "1")]), host(&["a"], &[])];
    assert!(fine.can_apply_patterns());
}

#[test]
fn unnamed_block_beside_a_pattern_block_cannot_be_applied() {
    let hosts = vec![host(&["*"], &[]), host(&[], &[(EntryType::Port, "1")])];
    assert!(!hosts.can_apply_patterns());
    let alone = vec![host(&[], &[(EntryType::Port, "1")])];
    assert!(alone.can_apply_patterns());
    assert_eq!(alone.apply_patterns().len(), 1);
}

#[test]
fn hostname_defaults_to_the_first_pattern() {
    let hosts = vec![
        host(&["plain"], &[(EntryType::Port, "1")]),
        host(&["named", "alias"], &[(EntryType::Hostname, "10.0.0.1")]),
    ];
    assert!(hosts.can_apply_name_to_empty_hostname());
    let named = hosts.apply_name_to_empty_hostname();
    assert_eq!(named.len(), 2);
    assert_eq!(named[0].get(&EntryType::Hostname).unwrap(), "plain");
    assert_eq!(named[0].get(&EntryType::Port).unwrap(), "1");
    assert_eq!(named[0].entry_count(), 2);
    assert_eq!(named[1].get(&EntryType::Hostname).unwrap(), "10.0.0.1");
    assert_eq!(named[1].entry_count(), 1);
    assert_eq!(
        named[1].get_patterns(),
        &vec!["named".to_string(), "alias".to_string()]
    );
}

#[test]
fn block_without_pattern_and_hostname_cannot_get_a_default() {
    let hosts = vec![host(&[], &[(EntryType::Port, "1")])];
    assert!(!hosts.can_apply_name_to_empty_hostname());
    let named = vec![host(&[], &[(EntryType::Hostname, "h")])];
    assert!(named.can_apply_name_to_empty_hostname());
}

#[test]
fn update_replaces_the_value_of_a_key() {
    let mut block = Host::new(vec!["a".to_string()]);
    assert!(block.is_empty());
    assert_eq!(block.entry_count(), 0);
    block.update((EntryType::Port, "1".to_string()));
    block.update((EntryType::User, "u".to_string()));
    block.update((EntryType::Port, "2".to_string()));
    assert!(!block.is_empty());
    assert_eq!(block.entry_count(), 2);
    assert_eq!(block.get(&EntryType::Port).unwrap(), "2");
    assert_eq!(block.get(&EntryType::User).unwrap(), "u");
    assert_eq!(block.get(&EntryType::Hostname), None);
    assert!(block.contains(&EntryType::User));
    assert!(!block.contains(&EntryType::Hostname));
}

#[test]
fn unknown_keys_are_told_apart_by_their_text() {
    let mut block = Host::new(Vec::new());
    block.update((EntryType::Unknown("one".to_string()), "1".to_string()));
    block.update((EntryType::Unknown("two".to_string()), "2".to_string()));
    block.update((EntryType::Unknown("one".to_string()), "3".to_string()));
    assert_eq!(block.entry_count(), 2);
    assert_eq!(block.get(&EntryType::Unknown("one".to_string())).unwrap(), "3");
    assert_eq!(block.get(&EntryType::Unknown("two".to_string())).unwrap(), "2");
    assert_eq!(block.get(&EntryType::Unknown("One".to_string())), None);
}

#[test]
fn extend_if_not_contained_fills_only_what_is_missing() {
    let mut receiver = host(&["a"], &[(EntryType::Port, "1"), (EntryType::User, "mine")]);
    let donor = host(
        &["*"],
        &[(EntryType::User, "theirs"), (EntryType::Hostname, "h"), (EntryType::Port, "9")],
    );
    receiver.extend_if_not_contained(&donor);
    assert_eq!(receiver.entry_count(), 3);
    assert_eq!(receiver.get(&EntryType::Port).unwrap(), "1");
    assert_eq!(receiver.get(&EntryType::User).unwrap(), "mine");
    assert_eq!(receiver.get(&EntryType::Hostname).unwrap(), "h");
    assert_eq!(receiver.get_patterns(), &vec!["a".to_string()]);
}

#[test]
fn extend_entries_takes_over_every_setting() {
    let mut receiver = host(&["a"], &[(EntryType::Port, "1"), (EntryType::User, "mine")]);
    let donor = host(&["b"], &[(EntryType::User, "theirs"), (EntryType::Hostname, "h")]);
    receiver.extend_entries(&donor);
    assert_eq!(receiver.entry_count(), 3);
    assert_eq!(receiver.get(&EntryType::Port).unwrap(), "1");
    assert_eq!(receiver.get(&EntryType::User).unwrap(), "theirs");
    assert_eq!(receiver.get(&EntryType::Hostname).unwrap(), "h");
}

#[test]
fn extend_patterns_appends() {
    let mut receiver = host(&["a"], &[(EntryType::Port, "1")]);
    let donor = host(&["b", "c"], &[(EntryType::User, "u")]);
    receiver.extend_patterns(&donor);
    assert_eq!(
        receiver.get_patterns(),
        &vec!["a".to_string(), "b".to_string(), "c".to_string()]
    );
    assert_eq!(receiver.entry_count(), 1);
}

#[test]
fn same_entries_goes_by_keys_and_values() {
    let a = host(&["a"], &[(EntryType::Port, "1"), (EntryType::User, "u")]);
    let b = host(&["b"], &[(EntryType::User, "u"), (EntryType::Port, "1")]);
    let c = host(&["c"], &[(EntryType::Port, "1")]);
    let d = host(&["d"], &[(EntryType::Port, "1"), (EntryType::User, "v")]);
    assert!(a.same_entries(&b));
    assert!(b.same_entries(&a));
    assert!(!a.same_entries(&c));
    assert!(!c.same_entries(&a));
    assert!(!a.same_entries(&d));
}

#[test]
fn clone_and_with_patterns_keep_the_settings() {
    let a = host(&["a", "b"], &[(EntryType::Port, "1"), (EntryType::User, "u")]);
    let copy = a.clone();
    assert_eq!(copy.get_patterns(), a.get_patterns());
    assert!(copy.same_entries(&a));
    let renamed = a.with_patterns(vec!["z".to_string()]);
    assert_eq!(renamed.get_patterns(), &vec!["z".to_string()]);
    assert!(renamed.same_entries(&a));
}

#[test]
fn matching_pattern_regexes_translates_wildcards() {
    let block = host(&["plain.host", "*.example.com", "!web?", "a?b*"], &[]);
    let found = block.matching_pattern_regexes();
    assert_eq!(
        found,
        vec![
            ("^.*\\.example\\.com$".to_string(), false),
            ("^web.$".to_string(), true),
            ("^a.b.*$".to_string(), false),
        ]
    );
    assert!(host(&["plain"], &[]).matching_pattern_regexes().is_empty());
    assert!(host(&[], &[]).matching_pattern_regexes().is_empty());
}
