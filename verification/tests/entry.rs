use sshs::ssh_config::host_entry::KEYWORD_COUNT;
use sshs::ssh_config::EntryType;

#[test]
fn keywords_are_numbered_in_order() {
    assert_eq!(EntryType::Unknown("x".to_string()).ordinal(), 0);
    assert_eq!(EntryType::Host.ordinal(), 1);
    assert_eq!(EntryType::Match.ordinal(), 2);
    assert_eq!(EntryType::XAuthLocation.ordinal(), KEYWORD_COUNT);
    for number in 1..=KEYWORD_COUNT {
        assert_eq!(EntryType::keyword(number).ordinal(), number);
    }
}

#[test]
fn every_keyword_is_read_by_its_name_in_any_case() {
    for number in 1..=KEYWORD_COUNT {
        let name = EntryType::keyword_str(number);
        assert!(!name.is_empty());
        assert_eq!(EntryType::from_name(name).ordinal(), number);
        assert_eq!(EntryType::from_name(&name.to_ascii_lowercase()).ordinal(), number);
        assert_eq!(EntryType::from_name(&name.to_ascii_uppercase()).ordinal(), number);
    }
}

#[test]
fn well_known_keywords_have_their_names() {
    assert_eq!(EntryType::keyword_str(EntryType::Host.ordinal()), "Host");
    assert_eq!(EntryType::keyword_str(EntryType::Include.ordinal()), "Include");
    assert_eq!(EntryType::keyword_str(EntryType::Hostname.ordinal()), "Hostname");
    assert_eq!(EntryType::keyword_str(EntryType::User.ordinal()), "User");
    assert_eq!(EntryType::keyword_str(EntryType::Port.ordinal()), "Port");
    assert_eq!(EntryType::keyword_str(EntryType::ProxyCommand.ordinal()), "ProxyCommand");
    assert_eq!(EntryType::keyword_str(EntryType::ProxyJump.ordinal()), "ProxyJump");
}

#[test]
fn other_text_is_an_unknown_key_kept_as_written() {
    match EntryType::from_name("BogusEntry") {
        EntryType::Unknown(text) => assert_eq!(text, "BogusEntry"),
        other => panic!("unexpected: {:?}", other),
    }
    assert!(matches!(EntryType::from_name(""), EntryType::Unknown(_)));
    assert!(matches!(EntryType::from_name("Hostnam"), EntryType::Unknown(_)));
    assert!(matches!(EntryType::from_name("Hostname "), EntryType::Unknown(_)));
    assert!(matches!(EntryType::from_name("Unknown"), EntryType::Unknown(_)));
    assert!(matches!(EntryType::from_name("hOSTNAME"), EntryType::Hostname));
}

#[test]
fn same_key_and_clone_agree() {
    let keys = [
        EntryType::Host,
        EntryType::Port,
        EntryType::Unknown("a".to_string()),
        EntryType::Unknown("A".to_string()),
    ];
    for (i, a) in keys.iter().enumerate() {
        assert!(a.same_key(&a.clone()));
        for (j, b) in keys.iter().enumerate() {
            assert_eq!(a.same_key(b), i == j);
        }
    }
}
