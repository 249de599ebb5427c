use sshs::ssh::Host;
use sshs::ui::{
    column_widths, keep_in_range, matches_search, next, on_key_press, on_key_press_ctrl,
    padded_length, previous, Key, KeyAction, PAGE_ROWS,
};

fn host(name: &str, aliases: &str, destination: &str) -> Host {
    Host {
        name: name.to_string(),
        aliases: aliases.to_string(),
        user: None,
        destination: destination.to_string(),
        port: None,
        proxy_command: None,
    }
}

#[test]
fn next_moves_down_and_wraps() {
    assert_eq!(next(None, 5), 0);
    assert_eq!(next(Some(0), 5), 1);
    assert_eq!(next(Some(3), 5), 4);
    assert_eq!(next(Some(4), 5), 0);
    assert_eq!(next(Some(9), 5), 0);
    assert_eq!(next(Some(0), 0), 0);
    assert_eq!(next(Some(0), 1), 0);
    assert_eq!(next(Some(usize::MAX), usize::MAX), 0);
}

#[test]
fn previous_moves_up_and_wraps() {
    assert_eq!(previous(None, 5), 0);
    assert_eq!(previous(Some(0), 5), 4);
    assert_eq!(previous(Some(1), 5), 0);
    assert_eq!(previous(Some(4), 5), 3);
    assert_eq!(previous(Some(3), 0), 0);
    assert_eq!(previous(Some(0), 1), 0);
}

#[test]
fn keys_without_control() {
    assert_eq!(on_key_press(Key::Esc, false, Some(1), 5), KeyAction::Stop);
    assert_eq!(on_key_press(Key::Down, false, Some(1), 5), KeyAction::Select(2));
    assert_eq!(on_key_press(Key::Up, false, Some(1), 5), KeyAction::Select(0));
    assert_eq!(on_key_press(Key::Home, false, Some(3), 5), KeyAction::Select(0));
    assert_eq!(on_key_press(Key::End, false, Some(1), 5), KeyAction::Select(4));
    assert_eq!(on_key_press(Key::Enter, false, Some(1), 5), KeyAction::Run(1));
    assert_eq!(on_key_press(Key::Enter, false, None, 5), KeyAction::Run(0));
    assert_eq!(on_key_press(Key::Enter, false, Some(5), 5), KeyAction::Ignore);
    assert_eq!(on_key_press(Key::Enter, false, None, 0), KeyAction::Ignore);
    assert_eq!(on_key_press(Key::Char('j'), false, Some(1), 5), KeyAction::Continue);
    assert_eq!(on_key_press(Key::Char('c'), false, Some(1), 5), KeyAction::Continue);
    assert_eq!(on_key_press(Key::Other, false, Some(1), 5), KeyAction::Continue);
}

#[test]
fn page_keys_move_by_a_page() {
    assert_eq!(PAGE_ROWS, 21);
    assert_eq!(on_key_press(Key::PageDown, false, Some(1), 100), KeyAction::Select(22));
    assert_eq!(on_key_press(Key::PageDown, false, None, 100), KeyAction::Select(21));
    assert_eq!(on_key_press(Key::PageDown, false, Some(90), 100), KeyAction::Select(99));
    assert_eq!(on_key_press(Key::PageDown, false, Some(78), 100), KeyAction::Select(99));
    assert_eq!(on_key_press(Key::PageDown, false, Some(77), 100), KeyAction::Select(98));
    assert_eq!(
        on_key_press(Key::PageDown, false, Some(usize::MAX), 3),
        KeyAction::Select(2)
    );
    assert_eq!(on_key_press(Key::PageUp, false, Some(30), 100), KeyAction::Select(9));
    assert_eq!(on_key_press(Key::PageUp, false, Some(21), 100), KeyAction::Select(0));
    assert_eq!(on_key_press(Key::PageUp, false, Some(5), 100), KeyAction::Select(0));
    assert_eq!(on_key_press(Key::PageUp, false, None, 0), KeyAction::Select(0));
}

#[test]
fn keys_with_control() {
    assert_eq!(on_key_press(Key::Char('c'), true, Some(1), 5), KeyAction::Stop);
    assert_eq!(on_key_press(Key::Char('j'), true, Some(1), 5), KeyAction::Select(2));
    assert_eq!(on_key_press(Key::Char('k'), true, Some(1), 5), KeyAction::Select(0));
    assert_eq!(on_key_press(Key::Char('x'), true, Some(1), 5), KeyAction::Continue);
    assert_eq!(on_key_press(Key::Down, true, Some(1), 5), KeyAction::Select(2));
    assert_eq!(on_key_press(Key::Esc, true, Some(1), 5), KeyAction::Stop);
    assert_eq!(on_key_press_ctrl(Key::Char('c'), None, 0), KeyAction::Stop);
    assert_eq!(on_key_press_ctrl(Key::Char('j'), Some(4), 5), KeyAction::Select(0));
    assert_eq!(on_key_press_ctrl(Key::Char('k'), Some(0), 5), KeyAction::Select(4));
    assert_eq!(on_key_press_ctrl(Key::Enter, Some(0), 5), KeyAction::Continue);
}

#[test]
fn selection_is_kept_in_range() {
    assert_eq!(keep_in_range(Some(2), 5), Some(2));
    assert_eq!(keep_in_range(Some(5), 5), Some(4));
    assert_eq!(keep_in_range(Some(9), 1), Some(0));
    assert_eq!(keep_in_range(Some(3), 0), Some(0));
    assert_eq!(keep_in_range(None, 0), Some(0));
    assert_eq!(keep_in_range(None, 3), None);
}

#[test]
fn search_goes_by_name_destination_and_aliases() {
    let web = host("web-server", "www, site", "10.0.0.7");
    assert!(matches_search(&web, ""));
    assert!(matches_search(&web, "web"));
    assert!(matches_search(&web, "wsr"));
    assert!(matches_search(&web, "site"));
    assert!(matches_search(&web, "10.7"));
    assert!(!matches_search(&web, "db"));
    assert!(!matches_search(&web, "bew"));
    assert!(!matches_search(&web, "web-server-x"));
    let empty = host("", "", "");
    assert!(matches_search(&empty, ""));
    assert!(!matches_search(&empty, "a"));
}

#[test]
fn column_widths_are_those_of_the_widest_cells() {
    let mut first = host("ab", "alias-one", "destination");
    first.user = Some("me".to_string());
    first.port = Some("22".to_string());
    let mut second = host("日本語", "", "d");
    second.user = Some("somebody".to_string());
    second.proxy_command = Some("ssh -W %h:%p jump".to_string());
    let third = host("much-longer-name", "x", "y");
    let shown = vec![first.clone(), second.clone()];
    let all = vec![first, second, third];
    assert_eq!(column_widths(&shown, &all, false), vec![6, 9, 8, 11, 2]);
    assert_eq!(column_widths(&shown, &all, true), vec![6, 9, 8, 11, 2, 17]);
    assert_eq!(column_widths(&all, &all, false), vec![16, 9, 8, 11, 2]);
    assert_eq!(column_widths(&Vec::new(), &Vec::new(), true), vec![0, 0, 0, 0, 0, 0]);
}

#[test]
fn padded_length_adds_one() {
    assert_eq!(padded_length(0), 1);
    assert_eq!(padded_length(16), 17);
    assert_eq!(padded_length(65534), 65535);
    assert_eq!(padded_length(65536), 1);
    assert_eq!(padded_length(usize::MAX), 1);
}
