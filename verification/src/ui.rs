//! What the host browser decides: which row a key selects, what a key makes
//! the browser do, which hosts a search lets through, and how wide the
//! columns of the table have to be.
use crate::ssh::Host;
use vstd::prelude::*;

verus! {

/// How many rows a page key moves the selection.
pub const PAGE_ROWS: usize = 21;

/// Whether the matcher `fuzzy_matcher::skim::SkimMatcherV2`, made by
/// `default`, finds `pattern` in `choice`: whether its `fuzzy_match` gives a
/// score.
pub uninterp spec fn fuzzy_matches(choice: Seq<char>, pattern: Seq<char>) -> bool;

/// The width in columns of a text on a terminal, as
/// `unicode_width::UnicodeWidthStr::width` counts it.
pub uninterp spec fn display_width(text: Seq<char>) -> usize;

/// Makes a `fuzzy_matcher::skim::SkimMatcherV2` by `default`, calls its
/// `fuzzy_match` and tells whether that gave a score.
#[verifier::external_body]
fn fuzzy_found(choice: &str, pattern: &str) -> (found: bool)
    ensures
        found == fuzzy_matches(choice@, pattern@),
{
    let matcher = fuzzy_matcher::skim::SkimMatcherV2::default();
    fuzzy_matcher::FuzzyMatcher::fuzzy_match(&matcher, choice, pattern).is_some()
}

/// Calls `unicode_width::UnicodeWidthStr::width`.
#[verifier::external_body]
fn width_of(text: &str) -> (width: usize)
    ensures
        width == display_width(text@),
{
    unicode_width::UnicodeWidthStr::width(text)
}

/// A key, as far as the browser tells keys apart.
#[derive(Debug, Clone, Copy, PartialEq, Eq, Structural)]
pub enum Key {
    Esc,
    Down,
    Up,
    Home,
    End,
    PageDown,
    PageUp,
    Enter,
    Char(char),
    Other,
}

/// What the browser does on a key.
#[derive(Debug, Clone, Copy, PartialEq, Eq, Structural)]
pub enum KeyAction {
    /// The browser ends.
    Stop,
    /// The row is selected.
    Select(usize),
    /// The command is run for the host in the row.
    Run(usize),
    /// The key is used up and changes nothing.
    Ignore,
    /// The key is none of the browser's own and goes to the search field.
    Continue,
}

/// The row below the selected one, or the first row from the last one, from
/// no selection, and in an empty table.
pub open spec fn next_row(selected: Option<usize>, rows: usize) -> usize {
    match selected {
        Some(row) => if rows == 0 || row >= rows - 1 {
            0
        } else {
            (row + 1) as usize
        },
        None => 0,
    }
}

/// The row above the selected one, or the last row from the first one; the
/// first row from no selection and in an empty table.
pub open spec fn previous_row(selected: Option<usize>, rows: usize) -> usize {
    match selected {
        Some(row) => if rows == 0 {
            0
        } else if row == 0 {
            (rows - 1) as usize
        } else {
            (row - 1) as usize
        },
        None => 0,
    }
}

/// The row of a selection, the first row where nothing is selected.
pub open spec fn row_of(selected: Option<usize>) -> usize {
    match selected {
        Some(row) => row,
        None => 0,
    }
}

/// The row a page further down, and the last row at most.
pub open spec fn page_down_row(selected: Option<usize>, rows: usize) -> usize {
    let target = if row_of(selected) + PAGE_ROWS > usize::MAX {
        usize::MAX
    } else {
        (row_of(selected) + PAGE_ROWS) as usize
    };
    if target < rows - 1 {
        target
    } else {
        (rows - 1) as usize
    }
}

/// The row a page further up, and the first row at least.
pub open spec fn page_up_row(selected: Option<usize>) -> usize {
    if row_of(selected) < PAGE_ROWS {
        0
    } else {
        (row_of(selected) - PAGE_ROWS) as usize
    }
}

/// What a key does that is pressed together with the control key: `c` ends
/// the browser, `j` and `k` move the selection down and up, and any other key
/// does what it does without the control key.
pub open spec fn control_action(key: Key, selected: Option<usize>, rows: usize) -> KeyAction {
    if key == Key::Char('c') {
        KeyAction::Stop
    } else if key == Key::Char('j') {
        KeyAction::Select(next_row(selected, rows))
    } else if key == Key::Char('k') {
        KeyAction::Select(previous_row(selected, rows))
    } else {
        KeyAction::Continue
    }
}

/// What a key does without the control key.
pub open spec fn plain_action(key: Key, selected: Option<usize>, rows: usize) -> KeyAction {
    match key {
        Key::Esc => KeyAction::Stop,
        Key::Down => KeyAction::Select(next_row(selected, rows)),
        Key::Up => KeyAction::Select(previous_row(selected, rows)),
        Key::Home => KeyAction::Select(0),
        Key::End => KeyAction::Select((rows - 1) as usize),
        Key::PageDown => KeyAction::Select(page_down_row(selected, rows)),
        Key::PageUp => KeyAction::Select(page_up_row(selected)),
        Key::Enter => if row_of(selected) >= rows {
            KeyAction::Ignore
        } else {
            KeyAction::Run(row_of(selected))
        },
        _ => KeyAction::Continue,
    }
}

/// What a key does.
pub open spec fn key_action(key: Key, control: bool, selected: Option<usize>, rows: usize) -> KeyAction {
    if control && control_action(key, selected, rows) != KeyAction::Continue {
        control_action(key, selected, rows)
    } else {
        plain_action(key, selected, rows)
    }
}

/// The selection once the table has `rows` rows: a selection beyond the last
/// row moves to the last row, and to the first row of an empty table.
pub open spec fn kept_in_range(selected: Option<usize>, rows: usize) -> Option<usize> {
    if row_of(selected) >= rows {
        Some(
            if rows == 0 {
                0usize
            } else {
                (rows - 1) as usize
            },
        )
    } else {
        selected
    }
}

/// Whether a search lets a host through: an empty search lets every host
/// through, any other search those whose name, destination or aliases the
/// matcher finds it in.
pub open spec fn host_matches(host: Host, search_value: Seq<char>) -> bool {
    search_value.len() == 0 || fuzzy_matches(host.name@, search_value) || fuzzy_matches(
        host.destination@,
        search_value,
    ) || fuzzy_matches(host.aliases@, search_value)
}

/// The text of an optional setting; the empty text where it is not set.
pub open spec fn shown_text(value: Option<String>) -> Seq<char> {
    match value {
        Some(text) => text@,
        None => Seq::empty(),
    }
}

/// The texts of one column of the table: the name, the aliases, the user, the
/// destination, the port and the proxy command of a host, counted from zero.
pub open spec fn cell(host: Host, column: int) -> Seq<char> {
    if column == 0 {
        host.name@
    } else if column == 1 {
        host.aliases@
    } else if column == 2 {
        shown_text(host.user)
    } else if column == 3 {
        host.destination@
    } else if column == 4 {
        shown_text(host.port)
    } else {
        shown_text(host.proxy_command)
    }
}

/// The width of the widest cell in a column; zero for no hosts.
pub open spec fn widest(hosts: Seq<Host>, column: int) -> usize
    decreases hosts.len(),
{
    if hosts.len() == 0 {
        0
    } else {
        let before = widest(hosts.drop_last(), column);
        let last = display_width(cell(hosts.last(), column));
        if last > before {
            last
        } else {
            before
        }
    }
}

/// The row that the down key selects.
pub fn next(selected: Option<usize>, rows: usize) -> (row: usize)
    ensures
        row == next_row(selected, rows),
{
    match selected {
        Some(row) => {
            if rows == 0 || row >= rows - 1 {
                0
            } else {
                row + 1
            }
        },
        None => 0,
    }
}

/// The row that the up key selects.
pub fn previous(selected: Option<usize>, rows: usize) -> (row: usize)
    ensures
        row == previous_row(selected, rows),
{
    match selected {
        Some(row) => {
            if rows == 0 {
                0
            } else if row == 0 {
                rows - 1
            } else {
                row - 1
            }
        },
        None => 0,
    }
}

/// What the browser does on a key pressed with the control key; `Continue`
/// where the control key makes no difference.
pub fn on_key_press_ctrl(key: Key, selected: Option<usize>, rows: usize) -> (action: KeyAction)
    ensures
        action == control_action(key, selected, rows),
{
    match key {
        Key::Char(c) => {
            if c == 'c' {
                KeyAction::Stop
            } else if c == 'j' {
                KeyAction::Select(next(selected, rows))
            } else if c == 'k' {
                KeyAction::Select(previous(selected, rows))
            } else {
                KeyAction::Continue
            }
        },
        _ => KeyAction::Continue,
    }
}

/// What the browser does on a key, given the selection and the number of
/// rows shown. The end key and the page-down key need a row to go to.
pub fn on_key_press(key: Key, control: bool, selected: Option<usize>, rows: usize) -> (action:
    KeyAction)
    requires
        key == Key::End || key == Key::PageDown ==> rows > 0,
    ensures
        action == key_action(key, control, selected, rows),
{
    if control {
        let action = on_key_press_ctrl(key, selected, rows);
        match action {
            KeyAction::Continue => {},
            _ => {
                return action;
            },
        }
    }
    let row = match selected {
        Some(row) => row,
        None => 0,
    };
    match key {
        Key::Esc => KeyAction::Stop,
        Key::Down => KeyAction::Select(next(selected, rows)),
        Key::Up => KeyAction::Select(previous(selected, rows)),
        Key::Home => KeyAction::Select(0),
        Key::End => KeyAction::Select(rows - 1),
        Key::PageDown => {
            let target = row.saturating_add(PAGE_ROWS);
            KeyAction::Select(
                if target < rows - 1 {
                    target
                } else {
                    rows - 1
                },
            )
        },
        Key::PageUp => KeyAction::Select(row.saturating_sub(PAGE_ROWS)),
        Key::Enter => {
            if row >= rows {
                KeyAction::Ignore
            } else {
                KeyAction::Run(row)
            }
        },
        _ => KeyAction::Continue,
    }
}

/// The selection after a search has changed the number of rows shown.
pub fn keep_in_range(selected: Option<usize>, rows: usize) -> (kept: Option<usize>)
    ensures
        kept == kept_in_range(selected, rows),
{
    let row = match selected {
        Some(row) => row,
        None => 0,
    };
    if row >= rows {
        if rows == 0 {
            Some(0)
        } else {
            Some(rows - 1)
        }
    } else {
        selected
    }
}

/// Whether a search lets a host through.
pub fn matches_search(host: &Host, search_value: &str) -> (found: bool)
    ensures
        found == host_matches(*host, search_value@),
{
    search_value.unicode_len() == 0 || fuzzy_found(host.name.as_str(), search_value)
        || fuzzy_found(host.destination.as_str(), search_value) || fuzzy_found(
        host.aliases.as_str(),
        search_value,
    )
}

/// The width of a cell of the table.
fn cell_width(host: &Host, column: usize) -> (width: usize)
    ensures
        width == display_width(cell(*host, column as int)),
{
    if column == 0 {
        width_of(host.name.as_str())
    } else if column == 1 {
        width_of(host.aliases.as_str())
    } else if column == 3 {
        width_of(host.destination.as_str())
    } else {
        let value = if column == 2 {
            &host.user
        } else if column == 4 {
            &host.port
        } else {
            &host.proxy_command
        };
        match value {
            Some(text) => width_of(text.as_str()),
            None => {
                proof {
                    reveal_strlit("");
                    assert(""@ =~= Seq::<char>::empty());
                }
                width_of("")
            },
        }
    }
}

/// The width of the widest cell in a column.
fn column_width(hosts: &Vec<Host>, column: usize) -> (width: usize)
    ensures
        width == widest(hosts@, column as int),
{
    let mut width: usize = 0;
    let mut i: usize = 0;
    assert(hosts@.take(0) =~= Seq::<Host>::empty());
    while i < hosts.len()
        invariant
            i <= hosts.len(),
            width == widest(hosts@.take(i as int), column as int),
        decreases hosts.len() - i,
    {
        proof {
            assert(hosts@.take(i + 1).drop_last() =~= hosts@.take(i as int));
            assert(hosts@.take(i + 1).last() == hosts[i as int]);
        }
        let here = cell_width(&hosts[i], column);
        if here > width {
            width = here;
        }
        i += 1;
    }
    assert(hosts@.take(i as int) =~= hosts@);
    width
}

/// The widths that the columns of the table need: that of the widest name
/// among the hosts shown, and those of the widest aliases, user, destination
/// and port among all hosts, and of the widest proxy command where that
/// column is shown.
pub fn column_widths(shown: &Vec<Host>, all: &Vec<Host>, show_proxy_command: bool) -> (widths: Vec<
    usize,
>)
    ensures
        widths.len() == if show_proxy_command {
            6int
        } else {
            5int
        },
        widths[0] == widest(shown@, 0),
        forall|column: int| 1 <= column < widths.len() ==> widths[column] == widest(all@, column),
{
    let mut widths: Vec<usize> = Vec::new();
    widths.push(column_width(shown, 0));
    let count: usize = if show_proxy_command {
        6
    } else {
        5
    };
    let mut column: usize = 1;
    while column < count
        invariant
            1 <= column <= count <= 6,
            widths.len() == column,
            widths[0] == widest(shown@, 0),
            forall|c: int| 1 <= c < column ==> widths[c] == widest(all@, c),
        decreases count - column,
    {
        widths.push(column_width(all, column));
        column += 1;
    }
    widths
}

/// The length of a column that leaves one blank beside the widest cell: one
/// more than the width, and one for a width that is too large to count.
pub fn padded_length(width: usize) -> (length: u16)
    requires
        width != u16::MAX,
    ensures
        length == if width < u16::MAX {
            width + 1
        } else {
            1
        },
{
    if width < 65535 {
        let narrow: u16 = width as u16;
        narrow + 1
    } else {
        1
    }
}

} // verus!
