use fsbrowse::browser::{Application, Command, Key, Mode};
use fsbrowse::entry::Entry;

fn path(parts: &[&str]) -> Vec<String> {
    parts.iter().map(|s| s.to_string()).collect()
}

fn entries(items: &[(&str, bool)]) -> Vec<Entry> {
    items.iter().map(|(n, d)| Entry::new(n.to_string(), *d)).collect()
}

fn names(a: &Application) -> Vec<String> {
    a.shown_entries().iter().map(|e| e.name.clone()).collect()
}

fn start() -> Application {
    Application::new(path(&["home"]), entries(&[("a.txt", false), ("bdir", true), ("abc.rs", false)]))
}

fn type_keys(a: &mut Application, text: &str) {
    for c in text.chars() {
        assert_eq!(a.handle_key(Key::Char(c)), Command::Continue);
    }
}

#[test]
fn new_shows_every_entry() {
    let a = start();
    assert_eq!(names(&a), vec!["a.txt", "bdir", "abc.rs"]);
    assert_eq!(a.selected(), 0);
    assert_eq!(a.mode(), Mode::Browsing);
    assert!(a.is_running());
}

#[test]
fn filter_prefix_keeps_relative_order() {
    let mut a = start();
    a.handle_key(Key::Char('i'));
    assert_eq!(a.mode(), Mode::Searching);
    type_keys(&mut a, "^a");
    assert_eq!(names(&a), vec!["a.txt", "abc.rs"]);
    assert_eq!(a.selected(), 0);
    assert_eq!(a.handle_key(Key::Enter), Command::Continue);
    assert_eq!(a.mode(), Mode::Browsing);
    assert_eq!(a.input(), &vec!['^', 'a']);
    assert_eq!(names(&a), vec!["a.txt", "abc.rs"]);
}

#[test]
fn enter_on_directory_descends_and_resets() {
    let mut a = start();
    a.handle_key(Key::Char('i'));
    type_keys(&mut a, "d");
    a.handle_key(Key::Enter);
    assert_eq!(names(&a), vec!["bdir"]);
    assert_eq!(a.handle_key(Key::Enter), Command::List(path(&["home", "bdir"])));
    let c = a.listed(Some(entries(&[("x", false), ("y", true)])));
    assert_eq!(c, Command::Continue);
    assert_eq!(a.cwd(), &path(&["home", "bdir"]));
    assert!(a.input().is_empty());
    assert_eq!(a.selected(), 0);
    assert_eq!(names(&a), vec!["x", "y"]);
}

#[test]
fn enter_on_directory_from_later_index() {
    let mut a = Application::new(
        path(&[]),
        entries(&[("f1", false), ("f2", false), ("d", true)]),
    );
    a.handle_key(Key::Char('j'));
    a.handle_key(Key::Char('j'));
    assert_eq!(a.selected(), 2);
    assert_eq!(a.handle_key(Key::Enter), Command::List(path(&["d"])));
    a.listed(Some(entries(&[("p", false), ("q", false), ("r", false)])));
    assert_eq!(a.cwd(), &path(&["d"]));
    assert_eq!(a.selected(), 0);
}

#[test]
fn enter_on_file_does_nothing() {
    let mut a = start();
    assert_eq!(a.handle_key(Key::Enter), Command::Continue);
    assert_eq!(a.cwd(), &path(&["home"]));
}

#[test]
fn preview_index_is_clamped() {
    let mut a = start();
    a.handle_key(Key::Char('l'));
    assert_eq!(a.mode(), Mode::Previewing);
    assert_eq!(a.preview_line(), 0);
    a.set_preview_length(2);
    for _ in 0..3 {
        a.handle_key(Key::Char('j'));
    }
    assert_eq!(a.preview_line(), 1);
    assert_eq!(a.selected(), 0);
    a.handle_key(Key::Char('k'));
    a.handle_key(Key::Char('k'));
    assert_eq!(a.preview_line(), 0);
}

#[test]
fn shorter_preview_resets_its_index() {
    let mut a = start();
    a.handle_key(Key::Char('l'));
    a.set_preview_length(5);
    type_keys(&mut a, "jjj");
    assert_eq!(a.preview_line(), 3);
    a.set_preview_length(2);
    assert_eq!(a.preview_line(), 0);
    assert_eq!(a.preview_length(), 2);
}

#[test]
fn selection_moves_within_bounds() {
    let mut a = start();
    a.handle_key(Key::Char('k'));
    assert_eq!(a.selected(), 0);
    type_keys(&mut a, "jjjjj");
    assert_eq!(a.selected(), 2);
    a.handle_key(Key::Char('k'));
    assert_eq!(a.selected(), 1);
}

#[test]
fn narrowing_filter_resets_selection() {
    let mut a = start();
    type_keys(&mut a, "jj");
    assert_eq!(a.selected(), 2);
    a.handle_key(Key::Char('i'));
    type_keys(&mut a, "txt");
    assert_eq!(names(&a), vec!["a.txt"]);
    assert_eq!(a.selected(), 0);
}

#[test]
fn filter_matching_nothing_keeps_selection_zero() {
    let mut a = start();
    a.handle_key(Key::Char('j'));
    a.handle_key(Key::Char('i'));
    type_keys(&mut a, "zzz");
    assert!(names(&a).is_empty());
    assert_eq!(a.selected(), 0);
    a.handle_key(Key::Enter);
    a.handle_key(Key::Char('j'));
    assert_eq!(a.selected(), 0);
    assert_eq!(a.handle_key(Key::Enter), Command::Continue);
}

#[test]
fn invalid_pattern_matches_everything() {
    let mut a = start();
    a.handle_key(Key::Char('i'));
    type_keys(&mut a, "a(");
    assert!(a.input().is_empty());
    assert_eq!(names(&a), vec!["a.txt", "bdir", "abc.rs"]);
}

#[test]
fn escape_clears_filter_and_backspace_edits_it() {
    let mut a = start();
    a.handle_key(Key::Char('i'));
    type_keys(&mut a, "rs");
    assert_eq!(names(&a), vec!["abc.rs"]);
    a.handle_key(Key::Backspace);
    assert_eq!(a.input(), &vec!['r']);
    assert_eq!(names(&a), vec!["bdir", "abc.rs"]);
    a.handle_key(Key::Escape);
    assert_eq!(a.mode(), Mode::Browsing);
    assert!(a.input().is_empty());
    assert_eq!(names(&a).len(), 3);
}

#[test]
fn searching_takes_command_letters_as_text() {
    let mut a = start();
    a.handle_key(Key::Char('i'));
    assert_eq!(a.handle_key(Key::Char('q')), Command::Continue);
    assert!(a.is_running());
    assert_eq!(a.input(), &vec!['q']);
}

#[test]
fn up_then_in_restores_directory_and_selection() {
    let mut a = Application::new(path(&["home", "bdir"]), entries(&[("x", false)]));
    assert_eq!(a.handle_key(Key::Backspace), Command::List(path(&["home"])));
    a.listed(Some(entries(&[("a.txt", false), ("bdir", true), ("abc.rs", false)])));
    assert_eq!(a.cwd(), &path(&["home"]));
    assert_eq!(a.selected(), 1);
    assert_eq!(a.handle_key(Key::Enter), Command::List(path(&["home", "bdir"])));
    a.listed(Some(entries(&[("x", false)])));
    assert_eq!(a.cwd(), &path(&["home", "bdir"]));
}

#[test]
fn up_at_root_does_nothing() {
    let mut a = Application::new(path(&[]), entries(&[("etc", true)]));
    assert_eq!(a.handle_key(Key::Backspace), Command::Continue);
    assert!(a.cwd().is_empty());
}

#[test]
fn failed_listing_leaves_state_unchanged() {
    let mut a = start();
    a.handle_key(Key::Char('j'));
    assert_eq!(a.handle_key(Key::Enter), Command::List(path(&["home", "bdir"])));
    assert_eq!(a.listed(None), Command::Continue);
    assert_eq!(a.cwd(), &path(&["home"]));
    assert_eq!(a.selected(), 1);
    assert_eq!(names(&a).len(), 3);
    // A listing nobody asked for is ignored.
    assert_eq!(a.listed(Some(entries(&[]))), Command::Continue);
    assert_eq!(names(&a).len(), 3);
}

#[test]
fn previewing_enter_enters_child_at_preview_index() {
    let mut a = start();
    a.handle_key(Key::Char('j'));
    a.handle_key(Key::Char('l'));
    a.set_preview_length(2);
    a.handle_key(Key::Char('j'));
    assert_eq!(a.handle_key(Key::Enter), Command::List(path(&["home", "bdir"])));
    let c = a.listed(Some(entries(&[("one", true), ("two", true)])));
    assert_eq!(c, Command::List(path(&["home", "bdir", "two"])));
    a.listed(Some(entries(&[("z", false)])));
    assert_eq!(a.cwd(), &path(&["home", "bdir", "two"]));
    assert_eq!(a.mode(), Mode::Browsing);
    assert_eq!(a.selected(), 0);
    assert_eq!(a.preview_line(), 0);
}

#[test]
fn previewing_h_returns_to_browsing() {
    let mut a = start();
    type_keys(&mut a, "jj");
    a.handle_key(Key::Char('l'));
    a.handle_key(Key::Char('h'));
    assert_eq!(a.mode(), Mode::Browsing);
    assert_eq!(a.selected(), 0);
}

#[test]
fn yank_hands_over_selected_path() {
    let mut a = start();
    a.handle_key(Key::Char('j'));
    a.handle_key(Key::Char('j'));
    assert_eq!(a.handle_key(Key::Char('y')), Command::Yank(path(&["home", "abc.rs"])));
    assert!(!a.is_running());
}

#[test]
fn yank_with_nothing_shown_quits() {
    let mut a = Application::new(path(&["home"]), vec![]);
    assert_eq!(a.selected_path(), None);
    assert_eq!(a.handle_key(Key::Char('y')), Command::Quit);
    assert!(!a.is_running());
}

#[test]
fn quit_ends_without_payload() {
    let mut a = start();
    assert_eq!(a.handle_key(Key::Char('q')), Command::Quit);
    assert!(!a.is_running());
}

#[test]
fn selected_path_follows_selection() {
    let mut a = start();
    a.handle_key(Key::Char('j'));
    assert_eq!(a.selected_path(), Some(path(&["home", "bdir"])));
}

#[test]
fn keys_outside_their_mode_do_nothing() {
    let mut a = start();
    a.handle_key(Key::Char('j'));
    a.handle_key(Key::Char('h'));
    assert_eq!(a.selected(), 1);
    assert_eq!(a.mode(), Mode::Browsing);
    a.handle_key(Key::Char('l'));
    a.set_preview_length(3);
    a.handle_key(Key::Char('j'));
    a.handle_key(Key::Char('l'));
    assert_eq!(a.preview_line(), 1);
    a.handle_key(Key::Char('i'));
    assert_eq!(a.mode(), Mode::Previewing);
    a.handle_key(Key::Escape);
    assert_eq!(a.mode(), Mode::Previewing);
    assert_eq!(a.preview_line(), 1);
}

#[test]
fn moving_the_selection_resets_the_preview_index() {
    let mut a = start();
    a.handle_key(Key::Char('l'));
    a.set_preview_length(4);
    type_keys(&mut a, "jj");
    assert_eq!(a.preview_line(), 2);
    a.handle_key(Key::Char('h'));
    assert_eq!(a.preview_line(), 2);
    a.handle_key(Key::Char('j'));
    assert_eq!(a.selected(), 1);
    assert_eq!(a.preview_line(), 0);
}

#[test]
fn going_up_while_previewing_resets_the_preview_index() {
    let mut a = Application::new(path(&["home", "bdir"]), entries(&[("x", false)]));
    a.handle_key(Key::Char('l'));
    a.set_preview_length(3);
    a.handle_key(Key::Char('j'));
    assert_eq!(a.preview_line(), 1);
    assert_eq!(a.handle_key(Key::Backspace), Command::List(path(&["home"])));
    a.listed(Some(entries(&[("a.txt", false), ("bdir", true)])));
    assert_eq!(a.selected(), 1);
    assert_eq!(a.preview_line(), 0);
}

#[test]
fn filter_changing_the_selected_entry_resets_the_preview_index() {
    let mut a = start();
    a.handle_key(Key::Char('l'));
    a.set_preview_length(3);
    a.handle_key(Key::Char('j'));
    a.handle_key(Key::Char('h'));
    a.handle_key(Key::Char('i'));
    assert_eq!(a.preview_line(), 1);
    type_keys(&mut a, "b");
    assert_eq!(names(&a), vec!["bdir", "abc.rs"]);
    assert_eq!(a.preview_line(), 0);
}
