use cursemenu::{ctx, Event};

fn with_hostname() -> ctx {
    let mut c = ctx::new("t");
    let root = c.root();
    c.add_menu("Network", "Network settings", root).unwrap();
    c.add_option("Hostname", "The machine's name", "box1", root)
        .unwrap();
    c
}

#[test]
fn enter_on_option_seeds_buffer_from_value() {
    let mut c = with_hostname();
    c.update(Event::MoveDown);
    c.update(Event::Enter);
    assert!(c.is_editing());
    assert_eq!(c.edit_buffer().unwrap(), "box1");
    assert_eq!(c.cursor_position().unwrap(), 0);
}

#[test]
fn insert_at_start_three_times_then_commit() {
    // Scenario: three InsertChar('x') at cursor positions 0, 1, 2 give
    // "xxxbox1", and Commit copies it into the value verbatim.
    let mut c = with_hostname();
    c.update(Event::MoveDown);
    let host = c.selected_entry();
    c.update(Event::Enter);
    c.update(Event::InsertChar('x'));
    c.update(Event::InsertChar('x'));
    c.update(Event::InsertChar('x'));
    assert_eq!(c.edit_buffer().unwrap(), "xxxbox1");
    assert_eq!(c.cursor_position().unwrap(), 3);
    c.update(Event::Commit);
    assert!(!c.is_editing());
    assert_eq!(c.option_value(host).unwrap(), Some("xxxbox1".to_string()));
    assert_eq!(c.status(), "committed");
}

#[test]
fn cancel_discards_every_edit() {
    let mut c = with_hostname();
    c.update(Event::MoveDown);
    let host = c.selected_entry();
    c.update(Event::Enter);
    c.update(Event::InsertChar('z'));
    c.update(Event::Delete);
    c.update(Event::Cancel);
    assert!(!c.is_editing());
    assert_eq!(c.option_value(host).unwrap(), Some("box1".to_string()));
}

#[test]
fn cursor_moves_clamp_to_the_buffer() {
    let mut c = with_hostname();
    c.update(Event::MoveDown);
    c.update(Event::Enter);
    // "box1" has four characters
    c.update(Event::MoveCursorLeft);
    assert_eq!(c.cursor_position().unwrap(), 0);
    for _ in 0..10 {
        c.update(Event::MoveCursorRight);
    }
    assert_eq!(c.cursor_position().unwrap(), 4);
    c.update(Event::MoveCursorLeft);
    assert_eq!(c.cursor_position().unwrap(), 3);
}

#[test]
fn backspace_removes_before_the_cursor() {
    let mut c = with_hostname();
    c.update(Event::MoveDown);
    c.update(Event::Enter);
    c.update(Event::MoveCursorRight);
    c.update(Event::MoveCursorRight);
    c.update(Event::Backspace);
    assert_eq!(c.edit_buffer().unwrap(), "bx1");
    assert_eq!(c.cursor_position().unwrap(), 1);
}

#[test]
fn delete_removes_at_the_cursor() {
    let mut c = with_hostname();
    c.update(Event::MoveDown);
    c.update(Event::Enter);
    c.update(Event::MoveCursorRight);
    c.update(Event::Delete);
    assert_eq!(c.edit_buffer().unwrap(), "bx1");
    assert_eq!(c.cursor_position().unwrap(), 1);
}

#[test]
fn boundary_backspace_and_delete_are_noops() {
    let mut c = with_hostname();
    c.update(Event::MoveDown);
    c.update(Event::Enter);
    // Backspace at cursor 0
    c.update(Event::Backspace);
    assert_eq!(c.edit_buffer().unwrap(), "box1");
    assert_eq!(c.cursor_position().unwrap(), 0);
    // Delete at cursor == length
    for _ in 0..4 {
        c.update(Event::MoveCursorRight);
    }
    c.update(Event::Delete);
    assert_eq!(c.edit_buffer().unwrap(), "box1");
    assert_eq!(c.cursor_position().unwrap(), 4);
}

#[test]
fn editing_an_empty_value_from_scratch() {
    let mut c = ctx::new("t");
    let root = c.root();
    let opt = c.add_option("Note", "", "", root).unwrap();
    c.update(Event::Enter);
    assert!(c.is_editing());
    assert_eq!(c.edit_buffer().unwrap(), "");
    c.update(Event::Backspace);
    c.update(Event::Delete);
    assert_eq!(c.edit_buffer().unwrap(), "");
    c.update(Event::InsertChar('h'));
    c.update(Event::InsertChar('i'));
    c.update(Event::Commit);
    assert_eq!(c.option_value(opt).unwrap(), Some("hi".to_string()));
}

#[test]
fn navigation_is_inert_while_editing() {
    let mut c = with_hostname();
    c.update(Event::MoveDown);
    let host = c.selected_entry();
    c.update(Event::Enter);
    c.update(Event::MoveDown);
    c.update(Event::MoveUp);
    c.update(Event::Enter);
    c.update(Event::Back);
    assert!(c.is_editing());
    assert_eq!(c.selected_entry(), host);
    assert_eq!(c.current_index(), 1);
    assert_eq!(c.edit_buffer().unwrap(), "box1");
}

#[test]
fn cursor_stays_inside_the_buffer_through_mixed_edits() {
    let mut c = with_hostname();
    c.update(Event::MoveDown);
    c.update(Event::Enter);
    let events = [
        Event::InsertChar('a'),
        Event::Backspace,
        Event::Delete,
        Event::MoveCursorLeft,
        Event::MoveCursorRight,
        Event::InsertChar('b'),
        Event::MoveCursorRight,
        Event::Backspace,
        Event::Delete,
        Event::MoveCursorLeft,
    ];
    for round in 0..3 {
        for ev in events.iter() {
            c.update(*ev);
            let cursor = c.cursor_position().unwrap();
            let buffer = c.edit_buffer().unwrap();
            assert!(cursor <= buffer.chars().count(), "round {}", round);
        }
    }
}

#[test]
fn commit_touches_only_the_edited_option() {
    let mut c = with_hostname();
    let root = c.root();
    let other = c.add_option("Locale", "Language", "en", root).unwrap();
    c.update(Event::MoveDown);
    let host = c.selected_entry();
    c.update(Event::Enter);
    c.update(Event::InsertChar('q'));
    c.update(Event::Commit);
    assert_eq!(c.option_value(host).unwrap(), Some("qbox1".to_string()));
    assert_eq!(c.option_value(other).unwrap(), Some("en".to_string()));
}
