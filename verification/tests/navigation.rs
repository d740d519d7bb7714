use cursemenu::{ctx, Event, UpdateRet};

fn sample_tree() -> ctx {
    let mut c = ctx::new("t");
    let root = c.root();
    c.add_menu("Network", "Network settings", root).unwrap();
    c.add_option("Hostname", "The machine's name", "box1", root)
        .unwrap();
    c.add_option("Locale", "Language", "en", root).unwrap();
    c
}

#[test]
fn move_down_and_up_follow_the_selectable_list() {
    let mut c = sample_tree();
    let root = c.root();
    let sel = c.selectable_children(root).unwrap();
    assert_eq!(c.current_index(), 0);
    assert_eq!(matches!(c.update(Event::MoveDown), UpdateRet::NoRet), true);
    assert_eq!(c.current_index(), 1);
    assert_eq!(c.selected_entry(), sel[1]);
    assert_eq!(c.status(), "The machine's name");
    c.update(Event::MoveDown);
    assert_eq!(c.current_index(), 2);
    c.update(Event::MoveUp);
    assert_eq!(c.current_index(), 1);
}

#[test]
fn moves_clamp_at_both_ends() {
    let mut c = sample_tree();
    c.update(Event::MoveUp);
    assert_eq!(c.current_index(), 0);
    c.update(Event::MoveDown);
    c.update(Event::MoveDown);
    assert_eq!(c.current_index(), 2);
    c.update(Event::MoveDown);
    assert_eq!(c.current_index(), 2);
}

#[test]
fn moves_over_an_empty_menu_are_inert() {
    let mut c = ctx::new("t");
    c.update(Event::MoveDown);
    assert_eq!(c.current_index(), 0);
    c.update(Event::MoveUp);
    assert_eq!(c.current_index(), 0);
    // Enter over an empty root is a no-op too
    c.update(Event::Enter);
    assert_eq!(c.current_menu(), c.root());
    assert!(!c.is_editing());
}

#[test]
fn enter_descends_and_back_returns() {
    // Scenario: from root, Enter on "Network" pushes breadcrumb=[root],
    // current menu becomes Network at index 0; Back restores root with
    // the selection back on "Network".
    let mut c = sample_tree();
    let root = c.root();
    let network = c.selectable_children(root).unwrap()[0];
    c.add_option("DHCP", "Use DHCP", "yes", network).unwrap();

    c.update(Event::Enter);
    assert_eq!(c.current_menu(), network);
    assert_eq!(c.current_index(), 0);
    assert_eq!(c.last_menus, vec![root]);
    assert_eq!(c.status(), "Use DHCP");

    c.update(Event::Back);
    assert_eq!(c.current_menu(), root);
    assert_eq!(c.current_index(), 0);
    assert_eq!(c.selected_entry(), network);
    assert!(c.last_menus.is_empty());
}

#[test]
fn back_restores_a_deeper_position() {
    let mut c = sample_tree();
    let root = c.root();
    // a second submenu further down the list
    let tools = c.add_menu("Tools", "Tool settings", root).unwrap();
    c.add_option("Editor", "Preferred editor", "vi", tools)
        .unwrap();

    // select "Tools" (index 3 among root's selectable children)
    c.update(Event::MoveDown);
    c.update(Event::MoveDown);
    c.update(Event::MoveDown);
    assert_eq!(c.selected_entry(), tools);
    c.update(Event::Enter);
    assert_eq!(c.current_menu(), tools);
    c.update(Event::Back);
    assert_eq!(c.current_menu(), root);
    assert_eq!(c.current_index(), 3);
    assert_eq!(c.selected_entry(), tools);
}

#[test]
fn back_at_root_is_inert() {
    let mut c = sample_tree();
    let root = c.root();
    c.update(Event::MoveDown);
    c.update(Event::Back);
    assert_eq!(c.current_menu(), root);
    assert_eq!(c.current_index(), 1);
}

#[test]
fn entering_an_empty_submenu_clears_the_selection_status() {
    let mut c = ctx::new("t");
    let root = c.root();
    let empty = c.add_menu("Empty", "Nothing in here", root).unwrap();
    c.update(Event::Enter);
    assert_eq!(c.current_menu(), empty);
    assert_eq!(c.current_index(), 0);
    assert_eq!(c.status(), "");
    // and Back still works out of it
    c.update(Event::Back);
    assert_eq!(c.current_menu(), root);
    assert_eq!(c.selected_entry(), empty);
}

#[test]
fn filler_is_never_selected_by_moves() {
    let mut c = ctx::new("t");
    let root = c.root();
    let a = c.add_option("A", "first", "1", root).unwrap();
    let spacer = c.add_filler("----", "", root).unwrap();
    let b = c.add_option("B", "second", "2", root).unwrap();
    assert_eq!(c.selected_entry(), a);
    c.update(Event::MoveDown);
    assert_eq!(c.selected_entry(), b);
    assert_ne!(c.selected_entry(), spacer);
    c.update(Event::MoveDown);
    assert_eq!(c.selected_entry(), b);
    c.update(Event::MoveUp);
    assert_eq!(c.selected_entry(), a);
}

#[test]
fn quit_signals_termination_and_mutates_nothing() {
    // Scenario: Quit returns the terminate signal in any state and
    // leaves store, navigation and edit state alone.
    let mut c = sample_tree();
    c.update(Event::MoveDown);
    let menu_before = c.current_menu();
    let index_before = c.current_index();
    let crumbs_before = c.last_menus.clone();
    let value_before = c.option_value(c.selected_entry()).unwrap();

    assert!(matches!(c.update(Event::Quit), UpdateRet::Quit));
    assert_eq!(c.current_menu(), menu_before);
    assert_eq!(c.current_index(), index_before);
    assert_eq!(c.last_menus, crumbs_before);
    assert_eq!(c.option_value(c.selected_entry()).unwrap(), value_before);
    assert!(!c.is_editing());

    // while editing, Quit still terminates without touching the buffer
    c.update(Event::Enter);
    assert!(c.is_editing());
    assert!(matches!(c.update(Event::Quit), UpdateRet::Quit));
    assert!(c.is_editing());
    assert_eq!(c.edit_buffer().unwrap(), "box1");
}

#[test]
fn resize_only_requests_a_repaint() {
    let mut c = sample_tree();
    c.mark_drawn();
    let index_before = c.current_index();
    assert!(matches!(c.update(Event::Resize), UpdateRet::NoRet));
    assert!(c.needs_redraw());
    assert_eq!(c.current_index(), index_before);
}
