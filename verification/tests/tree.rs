use cursemenu::{ctx, MenuError};

#[test]
fn new_controller_starts_at_root() {
    let c = ctx::new("Settings");
    assert_eq!(c.title(), "Settings");
    assert_eq!(c.current_menu(), c.root());
    assert_eq!(c.current_index(), 0);
    assert!(!c.is_editing());
    assert!(c.needs_redraw());
    assert_eq!(c.status(), "Root Menu");
    assert_eq!(c.entry_name(c.root()).unwrap(), "Root Menu");
    assert!(c.entry_is_menu(c.root()).unwrap());
}

#[test]
fn add_menu_and_option_append_in_order() {
    let mut c = ctx::new("t");
    let root = c.root();
    let network = c.add_menu("Network", "Network settings", root).unwrap();
    let host = c
        .add_option("Hostname", "The machine's name", "box1", root)
        .unwrap();
    let kids = c.children(root).unwrap();
    assert_eq!(kids, vec![network, host]);
    assert_eq!(c.entry_name(network).unwrap(), "Network");
    assert_eq!(c.entry_description(host).unwrap(), "The machine's name");
    assert!(c.entry_is_menu(network).unwrap());
    assert!(!c.entry_is_menu(host).unwrap());
    assert_eq!(c.option_value(host).unwrap(), Some("box1".to_string()));
    assert_eq!(c.option_value(network).unwrap(), None);
}

#[test]
fn add_under_option_is_invalid_parent() {
    let mut c = ctx::new("t");
    let root = c.root();
    let host = c.add_option("Hostname", "", "box1", root).unwrap();
    assert_eq!(
        c.add_menu("Sub", "", host).unwrap_err(),
        MenuError::InvalidParent
    );
    assert_eq!(
        c.add_option("Sub", "", "v", host).unwrap_err(),
        MenuError::InvalidParent
    );
    // the refused insertion left the tree alone
    assert_eq!(c.children(root).unwrap().len(), 1);
}

#[test]
fn dead_handle_is_invalid() {
    let mut big = ctx::new("big");
    let root_b = big.root();
    big.add_menu("a", "", root_b).unwrap();
    let far = big.add_menu("b", "", root_b).unwrap();

    let small = ctx::new("small");
    // `far` names a slot the small store never created
    assert_eq!(small.entry_name(far).unwrap_err(), MenuError::InvalidHandle);
    assert_eq!(small.children(far).unwrap_err(), MenuError::InvalidHandle);
    assert_eq!(
        small.selectable_children(far).unwrap_err(),
        MenuError::InvalidHandle
    );
    assert_eq!(
        small.option_value(far).unwrap_err(),
        MenuError::InvalidHandle
    );
}

#[test]
fn filler_rows_render_but_are_not_selectable() {
    let mut c = ctx::new("t");
    let root = c.root();
    let a = c.add_option("A", "", "1", root).unwrap();
    let spacer = c.add_filler("----", "", root).unwrap();
    let b = c.add_option("B", "", "2", root).unwrap();
    assert!(c.entry_is_filler(spacer).unwrap());
    assert!(!c.entry_is_filler(a).unwrap());
    // rendering sees all three rows, navigation only two
    assert_eq!(c.children(root).unwrap(), vec![a, spacer, b]);
    assert_eq!(c.selectable_children(root).unwrap(), vec![a, b]);
}

#[test]
fn handles_stay_stable_as_the_tree_grows() {
    let mut c = ctx::new("t");
    let root = c.root();
    let first = c.add_option("First", "", "x", root).unwrap();
    for i in 0..20 {
        let name = format!("m{}", i);
        c.add_menu(&name, "", root).unwrap();
    }
    assert_eq!(c.entry_name(first).unwrap(), "First");
    assert_eq!(c.option_value(first).unwrap(), Some("x".to_string()));
    assert_eq!(c.children(root).unwrap().len(), 21);
}

#[test]
fn first_selectable_child_becomes_the_selection() {
    let mut c = ctx::new("t");
    let root = c.root();
    // a filler alone gives the empty menu nothing to select
    let spacer = c.add_filler("----", "", root).unwrap();
    assert_ne!(c.selected_entry(), spacer);
    // the first selectable child is picked up by the derived selection
    let a = c.add_option("A", "", "1", root).unwrap();
    assert_eq!(c.selected_entry(), a);
    assert_eq!(c.current_index(), 0);
    // later additions leave the selection alone
    let b = c.add_menu("B", "", root).unwrap();
    assert_eq!(c.selected_entry(), a);
    assert_ne!(c.selected_entry(), b);
}

#[test]
fn mark_drawn_clears_the_redraw_flag() {
    let mut c = ctx::new("t");
    assert!(c.needs_redraw());
    c.mark_drawn();
    assert!(!c.needs_redraw());
}
