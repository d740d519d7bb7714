//! The mathematical model of the controller: its abstract state, the
//! well-formedness invariant, and the transition function `step` that the
//! executable `update` refines.

use vstd::prelude::*;
use crate::store::{
    Handle, SlotV, EntryV, ContentsV, valid_handle, child_ok, entry_of, is_menu, children_of,
    sel_children, store_wf,
};

verus! {

/// One abstract input event, decoded upstream from raw terminal key
/// codes. Navigation events act only while browsing; editing events act
/// only while editing; `Quit` and `Resize` act in either state.
#[derive(Clone, Copy, PartialEq, Eq, Debug)]
pub enum Event {
    MoveUp,
    MoveDown,
    Enter,
    Back,
    Quit,
    Resize,
    InsertChar(char),
    Backspace,
    Delete,
    MoveCursorLeft,
    MoveCursorRight,
    Commit,
    Cancel,
}

/// Abstract image of the controller's modal state: browsing, or editing
/// one option's text with a buffer and a cursor.
#[verifier::ext_equal]
pub enum ModeV {
    Browsing,
    Editing { buffer: Seq<char>, cursor: usize },
}

/// Abstract image of the whole controller.
#[verifier::ext_equal]
pub struct CtxV {
    pub title: Seq<char>,
    pub store: Seq<SlotV>,
    pub requires_redraw: bool,
    pub cur_menu: Handle,
    pub cur_entry: Handle,
    pub last_menus: Seq<Handle>,
    pub cur_menu_entry: usize,
    pub root_menu: Handle,
    pub mode: ModeV,
    pub log_msg: Seq<char>,
}

/// The selection index sits inside the current menu's selectable children
/// whenever there are any, and the derived selected entry is the handle
/// at that index; an empty menu pins the index to zero.
pub open spec fn sel_wf(c: CtxV) -> bool {
    if sel_children(c.store, c.cur_menu).len() > 0 {
        &&& c.cur_menu_entry < sel_children(c.store, c.cur_menu).len()
        &&& c.cur_entry == sel_children(c.store, c.cur_menu)[c.cur_menu_entry as int]
        &&& child_ok(c.store, c.cur_entry)
    } else {
        c.cur_menu_entry == 0
    }
}

/// The navigation invariant: the current menu and every breadcrumb are
/// live menus; the breadcrumb stack records the path from the root to the
/// current menu, each element a selectable child of the one before it.
pub open spec fn nav_wf(c: CtxV) -> bool {
    &&& c.root_menu == (Handle { idx: 0, gen: 0 })
    &&& valid_handle(c.store, c.cur_menu) && is_menu(c.store, c.cur_menu)
    &&& forall|i: int|
        0 <= i < c.last_menus.len() ==> valid_handle(c.store, #[trigger] c.last_menus[i])
            && is_menu(c.store, c.last_menus[i])
    &&& (c.last_menus.len() == 0 <==> c.cur_menu == c.root_menu)
    &&& (c.last_menus.len() > 0 ==> c.last_menus[0] == c.root_menu)
    &&& forall|i: int, j: int|
        #![trigger c.last_menus[i], c.last_menus[j]]
        0 <= i && j == i + 1 && j < c.last_menus.len() ==> sel_children(
            c.store,
            c.last_menus[i],
        ).contains(c.last_menus[j])
    &&& (c.last_menus.len() > 0 ==> sel_children(
        c.store,
        c.last_menus[c.last_menus.len() - 1],
    ).contains(c.cur_menu))
    &&& sel_wf(c)
}

/// The editing invariant: the cursor stays inside the buffer, and the
/// edit target is the selected entry, an option.
pub open spec fn edit_wf(c: CtxV) -> bool {
    c.mode matches ModeV::Editing { buffer, cursor } ==> {
        &&& buffer.len() <= usize::MAX
        &&& cursor <= buffer.len()
        &&& sel_children(c.store, c.cur_menu).len() > 0
        &&& entry_of(c.store, c.cur_entry).contents is Text
    }
}

/// Well-formedness of the whole controller state.
pub open spec fn wf(c: CtxV) -> bool {
    &&& store_wf(c.store)
    &&& nav_wf(c)
    &&& edit_wf(c)
}

/// The controller state right after construction: one root menu with no
/// children, browsing at index zero, redraw pending, and the status line
/// showing the root's description.
pub open spec fn init_ctx(title: Seq<char>) -> CtxV {
    let root = Handle { idx: 0, gen: 0 };
    CtxV {
        title,
        store: seq![
            SlotV {
                gen: 0,
                entry: EntryV {
                    name: "Root Menu"@,
                    description: "Root Menu"@,
                    filler: false,
                    contents: ContentsV::Menu { children: Seq::empty() },
                },
            },
        ],
        requires_redraw: true,
        cur_menu: root,
        cur_entry: root,
        last_menus: Seq::empty(),
        cur_menu_entry: 0,
        root_menu: root,
        mode: ModeV::Browsing,
        log_msg: "Root Menu"@,
    }
}

/// The handle the next inserted entry will receive.
pub open spec fn fresh_handle(store: Seq<SlotV>) -> Handle {
    Handle { idx: store.len() as usize, gen: store.len() as usize }
}

/// The store after inserting entry `e` and appending its handle to
/// `parent`'s children.
pub open spec fn store_with_entry(store: Seq<SlotV>, parent: Handle, e: EntryV) -> Seq<SlotV> {
    let h = fresh_handle(store);
    let grown = store.push(SlotV { gen: h.gen, entry: e });
    grown.update(
        parent.idx as int,
        SlotV {
            gen: grown[parent.idx as int].gen,
            entry: EntryV {
                contents: ContentsV::Menu { children: children_of(store, parent).push(h) },
                ..grown[parent.idx as int].entry
            },
        },
    )
}

/// The controller after inserting an entry under `parent`. The derived
/// selected entry is recomputed when the insertion gives the current menu
/// its first selectable child.
pub open spec fn add_entry_model(c: CtxV, parent: Handle, e: EntryV) -> CtxV {
    let h = fresh_handle(c.store);
    let refreshed = parent == c.cur_menu && sel_children(c.store, c.cur_menu).len() == 0
        && !e.filler;
    CtxV {
        store: store_with_entry(c.store, parent, e),
        cur_entry: if refreshed {
            h
        } else {
            c.cur_entry
        },
        ..c
    }
}

/// The store after overwriting the text value of the option at `h`.
pub open spec fn store_with_value(store: Seq<SlotV>, h: Handle, value: Seq<char>) -> Seq<SlotV> {
    store.update(
        h.idx as int,
        SlotV {
            gen: store[h.idx as int].gen,
            entry: EntryV {
                contents: ContentsV::Text { value },
                ..store[h.idx as int].entry
            },
        },
    )
}

/// The state after moving the selection to index `i` of the current
/// menu's selectable children: index, derived selection and status line
/// change, and a redraw becomes due.
pub open spec fn with_selection(c: CtxV, i: usize) -> CtxV
    recommends
        i < sel_children(c.store, c.cur_menu).len(),
{
    let sel = sel_children(c.store, c.cur_menu);
    CtxV {
        cur_menu_entry: i,
        cur_entry: sel[i as int],
        log_msg: entry_of(c.store, sel[i as int]).description,
        requires_redraw: true,
        ..c
    }
}

/// The state after entering the menu `m`: the old current menu is pushed
/// onto the breadcrumb stack, the selection moves to `m`'s first
/// selectable child if it has one, and the status line follows the new
/// selection (or clears, over an empty menu).
pub open spec fn enter_menu(c: CtxV, m: Handle) -> CtxV {
    let inner = sel_children(c.store, m);
    CtxV {
        last_menus: c.last_menus.push(c.cur_menu),
        cur_menu: m,
        cur_menu_entry: 0,
        cur_entry: if inner.len() > 0 {
            inner[0]
        } else {
            c.cur_entry
        },
        log_msg: if inner.len() > 0 {
            entry_of(c.store, inner[0]).description
        } else {
            Seq::empty()
        },
        requires_redraw: true,
        ..c
    }
}

/// The state after backing out of the current menu: the parent is popped
/// off the breadcrumb stack, and the selection is restored to the
/// position of the menu just left within the parent's selectable
/// children, found by handle equality.
pub open spec fn back_to_parent(c: CtxV) -> CtxV
    recommends
        c.last_menus.len() > 0,
{
    let parent = c.last_menus.last();
    let ps = sel_children(c.store, parent);
    match ps.index_of_first(c.cur_menu) {
        Some(i) => CtxV {
            last_menus: c.last_menus.drop_last(),
            cur_menu: parent,
            cur_menu_entry: i as usize,
            cur_entry: ps[i],
            log_msg: entry_of(c.store, ps[i]).description,
            requires_redraw: true,
            ..c
        },
        None => c,
    }
}

/// One browsing transition. Moves clamp at the ends of the selectable
/// list; `Enter` descends into a menu or begins editing an option's
/// value; `Back` returns to the parent menu; everything else is inert.
pub open spec fn step_browse(c: CtxV, ev: Event) -> CtxV {
    let sel = sel_children(c.store, c.cur_menu);
    match ev {
        Event::MoveDown => if c.cur_menu_entry + 1 < sel.len() {
            with_selection(c, (c.cur_menu_entry + 1) as usize)
        } else {
            c
        },
        Event::MoveUp => if sel.len() > 0 && c.cur_menu_entry > 0 {
            with_selection(c, (c.cur_menu_entry - 1) as usize)
        } else {
            c
        },
        Event::Enter => if sel.len() == 0 {
            c
        } else {
            let tgt = sel[c.cur_menu_entry as int];
            match entry_of(c.store, tgt).contents {
                ContentsV::Menu { children } => enter_menu(c, tgt),
                ContentsV::Text { value } => CtxV {
                    mode: ModeV::Editing { buffer: value, cursor: 0 },
                    requires_redraw: true,
                    ..c
                },
            }
        },
        Event::Back => if c.cur_menu == c.root_menu {
            c
        } else {
            back_to_parent(c)
        },
        _ => c,
    }
}

/// One editing transition over the buffer and cursor. Deletions at the
/// buffer's edges are no-ops; insertion is refused only at the machine's
/// size limit; `Commit` copies the buffer into the edited option's value
/// and returns to browsing; `Cancel` returns to browsing with the value
/// untouched; everything else is inert.
pub open spec fn step_edit(c: CtxV, ev: Event) -> CtxV
    recommends
        c.mode is Editing,
{
    let buffer = c.mode->buffer;
    let cursor = c.mode->cursor;
    match ev {
        Event::MoveCursorLeft => if cursor > 0 {
            CtxV { mode: ModeV::Editing { buffer, cursor: (cursor - 1) as usize }, ..c }
        } else {
            c
        },
        Event::MoveCursorRight => if cursor < buffer.len() {
            CtxV { mode: ModeV::Editing { buffer, cursor: (cursor + 1) as usize }, ..c }
        } else {
            c
        },
        Event::InsertChar(ch) => if buffer.len() < usize::MAX {
            CtxV {
                mode: ModeV::Editing {
                    buffer: buffer.insert(cursor as int, ch),
                    cursor: (cursor + 1) as usize,
                },
                requires_redraw: true,
                ..c
            }
        } else {
            c
        },
        Event::Backspace => if cursor > 0 {
            CtxV {
                mode: ModeV::Editing {
                    buffer: buffer.remove(cursor - 1),
                    cursor: (cursor - 1) as usize,
                },
                requires_redraw: true,
                ..c
            }
        } else {
            c
        },
        Event::Delete => if cursor < buffer.len() {
            CtxV {
                mode: ModeV::Editing { buffer: buffer.remove(cursor as int), cursor },
                requires_redraw: true,
                ..c
            }
        } else {
            c
        },
        Event::Commit => CtxV {
            store: store_with_value(c.store, c.cur_entry, buffer),
            mode: ModeV::Browsing,
            log_msg: "committed"@,
            requires_redraw: true,
            ..c
        },
        Event::Cancel => CtxV { mode: ModeV::Browsing, requires_redraw: true, ..c },
        _ => c,
    }
}

/// One transition of the whole state machine: `Quit` never mutates,
/// `Resize` only marks a redraw due, and every other event is dispatched
/// to whichever of the two sub-machines is active.
pub open spec fn step(c: CtxV, ev: Event) -> CtxV {
    match ev {
        Event::Quit => c,
        Event::Resize => CtxV { requires_redraw: true, ..c },
        _ => match c.mode {
            ModeV::Browsing => step_browse(c, ev),
            ModeV::Editing { .. } => step_edit(c, ev),
        },
    }
}

} // verus!
