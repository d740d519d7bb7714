//! The laws of the menu state machine, each proved against the model
//! that `update` refines.

use vstd::prelude::*;
use crate::store::{
    Handle, SlotV, valid_handle, entry_of, is_menu, sel_children, store_wf,
};
use crate::model::{CtxV, ModeV, Event, wf, step};
use crate::invariants::{lemma_step_preserves_wf, lemma_sel_no_duplicates};

verus! {

/// The state after feeding a whole sequence of events through the
/// machine, first event first.
pub open spec fn run(c: CtxV, evs: Seq<Event>) -> CtxV
    decreases evs.len(),
{
    if evs.len() == 0 {
        c
    } else {
        run(step(c, evs[0]), evs.drop_first())
    }
}

/// Well-formedness survives any sequence of events.
pub proof fn lemma_run_preserves_wf(c: CtxV, evs: Seq<Event>)
    requires
        wf(c),
    ensures
        wf(run(c, evs)),
    decreases evs.len(),
{
    if evs.len() > 0 {
        lemma_step_preserves_wf(c, evs[0]);
        lemma_run_preserves_wf(step(c, evs[0]), evs.drop_first());
    }
}

/// After any sequence of events from a well-formed state, the selection
/// index sits strictly inside the current menu's selectable children
/// whenever that list is non-empty.
pub proof fn lemma_index_in_bounds(c: CtxV, evs: Seq<Event>)
    requires
        wf(c),
    ensures
        ({
            let d = run(c, evs);
            sel_children(d.store, d.cur_menu).len() > 0 ==> 0 <= d.cur_menu_entry
                < sel_children(d.store, d.cur_menu).len()
        }),
{
    lemma_run_preserves_wf(c, evs);
}

/// After any sequence of events from a well-formed state, an active edit
/// cursor sits between zero and the buffer's length.
pub proof fn lemma_cursor_in_bounds(c: CtxV, evs: Seq<Event>)
    requires
        wf(c),
    ensures
        run(c, evs).mode matches ModeV::Editing { buffer, cursor } ==> 0 <= cursor
            <= buffer.len(),
{
    lemma_run_preserves_wf(c, evs);
}

/// Entering the selected submenu and immediately backing out restores
/// the current menu, the selection index, the selected entry and the
/// breadcrumb stack to exactly their prior values, and never touches the
/// store — from any starting position.
pub proof fn lemma_back_restores_position(c: CtxV)
    requires
        wf(c),
        c.mode is Browsing,
        sel_children(c.store, c.cur_menu).len() > 0,
        entry_of(
            c.store,
            sel_children(c.store, c.cur_menu)[c.cur_menu_entry as int],
        ).contents is Menu,
    ensures
        ({
            let d = step(step(c, Event::Enter), Event::Back);
            &&& d.store == c.store
            &&& d.cur_menu == c.cur_menu
            &&& d.cur_menu_entry == c.cur_menu_entry
            &&& d.cur_entry == c.cur_entry
            &&& d.last_menus == c.last_menus
        }),
{
    let sel = sel_children(c.store, c.cur_menu);
    let tgt = sel[c.cur_menu_entry as int];
    let c1 = step(c, Event::Enter);
    lemma_step_preserves_wf(c, Event::Enter);
    assert(c1.last_menus == c.last_menus.push(c.cur_menu));
    assert(c1.cur_menu == tgt);
    assert(c1.cur_menu != c1.root_menu);
    let ps = sel_children(c1.store, c.cur_menu);
    assert(ps == sel);
    ps.index_of_first_ensures(tgt);
    assert(ps.contains(tgt)) by {
        assert(ps[c.cur_menu_entry as int] == tgt);
    }
    let fi = ps.index_of_first(tgt)->Some_0;
    lemma_sel_no_duplicates(c.store, c.cur_menu);
    assert(fi == c.cur_menu_entry) by {
        if fi < c.cur_menu_entry {
            assert(ps[fi] == ps[c.cur_menu_entry as int]);
        }
    }
    let d = step(c1, Event::Back);
    assert(d.last_menus =~= c.last_menus);
}

/// A filler entry is never among a menu's selectable children — so it is
/// never selected and never counted by the moves.
pub proof fn lemma_selectable_excludes_filler(store: Seq<SlotV>, m: Handle)
    requires
        store_wf(store),
        valid_handle(store, m),
        is_menu(store, m),
    ensures
        forall|i: int|
            0 <= i < sel_children(store, m).len() ==> !entry_of(
                store,
                #[trigger] sel_children(store, m)[i],
            ).filler,
{
    let ch = crate::store::children_of(store, m);
    let pred = |c: Handle| !entry_of(store, c).filler;
    assert forall|i: int| 0 <= i < sel_children(store, m).len() implies !entry_of(
        store,
        #[trigger] sel_children(store, m)[i],
    ).filler by {
        ch.lemma_filter_pred(pred, i);
    }
}

/// In a well-formed state with a live selection, the selected entry is
/// not a filler.
pub proof fn lemma_selected_not_filler(c: CtxV)
    requires
        wf(c),
        sel_children(c.store, c.cur_menu).len() > 0,
    ensures
        !entry_of(c.store, c.cur_entry).filler,
{
    lemma_selectable_excludes_filler(c.store, c.cur_menu);
}

/// Entering the selected option seeds the edit buffer with the option's
/// current value, puts the cursor at zero, and leaves the store alone.
pub proof fn lemma_enter_seeds_buffer(c: CtxV)
    requires
        wf(c),
        c.mode is Browsing,
        sel_children(c.store, c.cur_menu).len() > 0,
        entry_of(c.store, c.cur_entry).contents is Text,
    ensures
        step(c, Event::Enter).store == c.store,
        step(c, Event::Enter).mode == (ModeV::Editing {
            buffer: entry_of(c.store, c.cur_entry).contents->value,
            cursor: 0,
        }),
{
}

/// Committing an edit copies the buffer, verbatim, into the edited
/// option's value, returns to browsing, and touches no other entry.
pub proof fn lemma_commit_writes_value(c: CtxV)
    requires
        wf(c),
        c.mode is Editing,
    ensures
        step(c, Event::Commit).mode is Browsing,
        entry_of(step(c, Event::Commit).store, c.cur_entry).contents->value == c.mode->buffer,
        forall|g: Handle|
            g.idx < c.store.len() && g.idx != c.cur_entry.idx ==> #[trigger] entry_of(
                step(c, Event::Commit).store,
                g,
            ) == entry_of(c.store, g),
{
    crate::invariants::lemma_store_with_value_frame(c.store, c.cur_entry, c.mode->buffer);
}

/// Cancelling an edit returns to browsing with the store — every
/// option's value — untouched, no matter what was typed.
pub proof fn lemma_cancel_preserves_value(c: CtxV)
    requires
        wf(c),
        c.mode is Editing,
    ensures
        step(c, Event::Cancel).mode is Browsing,
        step(c, Event::Cancel).store == c.store,
{
}

/// Backspace with the cursor at the start, and Delete with the cursor at
/// the end of the buffer, change nothing at all.
pub proof fn lemma_boundary_edit_noops(c: CtxV)
    requires
        wf(c),
        c.mode is Editing,
    ensures
        c.mode->cursor == 0 ==> step(c, Event::Backspace) == c,
        c.mode->cursor == c.mode->buffer.len() ==> step(c, Event::Delete) == c,
{
}

/// A `Quit` event mutates nothing, in any state.
pub proof fn lemma_quit_stutters(c: CtxV)
    ensures
        step(c, Event::Quit) == c,
{
}

} // verus!
