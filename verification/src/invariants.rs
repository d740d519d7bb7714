//! Preservation of the well-formedness invariant: frame lemmas for the
//! two ways the store is mutated, and the proof that every transition of
//! `step` keeps the controller well-formed.

use vstd::prelude::*;
use crate::store::{
    Handle, SlotV, EntryV, ContentsV, valid_handle, child_ok, entry_of, is_menu, children_of,
    sel_children, store_wf, entry_wf_at, lemma_filter_push, lemma_filter_congruent,
    lemma_filter_subset, lemma_filter_no_duplicates,
};
use crate::model::{
    CtxV, ModeV, Event, wf, nav_wf, edit_wf, sel_wf, init_ctx, fresh_handle, store_with_entry,
    store_with_value, add_entry_model, with_selection, enter_menu, back_to_parent, step_browse,
    step_edit, step,
};

verus! {

/// Every selectable child of a live menu is a live, non-root child of it,
/// and there are no more selectable children than children.
pub proof fn lemma_sel_child_ok(store: Seq<SlotV>, m: Handle)
    requires
        store_wf(store),
        valid_handle(store, m),
        is_menu(store, m),
    ensures
        forall|i: int|
            0 <= i < sel_children(store, m).len() ==> child_ok(
                store,
                #[trigger] sel_children(store, m)[i],
            ) && children_of(store, m).contains(sel_children(store, m)[i]),
        sel_children(store, m).len() <= children_of(store, m).len() <= usize::MAX,
{
    let ch = children_of(store, m);
    let pred = |c: Handle| !entry_of(store, c).filler;
    assert(entry_wf_at(store, m.idx as int));
    lemma_filter_subset(ch, pred);
    ch.lemma_filter_len(pred);
    assert forall|i: int| 0 <= i < sel_children(store, m).len() implies child_ok(
        store,
        #[trigger] sel_children(store, m)[i],
    ) && ch.contains(sel_children(store, m)[i]) by {
        assert(ch.contains(sel_children(store, m)[i]));
        let j = choose|j: int| 0 <= j < ch.len() && ch[j] == sel_children(store, m)[i];
        assert(child_ok(store, ch[j]));
    }
}

/// The selectable children of a live menu are pairwise distinct.
pub proof fn lemma_sel_no_duplicates(store: Seq<SlotV>, m: Handle)
    requires
        store_wf(store),
        valid_handle(store, m),
        is_menu(store, m),
    ensures
        sel_children(store, m).no_duplicates(),
{
    let ch = children_of(store, m);
    let pred = |c: Handle| !entry_of(store, c).filler;
    assert(entry_wf_at(store, m.idx as int));
    assert(ch.no_duplicates()) by {
        assert forall|i: int, j: int|
            0 <= i < ch.len() && 0 <= j < ch.len() && i != j implies ch[i] != ch[j] by {
            if i < j {
            } else {
                assert(ch[j] != ch[i]);
            }
        }
    }
    lemma_filter_no_duplicates(ch, pred);
}

/// Two live handles addressing the same slot are the same handle.
pub proof fn lemma_valid_handle_injective(store: Seq<SlotV>, a: Handle, b: Handle)
    requires
        valid_handle(store, a),
        valid_handle(store, b),
        a.idx == b.idx,
    ensures
        a == b,
{
}

/// Overwriting the value of a live option leaves the store well-formed
/// and leaves every entry but that option — in particular every menu and
/// its (selectable) children — unchanged.
pub proof fn lemma_store_with_value_frame(store: Seq<SlotV>, h: Handle, value: Seq<char>)
    requires
        store_wf(store),
        valid_handle(store, h),
        entry_of(store, h).contents is Text,
        value.len() <= usize::MAX,
    ensures
        ({
            let s2 = store_with_value(store, h, value);
            &&& store_wf(s2)
            &&& s2.len() == store.len()
            &&& forall|g: Handle| #[trigger] valid_handle(s2, g) == valid_handle(store, g)
            &&& forall|g: Handle|
                g.idx < store.len() && g.idx != h.idx ==> #[trigger] entry_of(s2, g) == entry_of(
                    store,
                    g,
                )
            &&& entry_of(s2, h) == (EntryV {
                contents: ContentsV::Text { value },
                ..entry_of(store, h)
            })
            &&& forall|g: Handle|
                g.idx < store.len() ==> #[trigger] entry_of(s2, g).filler == entry_of(
                    store,
                    g,
                ).filler
            &&& forall|m: Handle|
                #![trigger is_menu(store, m)]
                valid_handle(store, m) && is_menu(store, m) ==> is_menu(s2, m) && children_of(
                    s2,
                    m,
                ) == children_of(store, m) && sel_children(s2, m) == sel_children(store, m)
        }),
{
    let s2 = store_with_value(store, h, value);
    assert(h.idx != 0) by {
        if h.idx == 0 {
            assert(entry_of(store, h).contents is Menu);
        }
    }
    assert forall|m: Handle|
        #![trigger is_menu(store, m)]
        valid_handle(store, m) && is_menu(store, m) implies is_menu(s2, m) && children_of(s2, m)
        == children_of(store, m) && sel_children(s2, m) == sel_children(store, m) by {
        assert(m.idx != h.idx) by {
            if m.idx == h.idx {
                lemma_valid_handle_injective(store, m, h);
            }
        }
        assert(entry_of(s2, m) == entry_of(store, m));
        let ch = children_of(store, m);
        let pa = |c: Handle| !entry_of(s2, c).filler;
        let pb = |c: Handle| !entry_of(store, c).filler;
        assert(entry_wf_at(store, m.idx as int));
        assert forall|i: int| 0 <= i < ch.len() implies pa(#[trigger] ch[i]) == pb(ch[i]) by {
            assert(child_ok(store, ch[i]));
        }
        lemma_filter_congruent(ch, pa, pb);
    }
    assert(store_wf(s2)) by {
        assert forall|i: int| 0 <= i < s2.len() implies #[trigger] entry_wf_at(s2, i) by {
            assert(entry_wf_at(store, i));
            if i != h.idx {
                assert(s2[i] == store[i]);
            }
            if s2[i].entry.contents is Menu {
                let ch = s2[i].entry.contents->children;
                assert forall|j: int| 0 <= j < ch.len() implies child_ok(
                    s2,
                    #[trigger] ch[j],
                ) by {
                    assert(child_ok(store, ch[j]));
                    assert(s2[ch[j].idx as int].gen == store[ch[j].idx as int].gen);
                }
            }
        }
    }
}

/// Inserting a fresh entry under a live menu leaves the store well-formed;
/// the new slot carries the new entry, the parent's children gain exactly
/// the fresh handle at the end, and every other entry — and every menu's
/// selectable children but the parent's — is unchanged.
pub proof fn lemma_store_with_entry_frame(store: Seq<SlotV>, parent: Handle, e: EntryV)
    requires
        store_wf(store),
        store.len() < usize::MAX,
        valid_handle(store, parent),
        is_menu(store, parent),
        e.contents is Text || e.contents == (ContentsV::Menu { children: Seq::<Handle>::empty() }),
        e.contents matches ContentsV::Text { value } ==> value.len() <= usize::MAX,
        children_of(store, parent).len() < usize::MAX,
    ensures
        ({
            let h = fresh_handle(store);
            let s2 = store_with_entry(store, parent, e);
            &&& store_wf(s2)
            &&& s2.len() == store.len() + 1
            &&& valid_handle(s2, h) && child_ok(s2, h)
            &&& entry_of(s2, h) == e
            &&& forall|g: Handle| valid_handle(store, g) ==> #[trigger] valid_handle(s2, g)
            &&& forall|g: Handle|
                g.idx < store.len() && g.idx != parent.idx ==> #[trigger] entry_of(s2, g)
                    == entry_of(store, g)
            &&& entry_of(s2, parent) == (EntryV {
                contents: ContentsV::Menu { children: children_of(store, parent).push(h) },
                ..entry_of(store, parent)
            })
            &&& forall|g: Handle|
                g.idx < store.len() ==> #[trigger] entry_of(s2, g).filler == entry_of(
                    store,
                    g,
                ).filler
            &&& forall|m: Handle|
                #![trigger is_menu(store, m)]
                valid_handle(store, m) && is_menu(store, m) ==> is_menu(s2, m)
            &&& forall|m: Handle|
                valid_handle(store, m) && is_menu(store, m) && m.idx != parent.idx
                    ==> #[trigger] sel_children(s2, m) == sel_children(store, m)
            &&& sel_children(s2, parent) == if e.filler {
                sel_children(store, parent)
            } else {
                sel_children(store, parent).push(h)
            }
        }),
{
    let h = fresh_handle(store);
    let s2 = store_with_entry(store, parent, e);
    assert(entry_wf_at(store, parent.idx as int));
    assert(entry_of(s2, h) == e);
    assert(s2[parent.idx as int].entry.contents == ContentsV::Menu {
        children: children_of(store, parent).push(h),
    });
    // selectable children of untouched menus are unchanged
    assert forall|m: Handle|
        valid_handle(store, m) && is_menu(store, m) && m.idx != parent.idx implies #[trigger]
    sel_children(s2, m) == sel_children(store, m) by {
        assert(entry_of(s2, m) == entry_of(store, m));
        let ch = children_of(store, m);
        let pa = |c: Handle| !entry_of(s2, c).filler;
        let pb = |c: Handle| !entry_of(store, c).filler;
        assert(entry_wf_at(store, m.idx as int));
        assert forall|i: int| 0 <= i < ch.len() implies pa(#[trigger] ch[i]) == pb(ch[i]) by {
            assert(child_ok(store, ch[i]));
        }
        lemma_filter_congruent(ch, pa, pb);
    }
    // the parent's selectable children gain the fresh handle, unless filler
    assert(sel_children(s2, parent) == if e.filler {
        sel_children(store, parent)
    } else {
        sel_children(store, parent).push(h)
    }) by {
        let ch = children_of(store, parent);
        let pa = |c: Handle| !entry_of(s2, c).filler;
        let pb = |c: Handle| !entry_of(store, c).filler;
        assert(children_of(s2, parent) == ch.push(h));
        lemma_filter_push(ch, pa, h);
        assert forall|i: int| 0 <= i < ch.len() implies pa(#[trigger] ch[i]) == pb(ch[i]) by {
            assert(child_ok(store, ch[i]));
        }
        lemma_filter_congruent(ch, pa, pb);
        assert(pa(h) == !e.filler);
    }
    assert(store_wf(s2)) by {
        assert forall|i: int| 0 <= i < s2.len() implies #[trigger] entry_wf_at(s2, i) by {
            if i == parent.idx {
                assert(entry_wf_at(store, i));
                let ch2 = children_of(store, parent).push(h);
                assert forall|j: int| 0 <= j < ch2.len() implies child_ok(
                    s2,
                    #[trigger] ch2[j],
                ) by {
                    if j < ch2.len() - 1 {
                        assert(child_ok(store, ch2[j]));
                        assert(s2[ch2[j].idx as int].gen == store[ch2[j].idx as int].gen);
                    } else {
                        assert(ch2[j] == h);
                        assert(s2[h.idx as int].gen == h.gen);
                    }
                }
                assert forall|j1: int, j2: int|
                    #![trigger ch2[j1], ch2[j2]]
                    0 <= j1 < j2 < ch2.len() implies ch2[j1] != ch2[j2] by {
                    if j2 == ch2.len() - 1 {
                        assert(child_ok(store, ch2[j1]));
                    }
                }
            } else if i < store.len() {
                assert(entry_wf_at(store, i));
                assert(s2[i] == store[i]);
                if s2[i].entry.contents is Menu {
                    let ch2 = s2[i].entry.contents->children;
                    assert forall|j: int| 0 <= j < ch2.len() implies child_ok(
                        s2,
                        #[trigger] ch2[j],
                    ) by {
                        assert(child_ok(store, ch2[j]));
                        assert(s2[ch2[j].idx as int].gen == store[ch2[j].idx as int].gen);
                    }
                }
            } else {
                // the fresh slot: a text entry or a menu with no children
            }
        }
    }
}

/// The state a controller is constructed in is well-formed.
pub proof fn lemma_init_wf(title: Seq<char>)
    ensures
        wf(init_ctx(title)),
{
    let c = init_ctx(title);
    let root = Handle { idx: 0, gen: 0 };
    assert(children_of(c.store, root) =~= Seq::<Handle>::empty());
    assert(sel_children(c.store, root) =~= Seq::<Handle>::empty()) by {
        c.store[0].entry.contents->children.lemma_filter_len(
            |x: Handle| !entry_of(c.store, x).filler,
        );
    }
}

/// Inserting an entry under a live menu preserves well-formedness.
pub proof fn lemma_add_entry_wf(c: CtxV, parent: Handle, e: EntryV)
    requires
        wf(c),
        c.store.len() < usize::MAX,
        valid_handle(c.store, parent),
        is_menu(c.store, parent),
        e.contents is Text || e.contents == (ContentsV::Menu { children: Seq::<Handle>::empty() }),
        e.contents matches ContentsV::Text { value } ==> value.len() <= usize::MAX,
        children_of(c.store, parent).len() < usize::MAX,
    ensures
        wf(add_entry_model(c, parent, e)),
{
    let h = fresh_handle(c.store);
    let c2 = add_entry_model(c, parent, e);
    lemma_store_with_entry_frame(c.store, parent, e);
    assert(nav_wf(c2)) by {
        assert forall|i: int| 0 <= i < c2.last_menus.len() implies valid_handle(
            c2.store,
            #[trigger] c2.last_menus[i],
        ) && is_menu(c2.store, c2.last_menus[i]) by {
            assert(valid_handle(c.store, c.last_menus[i]));
        }
        // breadcrumb chain memberships survive: the lists grow at most at the end
        assert forall|i: int, j: int|
            #![trigger c2.last_menus[i], c2.last_menus[j]]
            0 <= i && j == i + 1 && j < c2.last_menus.len() implies sel_children(
            c2.store,
            c2.last_menus[i],
        ).contains(c2.last_menus[j]) by {
            let m = c.last_menus[i];
            assert(sel_children(c.store, m).contains(c.last_menus[j]));
            let k = choose|k: int|
                0 <= k < sel_children(c.store, m).len() && sel_children(c.store, m)[k]
                    == c.last_menus[j];
            if m.idx == parent.idx {
                lemma_valid_handle_injective(c.store, m, parent);
                assert(sel_children(c2.store, m)[k] == c.last_menus[j]);
            } else {
                assert(sel_children(c2.store, m)[k] == c.last_menus[j]);
            }
        }
        if c.last_menus.len() > 0 {
            let m = c.last_menus[c.last_menus.len() - 1];
            assert(sel_children(c.store, m).contains(c.cur_menu));
            let k = choose|k: int|
                0 <= k < sel_children(c.store, m).len() && sel_children(c.store, m)[k]
                    == c.cur_menu;
            if m.idx == parent.idx {
                lemma_valid_handle_injective(c.store, m, parent);
                assert(sel_children(c2.store, m)[k] == c.cur_menu);
            } else {
                assert(sel_children(c2.store, m)[k] == c.cur_menu);
            }
        }
        assert(sel_wf(c2)) by {
            let sel = sel_children(c.store, c.cur_menu);
            let sel2 = sel_children(c2.store, c.cur_menu);
            if c.cur_menu.idx == parent.idx {
                lemma_valid_handle_injective(c.store, c.cur_menu, parent);
                if sel.len() > 0 {
                    assert(sel2[c.cur_menu_entry as int] == sel[c.cur_menu_entry as int]);
                } else {
                    if !e.filler {
                        assert(sel2 == sel.push(h));
                        assert(sel2[0] == h);
                    }
                }
            } else {
                assert(sel2 == sel);
            }
        }
    }
    assert(edit_wf(c2)) by {
        if c.mode is Editing {
            assert(sel_children(c.store, c.cur_menu).len() > 0);
            assert(c2.cur_entry == c.cur_entry);
            if c.cur_entry.idx != parent.idx {
                assert(entry_of(c2.store, c.cur_entry) == entry_of(c.store, c.cur_entry));
            } else {
                lemma_valid_handle_injective(c.store, c.cur_entry, parent);
                assert(entry_of(c.store, c.cur_entry).contents is Menu);
            }
            if c.cur_menu.idx == parent.idx {
                lemma_valid_handle_injective(c.store, c.cur_menu, parent);
                assert(sel_children(c2.store, c.cur_menu).len() > 0);
            } else {
                assert(sel_children(c2.store, c.cur_menu) == sel_children(c.store, c.cur_menu));
            }
        }
    }
}

/// Every browsing transition preserves well-formedness.
pub proof fn lemma_step_browse_wf(c: CtxV, ev: Event)
    requires
        wf(c),
        c.mode is Browsing,
    ensures
        wf(step_browse(c, ev)),
{
    let sel = sel_children(c.store, c.cur_menu);
    lemma_sel_child_ok(c.store, c.cur_menu);
    match ev {
        Event::MoveDown => {
            if c.cur_menu_entry + 1 < sel.len() {
                assert(child_ok(c.store, sel[c.cur_menu_entry + 1]));
            }
        }
        Event::MoveUp => {
            if sel.len() > 0 && c.cur_menu_entry > 0 {
                assert(child_ok(c.store, sel[c.cur_menu_entry - 1]));
            }
        }
        Event::Enter => {
            if sel.len() > 0 {
                let tgt = sel[c.cur_menu_entry as int];
                assert(child_ok(c.store, tgt));
                assert(sel.contains(tgt));
                if entry_of(c.store, tgt).contents is Menu {
                    let c2 = enter_menu(c, tgt);
                    let inner = sel_children(c.store, tgt);
                    lemma_sel_child_ok(c.store, tgt);
                    assert(nav_wf(c2)) by {
                        assert(tgt.idx >= 1);
                        assert(c2.cur_menu != c2.root_menu);
                        assert forall|i: int| 0 <= i < c2.last_menus.len() implies valid_handle(
                            c2.store,
                            #[trigger] c2.last_menus[i],
                        ) && is_menu(c2.store, c2.last_menus[i]) by {
                            if i < c.last_menus.len() {
                                assert(c2.last_menus[i] == c.last_menus[i]);
                            } else {
                                assert(c2.last_menus[i] == c.cur_menu);
                            }
                        }
                        assert forall|i: int, j: int|
                            #![trigger c2.last_menus[i], c2.last_menus[j]]
                            0 <= i && j == i + 1 && j < c2.last_menus.len() implies sel_children(
                            c2.store,
                            c2.last_menus[i],
                        ).contains(c2.last_menus[j]) by {
                            if j < c.last_menus.len() {
                                assert(c2.last_menus[i] == c.last_menus[i]);
                                assert(c2.last_menus[j] == c.last_menus[j]);
                            } else {
                                assert(c2.last_menus[j] == c.cur_menu);
                                if c.last_menus.len() > 0 {
                                    assert(c2.last_menus[i] == c.last_menus[i]);
                                }
                            }
                        }
                        if inner.len() > 0 {
                            assert(child_ok(c.store, inner[0]));
                        }
                    }
                } else {
                    // entering an option: the seeded buffer is its stored value
                    assert(entry_wf_at(c.store, tgt.idx as int));
                }
            }
        }
        Event::Back => {
            if c.cur_menu != c.root_menu {
                let parent = c.last_menus.last();
                let ps = sel_children(c.store, parent);
                ps.index_of_first_ensures(c.cur_menu);
                assert(ps.contains(c.cur_menu));
                let i = ps.index_of_first(c.cur_menu)->Some_0;
                let c2 = back_to_parent(c);
                lemma_sel_child_ok(c.store, parent);
                assert(child_ok(c.store, ps[i]));
                assert(nav_wf(c2)) by {
                    assert forall|k: int| 0 <= k < c2.last_menus.len() implies valid_handle(
                        c2.store,
                        #[trigger] c2.last_menus[k],
                    ) && is_menu(c2.store, c2.last_menus[k]) by {
                        assert(c2.last_menus[k] == c.last_menus[k]);
                    }
                    assert forall|k: int, j: int|
                        #![trigger c2.last_menus[k], c2.last_menus[j]]
                        0 <= k && j == k + 1 && j < c2.last_menus.len() implies sel_children(
                        c2.store,
                        c2.last_menus[k],
                    ).contains(c2.last_menus[j]) by {
                        assert(c2.last_menus[k] == c.last_menus[k]);
                        assert(c2.last_menus[j] == c.last_menus[j]);
                    }
                    if c2.last_menus.len() > 0 {
                        let n = c.last_menus.len();
                        assert(c.last_menus[n - 2] == c2.last_menus[n - 2]);
                        assert(sel_children(c.store, c.last_menus[n - 2]).contains(
                            c.last_menus[n - 1],
                        ));
                        lemma_sel_child_ok(c.store, c.last_menus[n - 2]);
                        let q = sel_children(c.store, c.last_menus[n - 2]);
                        let k = choose|k: int| 0 <= k < q.len() && q[k] == c.last_menus[n - 1];
                        assert(child_ok(c.store, q[k]));
                        assert(parent.idx >= 1);
                    }
                }
            }
        }
        _ => {}
    }
}

/// Every editing transition preserves well-formedness.
pub proof fn lemma_step_edit_wf(c: CtxV, ev: Event)
    requires
        wf(c),
        c.mode is Editing,
    ensures
        wf(step_edit(c, ev)),
{
    match ev {
        Event::Commit => {
            let buffer = c.mode->buffer;
            lemma_store_with_value_frame(c.store, c.cur_entry, buffer);
            let c2 = step_edit(c, ev);
            assert(nav_wf(c2)) by {
                assert forall|i: int| 0 <= i < c2.last_menus.len() implies valid_handle(
                    c2.store,
                    #[trigger] c2.last_menus[i],
                ) && is_menu(c2.store, c2.last_menus[i]) by {
                    assert(valid_handle(c.store, c.last_menus[i]));
                }
                assert forall|i: int, j: int|
                    #![trigger c2.last_menus[i], c2.last_menus[j]]
                    0 <= i && j == i + 1 && j < c2.last_menus.len() implies sel_children(
                    c2.store,
                    c2.last_menus[i],
                ).contains(c2.last_menus[j]) by {
                    assert(sel_children(c2.store, c.last_menus[i]) == sel_children(
                        c.store,
                        c.last_menus[i],
                    ));
                }
                if c.last_menus.len() > 0 {
                    let m = c.last_menus[c.last_menus.len() - 1];
                    assert(sel_children(c2.store, m) == sel_children(c.store, m));
                }
                assert(sel_children(c2.store, c.cur_menu) == sel_children(c.store, c.cur_menu));
            }
        }
        _ => {}
    }
}

/// Every transition of the state machine preserves well-formedness: the
/// backbone of the index- and cursor-bounds properties.
pub proof fn lemma_step_preserves_wf(c: CtxV, ev: Event)
    requires
        wf(c),
    ensures
        wf(step(c, ev)),
{
    match ev {
        Event::Quit => {}
        Event::Resize => {}
        _ => {
            match c.mode {
                ModeV::Browsing => lemma_step_browse_wf(c, ev),
                ModeV::Editing { .. } => lemma_step_edit_wf(c, ev),
            }
        }
    }
}

} // verus!
