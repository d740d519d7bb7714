//! The controller: the entry store, the navigation state and the edit
//! sub-state in one owned value, mutated only by `update`, which refines
//! the transition function `step` of the model.

use vstd::prelude::*;
use crate::store::{
    Handle, MenuError, Entry, EntryContents, Slot, SlotV, EntryV, ContentsV, store_view,
    valid_handle, child_ok, entry_of, is_menu, children_of, sel_children, store_wf, entry_wf_at,
    lemma_filter_push,
};
use crate::model::{
    CtxV, ModeV, Event, init_ctx, fresh_handle, add_entry_model, store_with_value, with_selection,
    enter_menu, back_to_parent, step_browse, step_edit, step,
};
use crate::invariants::{
    lemma_init_wf, lemma_add_entry_wf, lemma_step_browse_wf, lemma_step_edit_wf,
    lemma_step_preserves_wf, lemma_sel_child_ok,
};
use crate::text::{to_char_vec, copy_chars, chars_to_string};

verus! {

/// What the caller of `update` should do next: keep looping, or leave
/// the interactive loop.
#[derive(Clone, Copy, PartialEq, Eq, Structural, Debug)]
pub enum UpdateRet {
    NoRet,
    Quit,
}

/// The controller's modal state: browsing the tree, or editing the
/// selected option's text with a buffer and a cursor.
pub enum EditMode {
    Browsing,
    Editing { buffer: Vec<char>, cursor: usize },
}

impl View for EditMode {
    type V = ModeV;

    open spec fn view(&self) -> ModeV {
        match self {
            EditMode::Browsing => ModeV::Browsing,
            EditMode::Editing { buffer, cursor } => ModeV::Editing {
                buffer: buffer@,
                cursor: *cursor,
            },
        }
    }
}

/// The controller. It owns the whole menu state; drawing and key
/// decoding happen outside, against the public accessors.
#[allow(non_camel_case_types)]
pub struct ctx {
    pub title: Vec<char>,
    pub entries: Vec<Slot>,
    pub requires_redraw: bool,
    pub cur_menu: Handle,
    pub cur_entry: Handle,
    pub last_menus: Vec<Handle>,
    pub cur_menu_entry: usize,
    pub root_menu: Handle,
    pub mode: EditMode,
    pub log_msg: Vec<char>,
}

impl View for ctx {
    type V = CtxV;

    open spec fn view(&self) -> CtxV {
        CtxV {
            title: self.title@,
            store: store_view(self.entries@),
            requires_redraw: self.requires_redraw,
            cur_menu: self.cur_menu,
            cur_entry: self.cur_entry,
            last_menus: self.last_menus@,
            cur_menu_entry: self.cur_menu_entry,
            root_menu: self.root_menu,
            mode: self.mode@,
            log_msg: self.log_msg@,
        }
    }
}

/// Appends a child handle to a menu entry's children list.
fn push_child_entry(e: Entry, h: Handle) -> (r: Entry)
    requires
        e@.contents is Menu,
    ensures
        r@ == (EntryV {
            contents: ContentsV::Menu { children: e@.contents->children.push(h) },
            ..e@
        }),
        e@.contents->children.len() < usize::MAX,
{
    match e.contents {
        EntryContents::Menu { mut children } => {
            children.push(h);
            proof {
                assert(children.len() == children@.len());
                assert(children@.len() <= usize::MAX);
            }
            Entry {
                name: e.name,
                description: e.description,
                filler: e.filler,
                contents: EntryContents::Menu { children },
            }
        },
        EntryContents::Text { value } => Entry {
            name: e.name,
            description: e.description,
            filler: e.filler,
            contents: EntryContents::Text { value },
        },
    }
}

/// Overwrites a text entry's value.
fn set_text_entry(e: Entry, v: Vec<char>) -> (r: Entry)
    requires
        e@.contents is Text,
    ensures
        r@ == (EntryV { contents: ContentsV::Text { value: v@ }, ..e@ }),
{
    match e.contents {
        EntryContents::Text { value: _ } => Entry {
            name: e.name,
            description: e.description,
            filler: e.filler,
            contents: EntryContents::Text { value: v },
        },
        EntryContents::Menu { children } => Entry {
            name: e.name,
            description: e.description,
            filler: e.filler,
            contents: EntryContents::Menu { children },
        },
    }
}

impl ctx {
    /// The controller is well-formed: the store is intact, the selection
    /// sits inside the current menu, the breadcrumb stack records the
    /// path from the root, and any edit cursor stays inside its buffer.
    pub open spec fn wf(&self) -> bool {
        crate::model::wf(self@)
    }

    /// Builds a controller holding one empty root menu, browsing at
    /// index zero, with a redraw pending.
    pub fn new(title_in: &str) -> (c: ctx)
        ensures
            c@ == init_ctx(title_in@),
            c.wf(),
    {
        let root = Handle { idx: 0, gen: 0 };
        let mut entries: Vec<Slot> = Vec::new();
        entries.push(
            Slot {
                gen: 0,
                entry: Entry {
                    name: to_char_vec("Root Menu"),
                    description: to_char_vec("Root Menu"),
                    filler: false,
                    contents: EntryContents::Menu { children: Vec::new() },
                },
            },
        );
        let c = ctx {
            title: to_char_vec(title_in),
            entries,
            requires_redraw: true,
            cur_menu: root,
            cur_entry: root,
            last_menus: Vec::new(),
            cur_menu_entry: 0,
            root_menu: root,
            mode: EditMode::Browsing,
            log_msg: to_char_vec("Root Menu"),
        };
        proof {
            assert(c@ =~~= init_ctx(title_in@));
            lemma_init_wf(title_in@);
        }
        c
    }

    /// The handle of the root menu.
    pub fn root(&self) -> (h: Handle)
        ensures
            h == self@.root_menu,
    {
        self.root_menu
    }

    /// The menu whose children are currently displayed.
    pub fn current_menu(&self) -> (h: Handle)
        ensures
            h == self@.cur_menu,
    {
        self.cur_menu
    }

    /// The selection's position among the current menu's selectable
    /// children (zero over an empty menu).
    pub fn current_index(&self) -> (i: usize)
        ensures
            i == self@.cur_menu_entry,
    {
        self.cur_menu_entry
    }

    /// The handle of the selected entry. Meaningful only while the
    /// current menu has a selectable child.
    pub fn selected_entry(&self) -> (h: Handle)
        ensures
            h == self@.cur_entry,
    {
        self.cur_entry
    }

    /// Whether the edit sub-state is active.
    pub fn is_editing(&self) -> (b: bool)
        ensures
            b == (self@.mode is Editing),
    {
        match &self.mode {
            EditMode::Editing { .. } => true,
            EditMode::Browsing => false,
        }
    }

    /// The text being composed, while editing.
    pub fn edit_buffer(&self) -> (r: Option<String>)
        ensures
            match r {
                Some(s) => self@.mode matches ModeV::Editing { buffer, .. } && s@ == buffer,
                None => self@.mode is Browsing,
            },
    {
        match &self.mode {
            EditMode::Editing { buffer, .. } => Some(chars_to_string(buffer)),
            EditMode::Browsing => None,
        }
    }

    /// The insertion position inside the edit buffer, while editing.
    pub fn cursor_position(&self) -> (r: Option<usize>)
        ensures
            match r {
                Some(i) => self@.mode matches ModeV::Editing { cursor, .. } && i == cursor,
                None => self@.mode is Browsing,
            },
    {
        match &self.mode {
            EditMode::Editing { cursor, .. } => Some(*cursor),
            EditMode::Browsing => None,
        }
    }

    /// The status line: the selected entry's description, or a transient
    /// message.
    pub fn status(&self) -> (s: String)
        ensures
            s@ == self@.log_msg,
    {
        chars_to_string(&self.log_msg)
    }

    /// The title handed to the constructor.
    pub fn title(&self) -> (s: String)
        ensures
            s@ == self@.title,
    {
        chars_to_string(&self.title)
    }

    /// Whether a repaint is due.
    pub fn needs_redraw(&self) -> (b: bool)
        ensures
            b == self@.requires_redraw,
    {
        self.requires_redraw
    }

    /// Clears the redraw flag. Called by the render adapter after a
    /// completed paint pass, never by the controller itself.
    pub fn mark_drawn(&mut self)
        requires
            old(self).wf(),
        ensures
            final(self).wf(),
            final(self)@ == (CtxV { requires_redraw: false, ..old(self)@ }),
    {
        self.requires_redraw = false;
        proof {
            assert(self@ =~~= (CtxV { requires_redraw: false, ..old(self)@ }));
        }
    }
}

impl ctx {
    /// The current menu's selectable children, in order.
    fn selectable_vec(&self, m: Handle) -> (out: Vec<Handle>)
        requires
            store_wf(self@.store),
            valid_handle(self@.store, m),
            is_menu(self@.store, m),
        ensures
            out@ == sel_children(self@.store, m),
    {
        let ghost st = self@.store;
        proof {
            assert(entry_wf_at(st, m.idx as int));
            assert(self.entries@.len() == st.len());
        }
        let mut out: Vec<Handle> = Vec::new();
        match &self.entries[m.idx].entry.contents {
            EntryContents::Menu { children } => {
                proof {
                    assert(children@ == children_of(st, m));
                }
                let n = children.len();
                let mut j: usize = 0;
                while j < n
                    invariant
                        j <= n,
                        n == children@.len(),
                        children@ == children_of(st, m),
                        st == store_view(self.entries@),
                        self.entries@.len() == st.len(),
                        store_wf(st),
                        valid_handle(st, m),
                        is_menu(st, m),
                        entry_wf_at(st, m.idx as int),
                        out@ == children_of(st, m).subrange(0, j as int).filter(
                            |c: Handle| !entry_of(st, c).filler,
                        ),
                    decreases n - j,
                {
                    let h = children[j];
                    proof {
                        assert(child_ok(st, h));
                    }
                    let filler = self.entries[h.idx].entry.filler;
                    proof {
                        assert(filler == entry_of(st, h).filler);
                    }
                    if !filler {
                        out.push(h);
                    }
                    proof {
                        let pred = |c: Handle| !entry_of(st, c).filler;
                        assert(children@.subrange(0, j + 1 as int) =~= children@.subrange(
                            0,
                            j as int,
                        ).push(h));
                        lemma_filter_push(children@.subrange(0, j as int), pred, h);
                    }
                    j = j + 1;
                }
                proof {
                    assert(children@.subrange(0, n as int) =~= children@);
                }
                out
            },
            EntryContents::Text { .. } => {
                proof {
                    assert(false);
                }
                out
            },
        }
    }

    /// Whether the entry at a live handle is a menu.
    fn is_menu_at(&self, h: Handle) -> (b: bool)
        requires
            valid_handle(self@.store, h),
        ensures
            b == is_menu(self@.store, h),
    {
        proof {
            assert(self.entries@.len() == self@.store.len());
        }
        match &self.entries[h.idx].entry.contents {
            EntryContents::Menu { .. } => true,
            EntryContents::Text { .. } => false,
        }
    }

    /// A copy of the entry's description.
    fn description_of(&self, h: Handle) -> (d: Vec<char>)
        requires
            valid_handle(self@.store, h),
        ensures
            d@ == entry_of(self@.store, h).description,
    {
        proof {
            assert(self.entries@.len() == self@.store.len());
        }
        copy_chars(&self.entries[h.idx].entry.description)
    }

    /// A copy of the option's current value.
    fn value_of(&self, h: Handle) -> (v: Vec<char>)
        requires
            valid_handle(self@.store, h),
            entry_of(self@.store, h).contents is Text,
        ensures
            v@ == entry_of(self@.store, h).contents->value,
    {
        proof {
            assert(self.entries@.len() == self@.store.len());
        }
        match &self.entries[h.idx].entry.contents {
            EntryContents::Text { value } => copy_chars(value),
            EntryContents::Menu { .. } => {
                proof {
                    assert(false);
                }
                Vec::new()
            },
        }
    }

    /// Inserts an entry under `parent_menu`, appending it to the menu's
    /// children; refused when the handle is dead or names an option.
    fn add_entry(&mut self, ent: Entry, parent_menu: Handle) -> (r: Result<Handle, MenuError>)
        requires
            old(self).wf(),
            ent@.contents is Text || ent@.contents == (ContentsV::Menu {
                children: Seq::<Handle>::empty(),
            }),
            ent@.contents matches ContentsV::Text { value } ==> value.len() <= usize::MAX,
        ensures
            final(self).wf(),
            match r {
                Ok(h) => {
                    &&& valid_handle(old(self)@.store, parent_menu)
                    &&& is_menu(old(self)@.store, parent_menu)
                    &&& h == fresh_handle(old(self)@.store)
                    &&& final(self)@ == add_entry_model(old(self)@, parent_menu, ent@)
                },
                Err(MenuError::InvalidHandle) => !valid_handle(old(self)@.store, parent_menu)
                    && final(self)@ == old(self)@,
                Err(MenuError::InvalidParent) => valid_handle(old(self)@.store, parent_menu)
                    && !is_menu(old(self)@.store, parent_menu) && final(self)@ == old(self)@,
            },
    {
        let ghost c0 = self@;
        proof {
            assert(self.entries@.len() == c0.store.len());
        }
        if parent_menu.idx >= self.entries.len() {
            return Err(MenuError::InvalidHandle);
        }
        if self.entries[parent_menu.idx].gen != parent_menu.gen {
            return Err(MenuError::InvalidHandle);
        }
        if !self.is_menu_at(parent_menu) {
            return Err(MenuError::InvalidParent);
        }
        let sel_now = self.selectable_vec(self.cur_menu);
        let refresh = parent_menu == self.cur_menu && !ent.filler && sel_now.len() == 0;
        let idx = self.entries.len();
        let h = Handle { idx, gen: idx };
        let ghost entv = ent@;
        self.entries.push(Slot { gen: idx, entry: ent });
        proof {
            assert(self.entries.len() == self.entries@.len());
            assert(c0.store.len() < usize::MAX);
        }
        let mut pslot = self.entries.remove(parent_menu.idx);
        pslot.entry = push_child_entry(pslot.entry, h);
        self.entries.insert(parent_menu.idx, pslot);
        if refresh {
            self.cur_entry = h;
        }
        proof {
            assert(self@.store =~~= crate::model::store_with_entry(c0.store, parent_menu, entv));
            assert(self@ =~~= add_entry_model(c0, parent_menu, entv));
            lemma_add_entry_wf(c0, parent_menu, entv);
        }
        Ok(h)
    }

    /// Adds a submenu named `name` under `parent_menu`; fails with
    /// `InvalidHandle` on a dead handle and `InvalidParent` when the
    /// parent is not a menu.
    pub fn add_menu(&mut self, name: &str, description: &str, parent_menu: Handle) -> (r: Result<
        Handle,
        MenuError,
    >)
        requires
            old(self).wf(),
        ensures
            final(self).wf(),
            match r {
                Ok(h) => {
                    &&& valid_handle(old(self)@.store, parent_menu)
                    &&& is_menu(old(self)@.store, parent_menu)
                    &&& h == fresh_handle(old(self)@.store)
                    &&& final(self)@ == add_entry_model(
                        old(self)@,
                        parent_menu,
                        EntryV {
                            name: name@,
                            description: description@,
                            filler: false,
                            contents: ContentsV::Menu { children: Seq::<Handle>::empty() },
                        },
                    )
                },
                Err(MenuError::InvalidHandle) => !valid_handle(old(self)@.store, parent_menu)
                    && final(self)@ == old(self)@,
                Err(MenuError::InvalidParent) => valid_handle(old(self)@.store, parent_menu)
                    && !is_menu(old(self)@.store, parent_menu) && final(self)@ == old(self)@,
            },
    {
        let ent = Entry {
            name: to_char_vec(name),
            description: to_char_vec(description),
            filler: false,
            contents: EntryContents::Menu { children: Vec::new() },
        };
        proof {
            assert(ent@.contents == (ContentsV::Menu { children: Seq::<Handle>::empty() }));
        }
        self.add_entry(ent, parent_menu)
    }

    /// Adds an option named `name` with an initial text value under
    /// `parent_menu`; fails as `add_menu` does.
    pub fn add_option(
        &mut self,
        name: &str,
        description: &str,
        default_value: &str,
        parent_menu: Handle,
    ) -> (r: Result<Handle, MenuError>)
        requires
            old(self).wf(),
        ensures
            final(self).wf(),
            match r {
                Ok(h) => {
                    &&& valid_handle(old(self)@.store, parent_menu)
                    &&& is_menu(old(self)@.store, parent_menu)
                    &&& h == fresh_handle(old(self)@.store)
                    &&& final(self)@ == add_entry_model(
                        old(self)@,
                        parent_menu,
                        EntryV {
                            name: name@,
                            description: description@,
                            filler: false,
                            contents: ContentsV::Text { value: default_value@ },
                        },
                    )
                },
                Err(MenuError::InvalidHandle) => !valid_handle(old(self)@.store, parent_menu)
                    && final(self)@ == old(self)@,
                Err(MenuError::InvalidParent) => valid_handle(old(self)@.store, parent_menu)
                    && !is_menu(old(self)@.store, parent_menu) && final(self)@ == old(self)@,
            },
    {
        let value = to_char_vec(default_value);
        proof {
            assert(value.len() == value@.len());
        }
        let ent = Entry {
            name: to_char_vec(name),
            description: to_char_vec(description),
            filler: false,
            contents: EntryContents::Text { value },
        };
        self.add_entry(ent, parent_menu)
    }

    /// Adds a non-selectable decorative row under `parent_menu`: it is
    /// rendered but never selected and never counted by navigation.
    pub fn add_filler(&mut self, name: &str, description: &str, parent_menu: Handle) -> (r: Result<
        Handle,
        MenuError,
    >)
        requires
            old(self).wf(),
        ensures
            final(self).wf(),
            match r {
                Ok(h) => {
                    &&& valid_handle(old(self)@.store, parent_menu)
                    &&& is_menu(old(self)@.store, parent_menu)
                    &&& h == fresh_handle(old(self)@.store)
                    &&& final(self)@ == add_entry_model(
                        old(self)@,
                        parent_menu,
                        EntryV {
                            name: name@,
                            description: description@,
                            filler: true,
                            contents: ContentsV::Text { value: Seq::<char>::empty() },
                        },
                    )
                },
                Err(MenuError::InvalidHandle) => !valid_handle(old(self)@.store, parent_menu)
                    && final(self)@ == old(self)@,
                Err(MenuError::InvalidParent) => valid_handle(old(self)@.store, parent_menu)
                    && !is_menu(old(self)@.store, parent_menu) && final(self)@ == old(self)@,
            },
    {
        let ent = Entry {
            name: to_char_vec(name),
            description: to_char_vec(description),
            filler: true,
            contents: EntryContents::Text { value: Vec::new() },
        };
        proof {
            assert(ent@.contents->value =~= Seq::<char>::empty());
        }
        self.add_entry(ent, parent_menu)
    }
}

impl ctx {
    /// One browsing transition, refining `step_browse`.
    fn update_browse(&mut self, ev: Event)
        requires
            old(self).wf(),
            old(self)@.mode is Browsing,
            !(ev is Quit),
            !(ev is Resize),
        ensures
            final(self).wf(),
            final(self)@ == step_browse(old(self)@, ev),
    {
        let ghost c0 = self@;
        proof {
            lemma_step_browse_wf(c0, ev);
            lemma_sel_child_ok(c0.store, c0.cur_menu);
            assert(self.entries@.len() == c0.store.len());
        }
        match ev {
            Event::MoveDown => {
                let sel = self.selectable_vec(self.cur_menu);
                proof {
                    assert(self.cur_menu_entry < usize::MAX) by {
                        if sel_children(c0.store, c0.cur_menu).len() > 0 {
                            assert(sel.len() == sel@.len());
                        }
                    }
                }
                if self.cur_menu_entry + 1 < sel.len() {
                    self.cur_menu_entry = self.cur_menu_entry + 1;
                    self.cur_entry = sel[self.cur_menu_entry];
                    proof {
                        assert(child_ok(c0.store, self.cur_entry));
                    }
                    self.log_msg = self.description_of(self.cur_entry);
                    self.requires_redraw = true;
                    proof {
                        assert(self@ =~~= with_selection(c0, (c0.cur_menu_entry + 1) as usize));
                    }
                }
            },
            Event::MoveUp => {
                let sel = self.selectable_vec(self.cur_menu);
                if sel.len() > 0 && self.cur_menu_entry > 0 {
                    self.cur_menu_entry = self.cur_menu_entry - 1;
                    self.cur_entry = sel[self.cur_menu_entry];
                    proof {
                        assert(child_ok(c0.store, self.cur_entry));
                    }
                    self.log_msg = self.description_of(self.cur_entry);
                    self.requires_redraw = true;
                    proof {
                        assert(self@ =~~= with_selection(c0, (c0.cur_menu_entry - 1) as usize));
                    }
                }
            },
            Event::Enter => {
                let sel = self.selectable_vec(self.cur_menu);
                if sel.len() > 0 {
                    proof {
                        assert(c0.cur_menu_entry < sel@.len());
                    }
                    let tgt = sel[self.cur_menu_entry];
                    proof {
                        assert(child_ok(c0.store, tgt));
                    }
                    if self.is_menu_at(tgt) {
                        self.last_menus.push(self.cur_menu);
                        self.cur_menu = tgt;
                        self.cur_menu_entry = 0;
                        let inner = self.selectable_vec(tgt);
                        proof {
                            lemma_sel_child_ok(c0.store, tgt);
                        }
                        if inner.len() > 0 {
                            self.cur_entry = inner[0];
                            self.log_msg = self.description_of(self.cur_entry);
                        } else {
                            self.log_msg = Vec::new();
                        }
                        self.requires_redraw = true;
                        proof {
                            assert(self@ =~~= enter_menu(c0, tgt));
                        }
                    } else {
                        proof {
                            assert(entry_of(c0.store, tgt).contents is Text);
                        }
                        let val = self.value_of(tgt);
                        self.mode = EditMode::Editing { buffer: val, cursor: 0 };
                        self.requires_redraw = true;
                        proof {
                            assert(self@ =~~= step_browse(c0, ev));
                        }
                    }
                }
            },
            Event::Back => {
                if self.cur_menu != self.root_menu {
                    proof {
                        assert(c0.last_menus.len() > 0);
                    }
                    let parent = self.last_menus[self.last_menus.len() - 1];
                    let sel = self.selectable_vec(parent);
                    let target = self.cur_menu;
                    proof {
                        assert(sel@.contains(target));
                        lemma_sel_child_ok(c0.store, parent);
                    }
                    let n = sel.len();
                    let mut i: usize = 0;
                    proof {
                        assert(exists|j: int| 0 <= j < n && sel@[j] == target);
                    }
                    while i < n && sel[i] != target
                        invariant
                            i <= n,
                            n == sel@.len(),
                            forall|j: int| 0 <= j < i ==> sel@[j] != target,
                            exists|j: int| i <= j < n && sel@[j] == target,
                        decreases n - i,
                    {
                        i = i + 1;
                    }
                    proof {
                        assert(i < n && sel@[i as int] == target);
                        sel@.index_of_first_ensures(target);
                        assert(sel@.index_of_first(target) matches Some(fi) && fi == i);
                        assert(child_ok(c0.store, sel@[i as int]));
                    }
                    let _popped = self.last_menus.pop();
                    self.cur_menu = parent;
                    self.cur_menu_entry = i;
                    self.cur_entry = sel[i];
                    self.log_msg = self.description_of(self.cur_entry);
                    self.requires_redraw = true;
                    proof {
                        assert(self.last_menus@ =~= c0.last_menus.drop_last());
                        assert(self@ =~~= back_to_parent(c0));
                    }
                }
            },
            _ => {},
        }
    }

    /// One editing transition, refining `step_edit`.
    fn update_edit(&mut self, ev: Event)
        requires
            old(self).wf(),
            old(self)@.mode is Editing,
            !(ev is Quit),
            !(ev is Resize),
        ensures
            final(self).wf(),
            final(self)@ == step_edit(old(self)@, ev),
    {
        let ghost c0 = self@;
        proof {
            lemma_step_edit_wf(c0, ev);
            assert(self.entries@.len() == c0.store.len());
        }
        let mut m = EditMode::Browsing;
        core::mem::swap(&mut self.mode, &mut m);
        match m {
            EditMode::Editing { mut buffer, mut cursor } => {
                proof {
                    assert(c0.mode->buffer == buffer@ && c0.mode->cursor == cursor);
                }
                match ev {
                    Event::MoveCursorLeft => {
                        if cursor > 0 {
                            cursor = cursor - 1;
                        }
                        self.mode = EditMode::Editing { buffer, cursor };
                        proof {
                            assert(self@ =~~= step_edit(c0, ev));
                        }
                    },
                    Event::MoveCursorRight => {
                        if cursor < buffer.len() {
                            cursor = cursor + 1;
                        }
                        self.mode = EditMode::Editing { buffer, cursor };
                        proof {
                            assert(self@ =~~= step_edit(c0, ev));
                        }
                    },
                    Event::InsertChar(ch) => {
                        if buffer.len() < usize::MAX {
                            buffer.insert(cursor, ch);
                            cursor = cursor + 1;
                            self.requires_redraw = true;
                        }
                        self.mode = EditMode::Editing { buffer, cursor };
                        proof {
                            assert(self@ =~~= step_edit(c0, ev));
                        }
                    },
                    Event::Backspace => {
                        if cursor > 0 {
                            cursor = cursor - 1;
                            buffer.remove(cursor);
                            self.requires_redraw = true;
                        }
                        self.mode = EditMode::Editing { buffer, cursor };
                        proof {
                            assert(self@ =~~= step_edit(c0, ev));
                        }
                    },
                    Event::Delete => {
                        if cursor < buffer.len() {
                            buffer.remove(cursor);
                            self.requires_redraw = true;
                        }
                        self.mode = EditMode::Editing { buffer, cursor };
                        proof {
                            assert(self@ =~~= step_edit(c0, ev));
                        }
                    },
                    Event::Commit => {
                        proof {
                            assert(child_ok(c0.store, c0.cur_entry));
                            assert(self.entries.len() == self.entries@.len());
                        }
                        let idx = self.cur_entry.idx;
                        let mut slot = self.entries.remove(idx);
                        proof {
                            assert(slot@ == c0.store[idx as int]);
                            assert(slot.entry@.contents is Text);
                        }
                        slot.entry = set_text_entry(slot.entry, buffer);
                        self.entries.insert(idx, slot);
                        self.mode = EditMode::Browsing;
                        self.log_msg = to_char_vec("committed");
                        self.requires_redraw = true;
                        proof {
                            assert(self@.store =~~= store_with_value(
                                c0.store,
                                c0.cur_entry,
                                c0.mode->buffer,
                            ));
                            assert(self@ =~~= step_edit(c0, ev));
                        }
                    },
                    Event::Cancel => {
                        self.mode = EditMode::Browsing;
                        self.requires_redraw = true;
                        proof {
                            assert(self@ =~~= step_edit(c0, ev));
                        }
                    },
                    _ => {
                        self.mode = EditMode::Editing { buffer, cursor };
                        proof {
                            assert(self@ =~~= step_edit(c0, ev));
                        }
                    },
                }
            },
            EditMode::Browsing => {
                proof {
                    assert(false);
                }
            },
        }
    }

    /// The live entry at `h`, if any: the exec mirror of handle
    /// validation, shared by the public accessors.
    fn check_handle(&self, h: Handle) -> (b: bool)
        ensures
            b == valid_handle(self@.store, h),
    {
        proof {
            assert(self.entries.len() == self.entries@.len());
            assert(self.entries@.len() == self@.store.len());
        }
        h.idx < self.entries.len() && self.entries[h.idx].gen == h.gen
    }

    /// The menu's children with fillers left out, in navigation order;
    /// `InvalidHandle` on a dead handle, `InvalidParent` on an option.
    pub fn selectable_children(&self, m: Handle) -> (r: Result<Vec<Handle>, MenuError>)
        requires
            self.wf(),
        ensures
            match r {
                Ok(v) => valid_handle(self@.store, m) && is_menu(self@.store, m) && v@
                    == sel_children(self@.store, m),
                Err(MenuError::InvalidHandle) => !valid_handle(self@.store, m),
                Err(MenuError::InvalidParent) => valid_handle(self@.store, m) && !is_menu(
                    self@.store,
                    m,
                ),
            },
    {
        if !self.check_handle(m) {
            return Err(MenuError::InvalidHandle);
        }
        if !self.is_menu_at(m) {
            return Err(MenuError::InvalidParent);
        }
        Ok(self.selectable_vec(m))
    }

    /// All the menu's children in order, fillers included — what the
    /// render adapter walks to paint the rows.
    pub fn children(&self, m: Handle) -> (r: Result<Vec<Handle>, MenuError>)
        ensures
            match r {
                Ok(v) => valid_handle(self@.store, m) && is_menu(self@.store, m) && v@
                    == children_of(self@.store, m),
                Err(MenuError::InvalidHandle) => !valid_handle(self@.store, m),
                Err(MenuError::InvalidParent) => valid_handle(self@.store, m) && !is_menu(
                    self@.store,
                    m,
                ),
            },
    {
        if !self.check_handle(m) {
            return Err(MenuError::InvalidHandle);
        }
        if !self.is_menu_at(m) {
            return Err(MenuError::InvalidParent);
        }
        proof {
            assert(self.entries@.len() == self@.store.len());
        }
        match &self.entries[m.idx].entry.contents {
            EntryContents::Menu { children } => {
                let mut out: Vec<Handle> = Vec::new();
                let n = children.len();
                let mut j: usize = 0;
                while j < n
                    invariant
                        j <= n,
                        n == children@.len(),
                        out@ == children@.subrange(0, j as int),
                    decreases n - j,
                {
                    out.push(children[j]);
                    proof {
                        assert(out@ =~= children@.subrange(0, j + 1 as int));
                    }
                    j = j + 1;
                }
                proof {
                    assert(out@ =~= children@);
                    assert(children@ == children_of(self@.store, m));
                }
                Ok(out)
            },
            EntryContents::Text { .. } => {
                proof {
                    assert(false);
                }
                Err(MenuError::InvalidParent)
            },
        }
    }

    /// The entry's display label; `InvalidHandle` on a dead handle.
    pub fn entry_name(&self, h: Handle) -> (r: Result<String, MenuError>)
        ensures
            match r {
                Ok(s) => valid_handle(self@.store, h) && s@ == entry_of(self@.store, h).name,
                Err(e) => e == MenuError::InvalidHandle && !valid_handle(self@.store, h),
            },
    {
        if !self.check_handle(h) {
            return Err(MenuError::InvalidHandle);
        }
        proof {
            assert(self.entries@.len() == self@.store.len());
        }
        Ok(chars_to_string(&self.entries[h.idx].entry.name))
    }

    /// The entry's description, shown as status text while it is
    /// selected; `InvalidHandle` on a dead handle.
    pub fn entry_description(&self, h: Handle) -> (r: Result<String, MenuError>)
        ensures
            match r {
                Ok(s) => valid_handle(self@.store, h) && s@ == entry_of(self@.store, h).description,
                Err(e) => e == MenuError::InvalidHandle && !valid_handle(self@.store, h),
            },
    {
        if !self.check_handle(h) {
            return Err(MenuError::InvalidHandle);
        }
        proof {
            assert(self.entries@.len() == self@.store.len());
        }
        Ok(chars_to_string(&self.entries[h.idx].entry.description))
    }

    /// Whether the entry is a decorative filler row.
    pub fn entry_is_filler(&self, h: Handle) -> (r: Result<bool, MenuError>)
        ensures
            match r {
                Ok(b) => valid_handle(self@.store, h) && b == entry_of(self@.store, h).filler,
                Err(e) => e == MenuError::InvalidHandle && !valid_handle(self@.store, h),
            },
    {
        if !self.check_handle(h) {
            return Err(MenuError::InvalidHandle);
        }
        proof {
            assert(self.entries@.len() == self@.store.len());
        }
        Ok(self.entries[h.idx].entry.filler)
    }

    /// Whether the entry is a menu (as opposed to an editable option).
    pub fn entry_is_menu(&self, h: Handle) -> (r: Result<bool, MenuError>)
        ensures
            match r {
                Ok(b) => valid_handle(self@.store, h) && b == is_menu(self@.store, h),
                Err(e) => e == MenuError::InvalidHandle && !valid_handle(self@.store, h),
            },
    {
        if !self.check_handle(h) {
            return Err(MenuError::InvalidHandle);
        }
        Ok(self.is_menu_at(h))
    }

    /// The option's current text value; `Ok(None)` for a menu entry,
    /// `InvalidHandle` on a dead handle.
    pub fn option_value(&self, h: Handle) -> (r: Result<Option<String>, MenuError>)
        ensures
            match r {
                Ok(Some(s)) => valid_handle(self@.store, h) && (entry_of(
                    self@.store,
                    h,
                ).contents matches ContentsV::Text { value } && s@ == value),
                Ok(None) => valid_handle(self@.store, h) && is_menu(self@.store, h),
                Err(e) => e == MenuError::InvalidHandle && !valid_handle(self@.store, h),
            },
    {
        if !self.check_handle(h) {
            return Err(MenuError::InvalidHandle);
        }
        proof {
            assert(self.entries@.len() == self@.store.len());
        }
        match &self.entries[h.idx].entry.contents {
            EntryContents::Text { value } => Ok(Some(chars_to_string(value))),
            EntryContents::Menu { .. } => Ok(None),
        }
    }

    /// Dispatches one abstract input event through the active state
    /// machine, refining `step`; returns `Quit` exactly on a `Quit`
    /// event, which never mutates any state.
    pub fn update(&mut self, ev: Event) -> (r: UpdateRet)
        requires
            old(self).wf(),
        ensures
            final(self).wf(),
            final(self)@ == step(old(self)@, ev),
            (r matches UpdateRet::Quit) <==> (ev matches Event::Quit),
    {
        let ghost c0 = self@;
        proof {
            lemma_step_preserves_wf(c0, ev);
        }
        match ev {
            Event::Quit => UpdateRet::Quit,
            Event::Resize => {
                self.requires_redraw = true;
                proof {
                    assert(self@ =~~= step(c0, ev));
                }
                UpdateRet::NoRet
            },
            _ => {
                if self.is_editing() {
                    self.update_edit(ev);
                } else {
                    self.update_browse(ev);
                }
                UpdateRet::NoRet
            },
        }
    }
}

} // verus!
