//! The entry store: an arena of menu/option nodes addressed by stable,
//! generation-checked handles.
//!
//! Every non-root entry is appended to a pre-existing menu's `children`
//! list, so handles in children lists are always distinct and never name
//! the root slot.

use vstd::prelude::*;

verus! {

/// A stable address of one entry in the store: the slot index paired with
/// the generation the slot had when the entry was inserted.
///
/// Handles are opaque outside the crate; two handles are equal exactly
/// when both fields agree.
#[derive(Clone, Copy, PartialEq, Eq, Structural, Debug)]
pub struct Handle {
    pub idx: usize,
    pub gen: usize,
}

/// The ways a store operation can be refused.
#[derive(Clone, Copy, PartialEq, Eq, Structural, Debug)]
pub enum MenuError {
    /// The handle does not resolve to a live entry.
    InvalidHandle,
    /// The parent handle names an entry that is not a menu.
    InvalidParent,
}

/// What an entry holds: an ordered children list for a menu, or an
/// editable text value for an option.
pub enum EntryContents {
    Menu { children: Vec<Handle> },
    Text { value: Vec<char> },
}

/// One node of the menu tree.
pub struct Entry {
    pub name: Vec<char>,
    pub description: Vec<char>,
    pub filler: bool,
    pub contents: EntryContents,
}

/// One arena slot: the entry together with the slot's generation.
pub struct Slot {
    pub gen: usize,
    pub entry: Entry,
}

/// Mathematical image of `EntryContents`.
#[verifier::ext_equal]
pub enum ContentsV {
    Menu { children: Seq<Handle> },
    Text { value: Seq<char> },
}

/// Mathematical image of `Entry`.
#[verifier::ext_equal]
pub struct EntryV {
    pub name: Seq<char>,
    pub description: Seq<char>,
    pub filler: bool,
    pub contents: ContentsV,
}

/// Mathematical image of `Slot`.
#[verifier::ext_equal]
pub struct SlotV {
    pub gen: usize,
    pub entry: EntryV,
}

impl View for EntryContents {
    type V = ContentsV;

    open spec fn view(&self) -> ContentsV {
        match self {
            EntryContents::Menu { children } => ContentsV::Menu { children: children@ },
            EntryContents::Text { value } => ContentsV::Text { value: value@ },
        }
    }
}

impl View for Entry {
    type V = EntryV;

    open spec fn view(&self) -> EntryV {
        EntryV {
            name: self.name@,
            description: self.description@,
            filler: self.filler,
            contents: self.contents@,
        }
    }
}

impl View for Slot {
    type V = SlotV;

    open spec fn view(&self) -> SlotV {
        SlotV { gen: self.gen, entry: self.entry@ }
    }
}

/// The store a slot vector stands for.
pub open spec fn store_view(slots: Seq<Slot>) -> Seq<SlotV> {
    slots.map_values(|s: Slot| s@)
}

/// The handle resolves to a live slot of the store.
pub open spec fn valid_handle(store: Seq<SlotV>, h: Handle) -> bool {
    h.idx < store.len() && store[h.idx as int].gen == h.gen
}

/// A handle fit to stand in a children list: live, and never the root slot.
pub open spec fn child_ok(store: Seq<SlotV>, h: Handle) -> bool {
    1 <= h.idx && valid_handle(store, h)
}

/// The entry a handle resolves to.
pub open spec fn entry_of(store: Seq<SlotV>, h: Handle) -> EntryV {
    store[h.idx as int].entry
}

/// The handle resolves to a menu entry.
pub open spec fn is_menu(store: Seq<SlotV>, h: Handle) -> bool {
    entry_of(store, h).contents is Menu
}

/// The ordered children of a menu entry.
pub open spec fn children_of(store: Seq<SlotV>, h: Handle) -> Seq<Handle> {
    entry_of(store, h).contents->children
}

/// The menu's children with filler entries left out, in original order:
/// the navigation order.
pub open spec fn sel_children(store: Seq<SlotV>, h: Handle) -> Seq<Handle> {
    children_of(store, h).filter(|c: Handle| !entry_of(store, c).filler)
}

/// Well-formedness of one slot: a menu's children are live non-root
/// handles and are pairwise distinct, and every stored text fits the
/// machine.
pub open spec fn entry_wf_at(store: Seq<SlotV>, i: int) -> bool {
    match store[i].entry.contents {
        ContentsV::Menu { children } => {
            &&& children.len() <= usize::MAX
            &&& forall|j: int| 0 <= j < children.len() ==> child_ok(store, #[trigger] children[j])
            &&& forall|j1: int, j2: int|
                #![trigger children[j1], children[j2]]
                0 <= j1 < j2 < children.len() ==> children[j1] != children[j2]
        },
        ContentsV::Text { value } => value.len() <= usize::MAX,
    }
}

/// Well-formedness of the store: slot generations equal slot indices
/// (slots are never recycled, so each slot keeps the generation it was
/// created with), slot 0 holds the root menu, and every children list is
/// intact.
pub open spec fn store_wf(store: Seq<SlotV>) -> bool {
    &&& 1 <= store.len()
    &&& store[0].entry.contents is Menu
    &&& forall|i: int| 0 <= i < store.len() ==> (#[trigger] store[i].gen) == i
    &&& forall|i: int| 0 <= i < store.len() ==> #[trigger] entry_wf_at(store, i)
}

/// Filtering a sequence extended by one element keeps the old image and
/// appends the element exactly when it satisfies the predicate.
pub proof fn lemma_filter_push<A>(s: Seq<A>, pred: spec_fn(A) -> bool, x: A)
    ensures
        s.push(x).filter(pred) == if pred(x) {
            s.filter(pred).push(x)
        } else {
            s.filter(pred)
        },
{
    reveal(Seq::filter);
    assert(s.push(x).drop_last() =~= s);
    assert(s.push(x).last() == x);
}

/// Two predicates that agree on every element of a sequence filter it to
/// the same image.
pub proof fn lemma_filter_congruent<A>(s: Seq<A>, p1: spec_fn(A) -> bool, p2: spec_fn(A) -> bool)
    requires
        forall|i: int| 0 <= i < s.len() ==> p1(#[trigger] s[i]) == p2(s[i]),
    ensures
        s.filter(p1) == s.filter(p2),
    decreases s.len(),
{
    reveal(Seq::filter);
    if s.len() != 0 {
        assert(forall|i: int|
            0 <= i < s.drop_last().len() ==> p1(#[trigger] s.drop_last()[i]) == p2(
                s.drop_last()[i],
            )) by {
            assert(forall|i: int| 0 <= i < s.drop_last().len() ==> #[trigger] s.drop_last()[i]
                == s[i]);
        }
        lemma_filter_congruent(s.drop_last(), p1, p2);
        assert(p1(s.last()) == p2(s.last()));
    }
}

/// Every element of a filtered sequence occurs in the sequence itself.
pub proof fn lemma_filter_subset<A>(s: Seq<A>, pred: spec_fn(A) -> bool)
    ensures
        forall|i: int| 0 <= i < s.filter(pred).len() ==> s.contains(#[trigger] s.filter(pred)[i]),
    decreases s.len(),
{
    reveal(Seq::filter);
    if s.len() != 0 {
        lemma_filter_subset(s.drop_last(), pred);
        assert forall|i: int| 0 <= i < s.filter(pred).len() implies s.contains(
            #[trigger] s.filter(pred)[i],
        ) by {
            let f = s.filter(pred);
            let fd = s.drop_last().filter(pred);
            if i < fd.len() {
                assert(fd[i] == f[i]);
                let j = choose|j: int| 0 <= j < s.drop_last().len() && s.drop_last()[j] == fd[i];
                assert(s[j] == f[i]);
            } else {
                assert(f[i] == s.last());
                assert(s[s.len() - 1] == s.last());
            }
        }
    }
}

/// Filtering keeps a duplicate-free sequence duplicate-free.
pub proof fn lemma_filter_no_duplicates<A>(s: Seq<A>, pred: spec_fn(A) -> bool)
    requires
        s.no_duplicates(),
    ensures
        s.filter(pred).no_duplicates(),
    decreases s.len(),
{
    reveal(Seq::filter);
    if s.len() != 0 {
        let d = s.drop_last();
        assert(d.no_duplicates()) by {
            assert(forall|i: int| 0 <= i < d.len() ==> #[trigger] d[i] == s[i]);
        }
        lemma_filter_no_duplicates(d, pred);
        if pred(s.last()) {
            assert(!d.filter(pred).contains(s.last())) by {
                if d.filter(pred).contains(s.last()) {
                    lemma_filter_subset(d, pred);
                    let i = choose|i: int|
                        0 <= i < d.filter(pred).len() && d.filter(pred)[i] == s.last();
                    let j = choose|j: int| 0 <= j < d.len() && d[j] == s.last();
                    assert(s[j] == s[s.len() - 1]);
                }
            }
            assert(s.filter(pred) == d.filter(pred).push(s.last()));
            assert(s.filter(pred).no_duplicates()) by {
                let f = d.filter(pred);
                let g = f.push(s.last());
                assert forall|i: int, j: int| 0 <= i < g.len() && 0 <= j < g.len() && i != j
                    implies g[i] != g[j] by {
                    if i < f.len() && j < f.len() {
                    } else if i < f.len() {
                        assert(g[j] == s.last());
                        assert(f.contains(f[i])) by {
                            assert(f[i] == g[i]);
                        }
                    } else {
                        assert(g[i] == s.last());
                        assert(f.contains(f[j]));
                    }
                }
            }
        }
    }
}

} // verus!
