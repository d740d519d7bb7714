//! An interactive, keyboard-driven hierarchical settings menu core: a tree
//! of named menus and editable text options, navigated with abstract input
//! events, with in-place editing of option values.
//!
//! The crate holds only the state: the entry store, the navigation state,
//! the edit sub-state, and the controller that dispatches events over
//! them. Painting the screen and decoding raw key codes belong to the
//! embedding application.

pub mod ctrl;
pub mod invariants;
pub mod laws;
pub mod model;
pub mod store;
mod text;

pub use ctrl::{ctx, UpdateRet, EditMode};
pub use model::Event;
pub use store::Handle;
pub use store::MenuError;
pub use store::Entry;
pub use store::EntryContents;
