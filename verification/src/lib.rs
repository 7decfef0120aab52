//! A library for inspecting and editing decoded `.sol` object trees:
//! a tagged value model, path addressing with a commit protocol that
//! rebuilds a document around one replaced node, and a session holding
//! several open documents with a single live selection.

pub mod model;
pub mod session;
pub mod widget;
pub mod zipper;
