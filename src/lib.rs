//! An executable-document engine.
//!
//! Documents are trees of typed nodes ([`value`]). Edits to them are
//! patches: ordered lists of operations at addresses ([`address`],
//! [`operation`]), applied atomically ([`patchable`]) and computed by a
//! differ ([`differ`]). Executable nodes are compiled incrementally: a
//! content digest ([`digest`]) decides which nodes must be recompiled, the
//! compile walk plans the work that kernels do, and results are written
//! back through patches ([`execute`], [`kernel`]). Editors are told about
//! the outcome through diagnostics and status notifications
//! ([`diagnostics`], [`status`]).

pub mod node_property;
pub mod node_type;
pub mod value;
pub mod address;
pub mod operation;
pub mod patchable;
pub mod differ;
pub mod digest;
pub mod text;
pub mod kernel;
pub mod execute;
pub mod diagnostics;
pub mod status;
pub mod schema;
pub mod codec;
pub mod config;
pub mod uuids;
