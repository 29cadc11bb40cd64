//! Verified core of a futures-based IndexedDB client.
//!
//! The host database is reached only through callbacks and awaits, so the
//! library is written as a set of state machines and planners over plain
//! values: the caller performs each host operation and hands back what the
//! host delivered.
pub mod cursor;
pub mod direction;
pub mod error;
pub mod index;
pub mod key;
pub mod key_path;
pub mod key_range;
pub mod object_store;
pub mod request;
pub mod rexie;
pub mod rexie_builder;
pub mod schema;
pub mod schema_effects;
pub mod schema_laws;
pub mod transaction;

pub use crate::cursor::{Cursor, CursorAction, CursorCommand, CursorState};
pub use crate::direction::Direction;
pub use crate::error::{Error, HostError};
pub use crate::index::{Index, IndexView};
pub use crate::key::{Key, KeyOrder, KeyView};
pub use crate::key_path::{KeyPath, KeyPathView};
pub use crate::key_range::{KeyRange, KeyRangeView};
pub use crate::object_store::{ObjectStore, ObjectStoreView};
pub use crate::request::{settle, BridgeState, Failure, RequestFuture};
pub use crate::rexie::{Rexie, RexieView};
pub use crate::rexie_builder::{RexieBuilder, RexieBuilderView};
pub use crate::schema::{Catalog, SchemaChange, SchemaChangeView};
pub use crate::transaction::{
    Store, StoreIndex, Transaction, TransactionMode, TransactionResult, TransactionState,
    TransactionView,
};
