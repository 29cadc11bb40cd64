use vstd::prelude::*;

use crate::index::{cloned_indexes, index_views, Index, IndexView};
use crate::key_path::{KeyPath, KeyPathView};

verus! {

/// The declaration of an object store.
#[derive(Debug, PartialEq, Eq)]
pub struct ObjectStore {
    /// The name, unique within the database.
    pub name: String,
    /// Where a record's key is taken from; `None` for keys that are given with each record.
    pub key_path: Option<KeyPath>,
    /// Whether the store numbers its records itself.
    pub auto_increment: bool,
    /// The indexes of the store.
    pub indexes: Vec<Index>,
}

/// An object store declaration as contracts see it.
pub struct ObjectStoreView {
    pub name: Seq<char>,
    pub key_path: Option<KeyPathView>,
    pub auto_increment: bool,
    pub indexes: Seq<IndexView>,
}

/// A key path, if any, as contracts see it.
pub open spec fn key_path_view(key_path: Option<KeyPath>) -> Option<KeyPathView> {
    match key_path {
        Some(path) => Some(path@),
        None => None,
    }
}

impl View for ObjectStore {
    type V = ObjectStoreView;

    open spec fn view(&self) -> ObjectStoreView {
        ObjectStoreView {
            name: self.name@,
            key_path: key_path_view(self.key_path),
            auto_increment: self.auto_increment,
            indexes: index_views(self.indexes@),
        }
    }
}

/// The names of the stores, in order.
pub open spec fn store_names(stores: Seq<ObjectStoreView>) -> Seq<Seq<char>> {
    stores.map_values(|store: ObjectStoreView| store.name)
}

/// The stores as contracts see them, in order.
pub open spec fn store_views(stores: Seq<ObjectStore>) -> Seq<ObjectStoreView> {
    stores.map_values(|store: ObjectStore| store@)
}

/// A copy of the key path, if there is one.
pub(crate) fn cloned_key_path(key_path: &Option<KeyPath>) -> (copy: Option<KeyPath>)
    ensures
        key_path_view(copy) == key_path_view(*key_path),
{
    match key_path {
        Some(path) => Some(path.clone()),
        None => None,
    }
}

impl ObjectStore {
    /// Declares an object store without key path, auto-increment or indexes.
    pub fn new(name: &str) -> (store: ObjectStore)
        ensures
            store@ == (ObjectStoreView {
                name: name@,
                key_path: None,
                auto_increment: false,
                indexes: Seq::empty(),
            }),
    {
        let store = ObjectStore {
            name: name.to_owned(),
            key_path: None,
            auto_increment: false,
            indexes: Vec::new(),
        };
        assert(store@.indexes =~= Seq::empty());
        store
    }

    /// Takes the keys of the store from a single field.
    pub fn key_path(self, key_path: &str) -> (store: ObjectStore)
        ensures
            store@ == (ObjectStoreView {
                key_path: Some(KeyPathView::Single(key_path@)),
                ..self@
            }),
    {
        let mut store = self;
        store.key_path = Some(KeyPath::new_str(key_path));
        store
    }

    /// Takes the keys of the store from several fields.
    pub fn key_path_array(self, key_path_array: &[&str]) -> (store: ObjectStore)
        ensures
            store@ == (ObjectStoreView {
                key_path: Some(KeyPathView::Array(key_path_array@.map_values(|s: &str| s@))),
                ..self@
            }),
    {
        let mut store = self;
        store.key_path = Some(KeyPath::new_array(key_path_array));
        store
    }

    /// Says whether the store numbers its records itself.
    pub fn auto_increment(self, auto_increment: bool) -> (store: ObjectStore)
        ensures
            store@ == (ObjectStoreView { auto_increment, ..self@ }),
    {
        let mut store = self;
        store.auto_increment = auto_increment;
        store
    }

    /// Adds an index to the declaration, after those that it has.
    pub fn add_index(self, index: Index) -> (store: ObjectStore)
        ensures
            store@ == (ObjectStoreView { indexes: self@.indexes.push(index@), ..self@ }),
    {
        let mut store = self;
        store.indexes.push(index);
        assert(store@.indexes =~= self@.indexes.push(index@));
        store
    }
}

impl Clone for ObjectStore {
    fn clone(&self) -> (copy: ObjectStore)
        ensures
            copy@ == self@,
    {
        ObjectStore {
            name: self.name.clone(),
            key_path: cloned_key_path(&self.key_path),
            auto_increment: self.auto_increment,
            indexes: cloned_indexes(&self.indexes),
        }
    }
}

/// A copy of each of the stores, in order.
pub(crate) fn cloned_stores(stores: &Vec<ObjectStore>) -> (copy: Vec<ObjectStore>)
    ensures
        store_views(copy@) == store_views(stores@),
{
    let mut copy: Vec<ObjectStore> = Vec::new();
    let mut i: usize = 0;
    while i < stores.len()
        invariant
            i <= stores.len(),
            copy.len() == i,
            forall|j: int| 0 <= j < i ==> copy[j]@ == stores[j]@,
        decreases stores.len() - i,
    {
        copy.push(stores[i].clone());
        i += 1;
    }
    assert(store_views(copy@) =~= store_views(stores@));
    copy
}

} // verus!
