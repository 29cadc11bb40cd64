use vstd::prelude::*;

use crate::key_path::{KeyPath, KeyPathView};

verus! {

/// The declaration of an index of an object store.
#[derive(Debug, PartialEq, Eq)]
pub struct Index {
    /// The name, unique within the store.
    pub name: String,
    /// Where the indexed key is taken from.
    pub key_path: KeyPath,
    /// Whether two records may share an indexed key.
    pub unique: bool,
    /// Whether the indexed field holds a container whose elements are indexed one by one.
    pub multi_entry: bool,
}

/// An index declaration as contracts see it.
pub struct IndexView {
    pub name: Seq<char>,
    pub key_path: KeyPathView,
    pub unique: bool,
    pub multi_entry: bool,
}

impl View for Index {
    type V = IndexView;

    open spec fn view(&self) -> IndexView {
        IndexView {
            name: self.name@,
            key_path: self.key_path@,
            unique: self.unique,
            multi_entry: self.multi_entry,
        }
    }
}

/// The names of the indexes, in order.
pub open spec fn index_names(indexes: Seq<IndexView>) -> Seq<Seq<char>> {
    indexes.map_values(|index: IndexView| index.name)
}

/// The indexes as contracts see them, in order.
pub open spec fn index_views(indexes: Seq<Index>) -> Seq<IndexView> {
    indexes.map_values(|index: Index| index@)
}

impl Index {
    /// Declares an index on a single field. It is neither unique nor multi-entry
    /// until said otherwise.
    pub fn new(name: &str, key_path: &str) -> (index: Index)
        ensures
            index@ == (IndexView {
                name: name@,
                key_path: KeyPathView::Single(key_path@),
                unique: false,
                multi_entry: false,
            }),
    {
        Index {
            name: name.to_owned(),
            key_path: KeyPath::new_str(key_path),
            unique: false,
            multi_entry: false,
        }
    }

    /// Declares an index on several fields. It is neither unique nor multi-entry
    /// until said otherwise.
    pub fn new_array(name: &str, key_path_array: &[&str]) -> (index: Index)
        ensures
            index@ == (IndexView {
                name: name@,
                key_path: KeyPathView::Array(key_path_array@.map_values(|s: &str| s@)),
                unique: false,
                multi_entry: false,
            }),
    {
        Index {
            name: name.to_owned(),
            key_path: KeyPath::new_array(key_path_array),
            unique: false,
            multi_entry: false,
        }
    }

    /// Says whether the index is unique.
    pub fn unique(self, unique: bool) -> (index: Index)
        ensures
            index@ == (IndexView { unique, ..self@ }),
    {
        let mut index = self;
        index.unique = unique;
        index
    }

    /// Says whether the index is multi-entry.
    pub fn multi_entry(self, multi_entry: bool) -> (index: Index)
        ensures
            index@ == (IndexView { multi_entry, ..self@ }),
    {
        let mut index = self;
        index.multi_entry = multi_entry;
        index
    }
}

impl Clone for Index {
    fn clone(&self) -> (copy: Index)
        ensures
            copy@ == self@,
    {
        Index {
            name: self.name.clone(),
            key_path: self.key_path.clone(),
            unique: self.unique,
            multi_entry: self.multi_entry,
        }
    }
}

/// A copy of each of the indexes, in order.
pub(crate) fn cloned_indexes(indexes: &Vec<Index>) -> (copy: Vec<Index>)
    ensures
        index_views(copy@) == index_views(indexes@),
{
    let mut copy: Vec<Index> = Vec::new();
    let mut i: usize = 0;
    while i < indexes.len()
        invariant
            i <= indexes.len(),
            copy.len() == i,
            forall|j: int| 0 <= j < i ==> copy[j]@ == indexes[j]@,
        decreases indexes.len() - i,
    {
        copy.push(indexes[i].clone());
        i += 1;
    }
    assert(index_views(copy@) =~= index_views(indexes@));
    copy
}

} // verus!
