use vstd::prelude::*;

verus! {

/// The rule by which a record's key is taken from its value: one field, or an ordered
/// list of fields for a compound key.
#[derive(Debug, PartialEq, Eq)]
pub enum KeyPath {
    /// A single field.
    Single(String),
    /// An ordered list of fields.
    Array(Vec<String>),
}

/// A key path as contracts see it.
pub enum KeyPathView {
    Single(Seq<char>),
    Array(Seq<Seq<char>>),
}

impl View for KeyPath {
    type V = KeyPathView;

    open spec fn view(&self) -> KeyPathView {
        match self {
            KeyPath::Single(field) => KeyPathView::Single(field@),
            KeyPath::Array(fields) => KeyPathView::Array(fields@.map_values(|f: String| f@)),
        }
    }
}

/// An owned copy of each of the strings, in order.
pub(crate) fn owned_strings(strings: &[&str]) -> (owned: Vec<String>)
    ensures
        owned@.map_values(|s: String| s@) == strings@.map_values(|s: &str| s@),
{
    let mut owned: Vec<String> = Vec::new();
    let mut i: usize = 0;
    while i < strings.len()
        invariant
            i <= strings.len(),
            owned.len() == i,
            forall|j: int| 0 <= j < i ==> owned[j]@ == strings[j]@,
        decreases strings.len() - i,
    {
        owned.push(strings[i].to_owned());
        i += 1;
    }
    assert(owned@.map_values(|s: String| s@) =~= strings@.map_values(|s: &str| s@));
    owned
}

/// A copy of each of the strings, in order.
pub(crate) fn cloned_strings(strings: &Vec<String>) -> (copy: Vec<String>)
    ensures
        copy@.map_values(|s: String| s@) == strings@.map_values(|s: String| s@),
{
    let mut copy: Vec<String> = Vec::new();
    let mut i: usize = 0;
    while i < strings.len()
        invariant
            i <= strings.len(),
            copy.len() == i,
            forall|j: int| 0 <= j < i ==> copy[j]@ == strings[j]@,
        decreases strings.len() - i,
    {
        copy.push(strings[i].clone());
        i += 1;
    }
    assert(copy@.map_values(|s: String| s@) =~= strings@.map_values(|s: String| s@));
    copy
}

impl KeyPath {
    /// A key path of a single field.
    pub fn new_str(key_path: &str) -> (path: KeyPath)
        ensures
            path@ == KeyPathView::Single(key_path@),
    {
        KeyPath::Single(key_path.to_owned())
    }

    /// A key path of several fields, for a compound key.
    pub fn new_array(key_path_array: &[&str]) -> (path: KeyPath)
        ensures
            path@ == KeyPathView::Array(key_path_array@.map_values(|s: &str| s@)),
    {
        KeyPath::Array(owned_strings(key_path_array))
    }
}

impl Clone for KeyPath {
    fn clone(&self) -> (copy: KeyPath)
        ensures
            copy@ == self@,
    {
        match self {
            KeyPath::Single(field) => KeyPath::Single(field.clone()),
            KeyPath::Array(fields) => KeyPath::Array(cloned_strings(fields)),
        }
    }
}

} // verus!
