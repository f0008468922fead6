//! One child of a directory, as a listing reports it.
use vstd::prelude::*;

verus! {

/// A directory entry: the last component of its path, and whether it is a
/// directory.
pub struct Entry {
    pub name: String,
    pub is_dir: bool,
}

/// What an entry is: its name and whether it is a directory.
pub type EntryView = (Seq<char>, bool);

impl View for Entry {
    type V = EntryView;

    open spec fn view(&self) -> EntryView {
        (self.name@, self.is_dir)
    }
}

impl Entry {
    pub fn new(name: String, is_dir: bool) -> (r: Entry)
        ensures
            r@ == (name@, is_dir),
    {
        Entry { name, is_dir }
    }

    /// A second entry equal to this one.
    pub fn duplicate(&self) -> (r: Entry)
        ensures
            r@ == self@,
    {
        Entry { name: self.name.clone(), is_dir: self.is_dir }
    }
}

/// The views of a sequence of entries.
pub open spec fn entries_view(v: Seq<Entry>) -> Seq<EntryView> {
    v.map_values(|e: Entry| e@)
}

/// The views of a sequence of path components.
pub open spec fn names_view(v: Seq<String>) -> Seq<Seq<char>> {
    v.map_values(|s: String| s@)
}

} // verus!
