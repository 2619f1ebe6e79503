//! A subvolume of the btrfs partition, known by its path.
use vstd::prelude::*;
use crate::paths::{path_eq, same_path};

verus! {

/// A subvolume, known by its path on the partition.
#[derive(Debug)]
pub struct Subvolume {
    path: String,
}

impl View for Subvolume {
    type V = Seq<char>;

    closed spec fn view(&self) -> Seq<char> {
        self.path@
    }
}

impl Subvolume {
    /// The subvolume at `path`.
    pub fn new(path: String) -> (r: Self)
        ensures
            r@ == path@,
    {
        Subvolume { path }
    }

    /// Path of the subvolume.
    pub fn get_path(&self) -> (r: &str)
        ensures
            r@ == self@,
    {
        self.path.as_str()
    }

    /// Whether the subvolume lives at `other`, comparing paths component by
    /// component.
    pub fn eq(&self, other: &str) -> (r: bool)
        ensures
            r == same_path(self@, other@),
    {
        path_eq(self.path.as_str(), other)
    }
}

} // verus!
