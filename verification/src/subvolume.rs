//! A subvolume as the partition lists it.
use vstd::prelude::*;

verus! {

/// A subvolume of the partition, known by its path.
#[derive(Debug)]
pub struct Subvolume {
    path: String,
}

impl View for Subvolume {
    type V = Seq<char>;

    closed spec fn view(&self) -> Seq<char> {
        self.path@
    }
}

impl Subvolume {
    /// The subvolume at `path`.
    pub fn new(path: String) -> (r: Self)
        ensures
            r@ == path@,
    {
        Subvolume { path }
    }
}

} // verus!
