//! The icons that the user interface draws.
use vstd::prelude::*;

verus! {

/// An icon of the user interface.
#[derive(Copy, Clone, Debug, PartialEq, Eq, Structural)]
pub enum Icon {
    Folder,
    Search,
}

} // verus!
