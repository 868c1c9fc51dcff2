//! The operating systems the imager knows how to drive.
use vstd::prelude::*;

verus! {

/// The operating system the imager runs on; each one has its own tools for
/// listing disks, unmounting them and gaining administrator rights.
#[derive(PartialEq, Eq, Structural, Clone, Copy, Debug)]
pub enum Platform {
    Linux,
    MacOs,
    Windows,
    Other,
}

} // verus!
