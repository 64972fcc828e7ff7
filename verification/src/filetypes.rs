//! `--type` selection.

use vstd::prelude::*;

verus! {

/// Which entry kinds `--type` asks for.
#[derive(Debug, Default, Clone, Copy, PartialEq, Eq, Structural)]
pub struct FileTypes {
    pub files: bool,
    pub directories: bool,
    pub symlinks: bool,
    pub block_devices: bool,
    pub char_devices: bool,
    pub sockets: bool,
    pub pipes: bool,
    pub executables_only: bool,
    pub empty_only: bool,
}

} // verus!
