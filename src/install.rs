//! The kinds of installation.
use vstd::prelude::*;

verus! {

/// The kinds of installation that a frontend can choose, as the C interface tags them:
/// beside an existing system, over an erased disk, from a recovery partition, or as a
/// refresh of an existing installation.
#[allow(non_camel_case_types)]
#[derive(Debug, Clone, Copy, PartialEq, Eq, Structural, Hash)]
pub enum DISTINST_INSTALL_OPTION_VARIANT {
    ALONGSIDE,
    ERASE,
    RECOVERY,
    REFRESH,
}

} // verus!
