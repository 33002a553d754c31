//! Runtime configuration: the naming of dataspaces.

pub mod names;

use vstd::prelude::*;

verus! {

/// Runtime configuration for monowiki: dataspaces are named by `names`.
#[derive(Debug, Clone, Copy, PartialEq, Eq, Structural)]
pub struct MonowikiConfig;

impl Default for MonowikiConfig {
    fn default() -> (r: Self) {
        MonowikiConfig
    }
}

} // verus!
