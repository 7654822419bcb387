//! The pause between two generations.
use std::time::Duration;
use vstd::prelude::*;

verus! {

/// Something that can let time pass.
pub trait Timer {
    /// Returns after `duration`.
    fn wait(&self, duration: Duration);
}

} // verus!
