mod chord;
mod kill;
mod reload;

pub use chord::Chord;
pub use kill::Kill;
pub use reload::Reload;

use crate::worker::Worker;
use vstd::prelude::*;

verus! {

/// What can look at itself and act on the worker.
pub trait Context {
    fn evaluate(&self, worker: &mut Worker);
}

} // verus!
