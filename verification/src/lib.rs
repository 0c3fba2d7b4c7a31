//! A two-player board-game engine with a self-play training pipeline.

use vstd::prelude::*;

pub mod games;
pub mod models;
pub mod text;

verus! {

/// A short, stable name by which a game or a model is selected and by which
/// its stored parameters are found again.
pub trait Named {
    /// The name under which this definition is known.
    const NAME: &'static str;
}

} // verus!
