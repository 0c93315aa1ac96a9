//! The merge core of a falling-fruit puzzle: the tier catalog, the spawn
//! controller that owns the single steerable fruit, and the collision batch
//! processor that turns equal-tier contacts into promotions.

pub mod collision;
pub mod fruits;
pub mod intent;
pub mod lifecycle;
pub mod merge;
pub mod spawn;
