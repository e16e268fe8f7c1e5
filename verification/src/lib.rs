//! A Monte Carlo simulator for a dice-matching combat rule: two pools of
//! colored dice are compared round after round, matched dice are counted as
//! lost health, and the distribution of outcomes is bucketed for display.

pub mod color;
pub mod experiment;
pub mod histogram;
pub mod pool;
pub mod randomness;
