//! Per-tick combat simulation of a two-kingdom lane arena: unit behaviour
//! states, frontline tracking, ballistic aiming, melee and arrow resolution,
//! and the death sweep.
//!
//! Units of measure are integers throughout: lengths in millimetres, times in
//! milliseconds, speeds in millimetres per second and accelerations in
//! millimetres per second squared.

pub mod measure;
pub mod kingdom;
pub mod health;
pub mod timer;
pub mod ballistics;
pub mod unit;
pub mod frontline;
pub mod behavior;
pub mod content;
pub mod arena;
pub mod spawning;
pub mod shooting;
pub mod combat;
pub mod motion;
pub mod tick;
