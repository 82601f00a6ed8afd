//! The rules and bookkeeping of an endless-runner arcade game drawn over a
//! WebGPU grid: the discrete game state and its controls, the object pools
//! that recycle track objects, the generator that places them, and the text
//! of the heads-up display.

pub mod game;
pub mod pool;
pub mod rng;
pub mod text;
