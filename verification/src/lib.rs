//! A blue-noise texture synthesis engine.
//!
//! The library owns a square RGB pixel grid ([`texture::NoiseTexture`],
//! shared for concurrent access as [`shared::SharedTexture`]) and the
//! decision core of a simulated-annealing refinement over it
//! ([`engine`]): the cooling schedule, the temperature-scaled candidate
//! windows, the cancellation contract, and the integer inputs of the
//! pair-energy model ([`metric`]). The caller evaluates the real-valued
//! energies, draws the acceptance lot, and commits accepted swaps back
//! through the texture's swap primitive.

pub mod color;
pub mod engine;
pub mod metric;
pub mod rng;
pub mod shared;
pub mod texture;
