//! A particle-effect engine on fixed-point numbers.
//!
//! An emitter spawns short-lived particles from a set of ranges, moves them
//! under constant, radial and tangential acceleration with damping and spin,
//! and interpolates their size and colour over their lifetime. Every number is
//! a signed fixed-point value with six decimal places, so that each result is
//! an exact function of its inputs and can be stated and proved.

pub mod fixed;
pub mod trig;
pub mod vector;
pub mod color;
pub mod curve;
pub mod random;
pub mod shape;
pub mod settings;
pub mod particle;
pub mod spawn;
pub mod system;

pub use crate::color::Color;
pub use crate::particle::DrawParam;
pub use crate::particle::Particle;
pub use crate::settings::EmitterLifetime;
pub use crate::settings::ParticleSystemSettings;
pub use crate::settings::SettingsError;
pub use crate::shape::EmitterShape;
pub use crate::system::ParticleSystem;
pub use crate::vector::Vector2;
