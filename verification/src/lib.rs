//! A Keccak-style sponge that keeps a record of every call.
//!
//! [`LivingHash`] absorbs and squeezes bytes like an ordinary sponge, and after
//! each call appends a [`SpongeState`] to its trace: what went in or came out,
//! the 25 lanes afterwards, and how they differ from the lanes before.

pub mod config;
pub mod engine;
pub mod error;
pub mod lanes;
pub mod model;
pub mod padding;
pub mod permutation;
pub mod sponge;
pub mod trace;

pub use config::SpongeConfiguration;
pub use engine::LivingHash;
pub use error::SpongeError;
pub use trace::{SpongePhase, SpongeState};
