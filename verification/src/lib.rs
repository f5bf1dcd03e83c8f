//! Codec and template layer around a Groth16 proving pipeline.
//!
//! The crate turns digests, curve points and verifying keys into the
//! fixed-width byte lists an external verifier reads, and fills those lists
//! into a text template. Every function carries a contract over plain
//! sequences and integers.
//!
//! - `bytes`, `bigint`: numbers as bytes and as decimal text.
//! - `digest`: 32-byte digests and their two 128-bit halves.
//! - `text`, `point`: searching in text and reading point coordinates.
//! - `encode`: the compressed wire form of curve points.
//! - `seal`, `claim`, `params`, `groth16`: what the proving library holds
//!   and decides.
//! - `input`, `image_id`, `result`: the values exchanged through files.
//! - `template`: placeholder substitution for the setup and proof files.

pub mod bigint;
pub mod bytes;
pub mod claim;
pub mod digest;
pub mod encode;
pub mod error;
pub mod groth16;
pub mod image_id;
pub mod input;
pub mod params;
pub mod point;
pub mod result;
pub mod seal;
pub mod template;
pub mod text;

