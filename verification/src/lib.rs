//! Escape-time renderer for a quadratic Julia map.
//!
//! The complex plane is modelled in fixed-point arithmetic (Q32.32 signed
//! components), so every stage of the pipeline — viewport scaling, the
//! escape-time iteration, colour mapping, the per-frame parameter schedule
//! and the textual image serialisation — is exact integer arithmetic with a
//! verified contract.

pub mod fixed;
pub mod complex;
pub mod escape;
pub mod viewport;
pub mod color;
pub mod schedule;
pub mod render;
pub mod ppm;
