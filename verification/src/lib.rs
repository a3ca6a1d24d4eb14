//! The G1 group of the BLS12-381 pairing-friendly curve: base-field
//! arithmetic, point addition and doubling, cofactor clearing, the
//! 11-isogeny used by hash-to-curve, and batch normalisation.
//!
//! Every function states what it computes over the integers modulo `p`, and
//! is proved to compute it. The multi-precision integer routines come from
//! `ark_ff`; they are called in `wide` and nowhere else.

pub mod batch;
pub mod curve;
pub mod decimal;
pub mod equality;
pub mod fq;
pub mod fr;
pub mod group_law;
pub mod isogeny;
pub mod params;
pub mod wide;
