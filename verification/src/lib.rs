//! GLV (Gallant–Lambert–Vanstone) scalar decomposition and
//! endomorphism-accelerated scalar multiplication for short-Weierstrass
//! curves with an efficiently computable endomorphism of the
//! "multiply the x-coordinate by a cube root of unity" form.
//!
//! The arithmetic core — exact arbitrary-precision rounding, the scalar
//! decomposition with its congruence and shortness bounds, the endomorphism
//! map, and the combined double-and-add pass — is verified; the underlying
//! big-integer and curve-group operations are supplied by outside crates
//! behind trusted, exactly specified wrappers.

pub mod big;
pub mod rounding;
pub mod decompose;
pub mod modular;
pub mod point;
pub mod curve;
pub mod mul;
pub mod registry;
pub mod field;
