//! Integer planning for spherical-harmonic special functions.
//!
//! The associated Legendre functions, their angular derivatives, the
//! normalisation constants of the spherical harmonics and the Wigner small-d
//! elements are all evaluated in floating point, but everything that decides
//! *what* is evaluated is integer work: which arguments are admissible, which
//! branch applies, which coefficients enter a recurrence, which terms a sum
//! runs over and with which sign. This crate computes those decisions as
//! plain integer plans and proves them against their mathematical
//! definitions. An evaluator only has to carry a plan out.

pub mod error;
pub mod parity;
pub mod products;
pub mod legendre;
pub mod derivative;
pub mod normalization;
pub mod wigner;
