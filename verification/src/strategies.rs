//! Strategies that propose new candidates.

pub mod gepa;
