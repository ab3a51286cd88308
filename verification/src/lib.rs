//! Mondrian-style rectilinear art.
//!
//! A rectangular canvas is cut recursively into cells that tile it exactly,
//! and every cell that is not cut further is given a fill colour: either the
//! canvas colour or one entry of a palette, chosen by a percentage draw.

pub mod cell;
pub mod color;
pub mod config;
pub mod number;
pub mod partition;
pub mod plan;
pub mod random;
pub mod studio;
