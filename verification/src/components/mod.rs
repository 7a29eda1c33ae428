//! The component registry: one entry per analyzable domain area, each with
//! its source roots, its validated trackable-method table and its exclusion
//! policy.

pub mod blocks;
pub mod entities;
pub mod items;
