//! Gravedigger checks the health of dependencies across the AUR, Cargo, npm,
//! PyPI and Go.
//!
//! This crate is what the program decides and computes; asking the network,
//! reading files and printing are left to the program around it. Functions
//! take what was fetched or read as plain values, and give back what is to be
//! sent, kept or shown. A function that goes by the current date stands beside
//! one that takes the date as an argument.
//!
//! Text is modelled as a sequence of characters (`text::Text`), and the types
//! of the crate by what they hold, through `DeepView`.

pub mod api;
pub mod attestation;
pub mod aur;
pub mod cache;
pub mod cargo;
pub mod clock;
pub mod command;
pub mod diff;
pub mod display;
pub mod downstream;
pub mod golang;
pub mod health;
pub mod laws;
pub mod npm;
pub mod osv;
pub mod plan;
pub mod pypi;
pub mod render;
pub mod report;
pub mod sbom;
pub mod sbom_diff;
pub mod scan;
pub mod table;
pub mod text;
pub mod types;
