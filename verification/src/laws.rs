//! What holds of the library as a whole, stated over what goes into its
//! functions and what comes out of them.

pub mod aur;
pub mod bills;
pub mod changes;
pub mod lockfiles;
pub mod packages;
pub mod program;
pub mod records;
pub mod registries;
pub mod replies;
pub mod reports;
pub mod scoring;
pub mod texts;
pub mod vulnerabilities;
