//! Easy Fortran 77: the verified core.
//!
//! The one invariant that outranks everything else here: the user's source
//! files are only ever read.
use vstd::prelude::*;

pub mod build;
pub mod cli;
pub mod config;
pub mod error;
pub mod fetch;
pub mod fonts;
pub mod fs_guard;
pub mod glob;
pub mod help;
pub mod hygiene;
pub mod i18n;
pub mod icons;
pub mod keycheck;
pub mod launcher;
pub mod markdown;
pub mod package;
pub mod pathops;
pub mod paths;
pub mod project;
pub mod text;
pub mod textops;
pub mod theme;
pub mod toolchain;
pub mod update;

verus! {

} // verus!
