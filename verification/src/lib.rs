//! Verified core of a trace workbench.

pub mod app;
pub mod binary64;
pub mod components;
pub mod controllers;
pub mod design;
pub mod icons;
pub mod keyed;
pub mod offsets;
pub mod screens;
pub mod sorting;
pub mod text;
pub mod timestamps;

use vstd::prelude::*;

verus! {

/// Name shown in window titles.
pub const PRODUCT_NAME: &'static str = "Perseval";

/// Name of the user-interface toolkit.
pub const FRONTEND: &'static str = "GPUI-CE";

} // verus!
