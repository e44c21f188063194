//! Shape-checked hot reloading of a live configuration.
//!
//! - `schema`: structural shapes and their order-insensitive comparison.
//! - `conf`: configuration value trees and the derivation of their shape.
//! - `model`: the model that commits a shape when a GUI is generated and
//!   from then on refuses any update whose refined shape differs from it.
//!
//! Hint resolution and GUI projection are done by the caller; the model is
//! handed the resolver's outcome and decides on it.
use vstd::prelude::*;

pub mod schema;
pub mod conf;
pub mod model;
