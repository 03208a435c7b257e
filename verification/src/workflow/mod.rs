//! What happens on a request, step by step.

use vstd::prelude::*;

pub mod builders;
pub mod building;
pub mod downloading;
pub mod from_device;
pub mod images;
pub mod outcomes;
pub mod presets;
pub mod searching;
pub mod startup;
pub mod versions;
pub mod window;
