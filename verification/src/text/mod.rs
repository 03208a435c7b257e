//! Text handling over character sequences.
//!
//! A string is modelled by its view, the sequence of its characters. Every
//! function here states its result over that view.

use vstd::prelude::*;

pub mod scan;
pub mod split;
pub mod number;
pub mod order;
pub mod sort;
pub mod case;
pub mod prefix;
