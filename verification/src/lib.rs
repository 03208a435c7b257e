//! Domain rules of a desktop front end for OpenWrt image builders.

use vstd::prelude::*;

pub mod text;
pub mod domain;
pub mod paths;
pub mod search;
pub mod data;
pub mod profiles;
pub mod requests;
pub mod builder;
pub mod containers;
pub mod config;
pub mod cache;
pub mod client;
pub mod ssh;
pub mod device;
pub mod progress;
pub mod state;
pub mod session;
pub mod workflow;
