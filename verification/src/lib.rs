use vstd::prelude::*;

pub mod text;
pub mod paths;
pub mod journal;
pub mod error;
pub mod registry;
pub mod resolver;
pub mod manifest;
pub mod install;
pub mod ui;
pub mod bundle;
pub mod ui_bundle;
pub mod session;
pub mod cmdline;
pub mod cli;
pub mod wide;
pub mod uninstall;
pub mod restart_manager;
pub mod elevation;

verus! {
}
