//! Verified core logic of the Panopticon window dashboard: caches, settings
//! parsing, shortcut handling, native message routing and window reconciliation.
use vstd::prelude::*;

pub mod animation;
pub mod app_rules;
pub mod cache;
pub mod cli;
pub mod color;
pub mod distribution;
pub mod dwm;
pub mod format;
pub mod hotkey;
pub mod icon;
pub mod layout;
pub mod managed;
pub mod menu;
pub mod native_events;
pub mod palette;
pub mod perf;
pub mod placement;
pub mod presentation;
pub mod reconcile;
pub mod settings_model;
pub mod shortcuts;
pub mod startup;
pub mod tags;
pub mod text;
pub mod tray;
pub mod tick;
pub mod wide;
pub mod workspace;

verus! {

} // verus!
