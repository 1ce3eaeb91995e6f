//! Verified core of a small desktop utility that toggles two Windows
//! performance settings: the active power scheme (Balanced vs. High
//! Performance, managed through the `powercfg` command-line tool) and a
//! visual-effects registry value.
//!
//! All decision logic lives here: parsing `powercfg` output, planning which
//! schemes to delete, resolving registry paths, and choosing which commands
//! to issue for a UI toggle. The unverified shell around this crate performs
//! the actual process spawning and registry access, feeding the raw results
//! back in as plain values.

pub mod app_state;
pub mod console;
pub mod power;
pub mod registry;
pub mod text;
pub mod utils;


