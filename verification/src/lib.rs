//! Layout and navigation core of a tabbed, tiling terminal multiplexer.
//!
//! The crate models one window's state as a set of tabs, each holding a
//! binary tree of terminal panes.  It owns the split/close/collapse
//! algorithms on that tree, directional focus navigation, the tab
//! lifecycle, exact modifier-aware key-chord matching, and the command
//! dispatcher that turns key events into layout mutations.  Terminal
//! emulation, file I/O and widget presentation are left to the hosting
//! shell, which drives this crate through plain values.

pub mod config;
pub mod dispatch;
pub mod keys;
pub mod tabs;
pub mod theme;
pub mod text;
pub mod tree;
