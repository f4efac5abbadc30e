//! A tiling pane layout engine for a desktop file browser: a binary tree of
//! panes and splits, a clamped divider state machine for interactive
//! resizing, and the orchestrator that allocates identifiers, tracks the
//! active pane and applies the results of directory loads.

pub mod breadcrumb;
pub mod explorer;
pub mod geometry;
pub mod local_provider;
pub mod quick_access;
pub mod panel_tree;
pub mod resizable;
pub mod sorting;
pub mod storage;
pub mod types;
