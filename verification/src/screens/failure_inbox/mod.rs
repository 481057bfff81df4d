//! The failure inbox: grouped findings, their evidence and their traces.

pub mod actions;
pub mod comparison;
pub mod components;
pub mod eval_batch_preview;
pub mod eval_generation;
pub mod evidence;
pub mod filter_menu;
pub mod full_trace_render;
pub mod full_trace_state;
pub mod full_trace_timeline;
pub mod full_trace_tree;
pub mod groups;
pub mod inspector;
pub mod investigation_state;
pub mod model;
pub mod navigation;
pub mod preferences;
pub mod render;
pub mod render_root;
pub mod selection;
pub mod state;
pub mod updates;
