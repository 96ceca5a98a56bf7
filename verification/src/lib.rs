//! The logic of an interactive parallel-coordinates plot: its coordinate
//! systems, axes, labels, selections, state transactions, pointer
//! interactions, events and color strings.
pub mod coordinates;
pub mod event;
pub mod colors;
pub mod wgsl;
pub mod lerp;
pub mod axis;
pub mod color_bar;
pub mod selection;
pub mod spline;
pub mod wasm_bridge;
pub mod action;
pub mod label_colors;
pub mod transaction;
pub mod labels;
pub mod builder;
