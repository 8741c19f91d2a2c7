//! Verified interaction logic of the kagari widget set: keyboard navigation, selection, fuzzy command
//! ranking, list reordering with its drag preview, stable sorting, the tooltip hover timer, dock layout
//! paths and shape keys, and the control metric scale and paint roles.

pub mod button;
pub mod control;
pub mod dock;
pub mod dropdown;
pub mod field;
pub mod grid;
pub mod keys;
pub mod menu;
pub mod nav;
pub mod number;
pub mod paint;
pub mod palette;
pub mod panel;
pub mod reorder;
pub mod slider;
pub mod sort;
pub mod table;
pub mod text;
pub mod toggle;
pub mod tooltip;
