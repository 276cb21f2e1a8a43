//! A habit tracker's grid: named classes, each holding one byte per
//! timestamped row, with the operations that fill, reorder and display it.

pub mod clock;
pub mod command;
pub mod grid;
pub mod model;
pub mod order;
pub mod table;
pub mod text;
