//! What the pages show and how they react: the state behind each form, the requests it
//! makes and the texts it displays.

pub mod filters;
pub mod guided;
pub mod editor;
pub mod cards;
pub mod labels;
pub mod panel;
pub mod chart;
