//! A verified core for a terminal tool that keeps named groups of LaTeX
//! files ("pins") together with the arguments they are compiled with.
pub mod ui;
pub mod checkbox;
pub mod text_input;
pub mod style;
pub mod pin;
pub mod logger;
