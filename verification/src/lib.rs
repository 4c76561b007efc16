//! Robots on a bounded rectangular grid.
//!
//! A scenario names the grid's far corner and a list of robots, each with a
//! start pose and a string of commands.  Robots run one after another.  A
//! robot that steps off the grid is lost and leaves a scent on the square
//! beyond the edge; a later robot about to step onto a scented square ignores
//! that command instead.
//!
//! [`parser`] reads a scenario from text, [`world`] holds the grid and the
//! rule of movement, and [`simulation`] sets a scenario up, runs it and
//! writes the report.  [`laws`] states what holds of every run.  The text
//! is handled by [`text`] (lines and words) and [`decimal`] (integers).

pub mod command;
pub mod decimal;
pub mod error;
pub mod laws;
pub mod orientation;
pub mod parser;
pub mod search;
pub mod simulation;
pub mod text;
pub mod world;
