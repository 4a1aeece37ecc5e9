//! Vertical sparkline columns for the terminal.
//!
//! A [`Graph`] keeps one column per named line of data. Every row it draws
//! shows one glyph per column, coloured from blue (low) to red (high) by the
//! line's latest value relative to the other lines.
//!
//! The graph is specified by the state machine in [`model`]; [`laws`] holds
//! what is proved of it.
//!
//! ```
//! use rain::Graph;
//!
//! let mut graph = Graph::new();
//! graph.add("Line 1", 0).unwrap();
//! graph.add("Line 2", 5).unwrap();
//!
//! // one row for a terminal of 80 columns, as text
//! let mut out = String::new();
//! graph.print(Some(80), &mut out).unwrap();
//!
//! // the line leaves with the next row
//! graph.remove("Line 1").unwrap();
//! let row = graph.render(80);
//! assert_eq!(row.prefix, "  Line 1 ← ");
//! ```
pub mod ansi;
pub mod error;
pub mod gradient;
pub mod graph;
pub mod label;
pub mod laws;
pub mod model;
pub mod row;
pub mod value;

pub use graph::Graph;
