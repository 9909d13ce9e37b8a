//! A one-nearest-neighbour classifier over labelled rows of a table.
//!
//! The library owns everything about the classifier that is decided on
//! shapes and on order: which tables are well formed, which call is refused
//! with which error, and which row wins a query. The cells of a table are of
//! any type `T`; the arithmetic on them is the caller's, who measures a query
//! against every row and hands the measurements over as unsigned keys.

pub mod error;
pub mod shape;
pub mod key;
pub mod nearest;
pub mod dataset;
