//! A buffered table for long directory listings.
//!
//! Every entry of a listing becomes one row. A row holds one cell per column,
//! the entry's name, and its place in the tree. Column widths are a property of
//! all rows together, so nothing is rendered until every row has been added.
//!
//! - [`cell`] and [`style`]: styled text that knows its width on screen.
//! - [`column`], [`fields`] and [`colours`]: what a table shows of a file, and
//!   in which styles.
//! - [`render`]: one cell for each attribute of a file.
//! - [`table`]: the rows, the widths of the columns, and the finished lines.
//! - [`tree`]: the characters that draw the branches of the tree.
//! - [`details`] and [`order`]: laying out a batch of files, in order,
//!   directory below directory.
//! - [`identities`], [`numbers`], [`time`] and [`text`]: users and groups,
//!   numbers and dates as the reader sees them.

pub mod cell;
pub mod colours;
pub mod column;
pub mod details;
pub mod fields;
pub mod identities;
pub mod numbers;
pub mod order;
pub mod render;
pub mod style;
pub mod table;
pub mod text;
pub mod time;
pub mod tree;
