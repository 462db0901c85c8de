//! A terminal greeting card: composes a pre-rendered image column with a
//! column of status lines (greeting, clock, current track or a quote, and
//! terminal/shell tags), joined row by row with symmetric vertical padding.
//!
//! This crate holds the composition engine: album-art path resolution,
//! info-line building with ANSI styling, and the two-column layout. The
//! process environment, the media-player bus and the external commands are
//! consulted by the binary around it, which hands their results in as plain
//! values.
pub mod art;
pub mod info;
pub mod layout;
pub mod style;
pub mod text;
pub mod track;
