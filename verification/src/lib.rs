//! Viewport layout, hit testing and selection geometry for a monospace
//! code-editor view.
//!
//! Given a document that has already been wrapped into visual rows, this
//! crate decides which rows are visible for a scroll offset, walks those
//! rows producing glyph-run draw commands on the pixel grid of a monospace
//! cell size, translates pointer coordinates into logical positions with
//! before/after affinity, and merges sorted, non-overlapping selections
//! into per-row rectangles with neighbour hints for corner smoothing.
//!
//! All geometry is carried in integer pixels and integer row units, so
//! every coordinate computation is exact.

pub mod geom;
pub mod text;
pub mod doc;
pub mod sel;
pub mod glyph;
pub mod hit;
pub mod merge;
pub mod frame;
pub mod dispatch;
pub mod tooling;
