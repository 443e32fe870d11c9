//! A terminal text editor's core: grapheme-indexed rows, a document of rows,
//! and the cursor / viewport controller.
pub mod document;
pub mod editor;
pub mod row;

pub use document::Document;
pub use editor::Editor;
pub use editor::Position;
pub use row::Row;
