//! A verified library for assembling EPUB e-book archives.
//!
//! The core of the library is the table-of-contents tree: a flat, ordered
//! sequence of titled entries, each carrying a nesting level, is rebuilt into
//! a hierarchy and rendered both as a nested HTML list and as the EPUB
//! navigation-point XML with sequential play-order numbering. Those
//! algorithms, together with the escaping and indentation rules their output
//! depends on, carry full functional contracts.
//!
//! Around that core stand the builder types that collect metadata, content
//! files and resources, and a small capability trait for the archive writer.

use vstd::prelude::*;

pub mod common;
pub mod epub;
pub mod epub_content;
pub mod escape;
pub mod templates;
pub mod toc;
pub mod zip;

pub use common::indent;
pub use epub::EpubBuilder;
pub use epub::EpubVersion;
pub use epub::MetadataOpf;
pub use epub::PageDirection;
pub use epub_content::EpubContent;
pub use epub_content::ReferenceType;
pub use escape::encode_html;
pub use toc::Toc;
pub use toc::TocElement;
pub use zip::Zip;

verus! {

/// Error type of this crate. Each variant represents a kind of event that
/// may happen during this crate's operations. Causes coming from outside
/// collaborators (the archive writer, the file system) are carried as plain
/// text.
#[derive(Debug)]
pub enum Error {
    /// An error caused while processing a template or its rendering.
    TemplateError {
        /// A message explaining what was happening when the error came.
        msg: String,
        /// The root cause of the error.
        cause: String,
    },
    /// An error returned when encountering an unknown page direction.
    PageDirectionError(String),
    /// An error returned when an unknown metadata key has been encountered.
    InvalidMetadataError(String),
    /// An error returned when attempting to access the filesystem.
    IoError {
        /// A message explaining what was happening when the error came.
        msg: String,
        /// The root cause of the error.
        cause: String,
    },
    /// An error returned when something happened while invoking a zip
    /// program.
    ZipCommandError(String),
    /// An error returned when the zip library itself returned an error.
    ZipError(String),
    /// An error returned when the zip library itself returned an error, but
    /// with an additional message.
    ZipErrorWithMessage {
        /// A message explaining what was happening when the error came.
        msg: String,
        /// The root cause of the error.
        cause: String,
    },
    /// An error returned when an invalid path has been encountered during
    /// epub processing.
    InvalidPath(String),
}

} // verus!
