//! The fixed documents of the EPUB container.
//!
//! Two files of the archive never depend on the book at all: the OCF
//! container pointer and the iBooks display options. Their text stands here
//! as constants; everything book-dependent is assembled by the builder.

use vstd::prelude::*;

verus! {

/// `META-INF/container.xml`: points readers at the package document.
pub const CONTAINER: &'static str = "<?xml version=\"1.0\" encoding=\"UTF-8\"?>\n<container version=\"1.0\" xmlns=\"urn:oasis:names:tc:opendocument:xmlns:container\">\n  <rootfiles>\n    <rootfile full-path=\"OEBPS/content.opf\" media-type=\"application/oebps-package+xml\"/>\n  </rootfiles>\n</container>\n";

/// `META-INF/com.apple.ibooks.display-options.xml`: lets iBooks honour the
/// book's own fonts.
pub const IBOOKS: &'static str = "<?xml version=\"1.0\" encoding=\"UTF-8\"?>\n<display_options>\n  <platform name=\"*\">\n    <option name=\"specified-fonts\">true</option>\n  </platform>\n</display_options>\n";

} // verus!
