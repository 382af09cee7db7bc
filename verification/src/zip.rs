//! An abstraction over possible Zip implementations.
//!
//! The builder consumes the archive writer only through this capability
//! trait: it writes named files and, at the end, asks for the finished
//! archive's bytes. Implementations (an in-memory archive writer, an
//! external zip program) live outside the verified core and own their own
//! failures, so the methods carry no contracts beyond their signatures.

use vstd::prelude::*;

use crate::Error;

verus! {

/// An abstraction over possible Zip implementations.
pub trait Zip {
    /// Write the given content to a file at `path` inside the archive.
    fn write_file(&mut self, path: &str, content: &[u8]) -> Result<(), Error>;

    /// Generate the ZIP file and hand back its bytes.
    fn generate(self) -> Result<Vec<u8>, Error>;
}

} // verus!
