//! Locates a compiled function inside a 64-bit PE image by a wildcard byte
//! signature, recovers its boundaries, finds the calls that target it and
//! recovers the constant arguments passed at each call site.

use vstd::prelude::*;

pub mod call;
pub mod decode;
pub mod function;
pub mod header;
pub mod path;
pub mod pointer;
pub mod scan;
pub mod section;
pub mod signature;

pub use call::Call;
pub use function::Function;
pub use header::{ExeHeader, ExeReader, ScanError, SectionHeader};
pub use path::GameDirectory;
pub use pointer::Pointer;
pub use scan::{scan_image, ExeScanner, ScanReport};
pub use section::SectionScanner;

