//! Reading and writing the Summary Information property set of Windows
//! Installer packages.
//!
//! A property set is a small binary container: a fixed header, a directory
//! of property ids with offsets, and a blob of typed values.  [`PropertySet`]
//! holds one such set in memory, parses it from bytes and serialises it
//! back; [`SummaryInfo`] is the typed view of the set that carries the
//! summary fields of an installer package (title, author, template, ...).
//!
//! The crate is verified with Verus.  Each function states what it returns
//! in terms of the mathematical models defined next to it: [`format`] says
//! what the bytes of a set are, [`model`] what its properties are as a map.
//! What relates several functions, for instance that parsing undoes
//! serialising, is proved in [`laws`] and beside the functions concerned.
//!
//! Five functions are believed, not proved, because they call code that
//! Verus does not see: two of the standard library (`String::push`,
//! `String::from_utf8_lossy`), two of the `uuid` crate (the text form of an
//! identifier and its parser), and one of the `time` crate (the reading of the clock).
//! Each is a function private to the crate and marked `external_body`, with
//! a comment that says what is assumed of it.
//!
//! Nothing here touches a file or a stream: `read` takes bytes and `write`
//! appends bytes to a vector.

pub mod codepage;
pub mod error;
pub mod format;
pub mod guid;
pub mod language;
pub mod laws;
pub mod model;
pub mod propset;
pub mod summary;
pub mod template;
pub mod text;
pub mod timestamp;
pub mod value;
pub mod wire;
pub mod wordcount;

pub use codepage::CodePage;
pub use error::Error;
pub use format::OperatingSystem;
pub use guid::Guid;
pub use language::Language;
pub use propset::PropertySet;
pub use summary::{SummaryInfo, SummaryInfoField, WindowsInstallerVersion, FMTID};
pub use template::{Architecture, Template};
pub use timestamp::Timestamp;
pub use value::PropertyValue;
pub use wordcount::{
    ElevatedPrivileges, FilenameLength, SourceCompression, SourceMedia, WordCount,
};
