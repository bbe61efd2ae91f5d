//! Importer for 3D-asset interchange documents: a scene-description JSON
//! document plus the binary buffers and images it references, fetched
//! through a pluggable [`import::Source`] and turned into a validated,
//! fully resolved in-memory value.
//!
//! The pipeline proceeds in stages: format dispatch on the leading bytes,
//! JSON parsing (performed by the caller, since the schema is an external
//! collaborator), configurable validation, deduplicated resolution of
//! external buffer and image references, and image decoding. Every stage's
//! behaviour is stated in its contract and checked by Verus.

pub mod config;
pub mod decode;
pub mod dispatch;
pub mod document;
pub mod error;
pub mod glb;
pub mod import;
pub mod validation;

pub use config::Config;
pub use config::ValidationStrategy;
pub use decode::DecodedImage;
pub use dispatch::DocumentKind;
pub use document::Document;
pub use error::Error;
pub use error::JsonError;
pub use import::ImportOutput;
pub use import::RawDocument;
pub use import::Source;
pub use import::import;
