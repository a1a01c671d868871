//! Globally unique identifiers: reading the canonical text form, writing it
//! back, the mixed-endian in-memory form, and Rust source for GUID constants
//! fixed when a program is built.
pub mod codegen;
pub mod error;
pub mod guid;
pub mod hex;
pub mod layout;
pub mod text;

pub use codegen::{literal_accessor, literal_constant};
pub use error::{ParseGuidError, ParseGuidErrorKind};
pub use guid::Guid;
pub use layout::GuidLayout;
