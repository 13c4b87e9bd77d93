//! A streaming decoder for the self-describing binary serialization format
//! produced by Go's `encoding/gob` package.
//!
//! The decoder reads a byte stream that intermixes *type definition* messages
//! and *value* messages, maintains a per-stream type dictionary, and returns
//! each decoded value as a [`Value`] tree.  The binding of decoded values to
//! user data structures is left to the caller.

pub mod errors;
pub mod format;
pub mod types;
pub mod value;
pub mod grammar;
pub mod de;
pub mod schema;

pub use crate::errors::Error;
pub use crate::de::Deserializer;
pub use crate::value::Value;
