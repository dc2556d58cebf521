//! Commit metadata trailers: locating the trailer paragraph of a commit
//! message, decoding it into a typed record and rendering a record back
//! into trailer text.

pub mod decode;
pub mod encode;
pub mod error;
pub mod kind;
pub mod link;
pub mod metadata;
pub mod text;
pub mod yaml;

pub use error::{Cause, Error, Fault};
pub use kind::Kind;
pub use link::Url;
pub use metadata::Metadata;
pub use yaml::Yaml;
