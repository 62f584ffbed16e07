//! Safe retrieval of secrets named by `urn:secrets-rs:<source_id>:<name>` URNs.

pub mod bindable;
pub mod error;
pub mod secret;
pub mod source;
pub mod sources;
pub mod text;
pub mod urn;

pub use bindable::{bind_all, collect_errors, Bindable};
pub use error::{BindError, SourceError, SourceRegisterError, UnboundError, UrnParseError};
pub use secret::{Secret, SecretValue};
pub use source::{CustomSource, RegisteredSource, Source, SourceRegistry};
pub use sources::env::EnvSource;
pub use sources::file::{FileSource, ReadError};
pub use urn::Urn;
