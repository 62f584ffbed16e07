//! Secrets held in environment variables.

use vstd::prelude::*;
use vstd::utf8::encode_utf8;

use crate::error::{SourceError, SourceErrorView};

verus! {

/// A source that retrieves secrets from environment variables.
///
/// The secret `name` is used directly as the variable's name. Reading the
/// environment is the caller's part: [`EnvSource::lookup_result`] turns what
/// the environment holds under a name into the source's answer.
pub struct EnvSource;

impl EnvSource {
    /// The answer for `name` when the environment holds `value` under it
    /// (`None` when the variable is unset or not valid Unicode): the UTF-8
    /// bytes of the value, or `NotFound` naming `name`.
    pub fn lookup_result(&self, name: &str, value: Option<String>) -> (res: Result<Vec<u8>, SourceError>)
        ensures
            match value {
                Some(v) => res matches Ok(bytes) && bytes@ == encode_utf8(v@),
                None => res matches Err(e) && e@ == (SourceErrorView::NotFound { name: name@ }),
            },
    {
        match value {
            Some(v) => Ok(v.as_str().as_bytes_vec()),
            None => Err(SourceError::NotFound { name: name.to_owned() }),
        }
    }
}

} // verus!
