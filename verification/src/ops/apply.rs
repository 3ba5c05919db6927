//! Declarative configuration: the arrays that a file describes.

use vstd::prelude::*;
use crate::error::MdError;
use crate::text::cat;

verus! {

/// An array as a configuration file describes it.
#[derive(Debug, Clone)]
pub struct ArrayConfig {
    pub name: String,
    pub level: u8,
    pub metadata: Option<String>,
    pub devices: Vec<String>,
}

/// A configuration file: the arrays it describes.
#[derive(Debug, Clone)]
pub struct RmdadmConfig {
    pub arrays: Vec<ArrayConfig>,
}

/// The metadata version of an array of the configuration, `1.2` by default.
pub fn array_metadata(array: &ArrayConfig) -> (r: String)
    ensures
        r@ == match array.metadata {
            Some(m) => m@,
            None => "1.2"@,
        },
{
    match &array.metadata {
        Some(m) => String::from_str(m.as_str()),
        None => String::from_str("1.2"),
    }
}

/// The error of a configuration file that is not valid YAML of the expected form.
pub fn parse_failed(cause: &str) -> (e: MdError)
    ensures
        e matches MdError::InvalidMetadata(m) && m@ == "YAML parse error: "@ + cause@,
{
    MdError::InvalidMetadata(cat("YAML parse error: ", cause))
}

/// Whether an array of the configuration is to be created: only when assembling it failed.
pub fn needs_create(assembled: bool) -> (r: bool)
    ensures
        r == !assembled,
{
    !assembled
}

} // verus!
