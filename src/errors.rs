//! Errors of loading, parsing and registering a metrics configuration.

use vstd::prelude::*;

verus! {

/// Lets an I/O failure travel inside a `DeserializeError`.
#[verifier::external_type_specification]
#[verifier::external_body]
pub struct ExIoError(std::io::Error);

/// Lets a JSON decoding failure travel inside a `DeserializeError`.
#[verifier::external_type_specification]
#[verifier::external_body]
pub struct ExJsonError(serde_json::Error);

/// Lets a YAML decoding failure travel inside a `DeserializeError`.
#[verifier::external_type_specification]
#[verifier::external_body]
pub struct ExYamlError(serde_yaml::Error);

/// Errors that can occur while loading a configuration or building a registry from it.
#[derive(Debug)]
pub enum DeserializeError {
    /// Reading the configuration file failed.
    Io(std::io::Error),
    /// The document is not valid JSON for the configuration schema.
    Json(serde_json::Error),
    /// The document is not valid YAML for the configuration schema.
    Yaml(serde_yaml::Error),
    /// The metric backend refused a registration; holds its message.
    BackendError(String),
    /// The path does not exist or does not name a regular file.
    InvalidFilePath(String),
    /// The file extension is not one of `json`, `yaml`, `yml`.
    UnsupportedFileType(String),
    /// The path or one of its ancestors is a symbolic link.
    SymlinkNotAllowed(String),
    /// The canonical path lies under none of the allowed base directories.
    PathOutsideAllowedDirectory(String),
    /// The file's format has no decoder in this build.
    FeatureNotEnabled(String),
    /// Two definitions of the same metric type share a title.
    DuplicateMetricName(String),
}

} // verus!
