//! Which decoder reads a validated configuration file.

use vstd::prelude::*;

use crate::errors::DeserializeError;
use crate::paths::SupportedFileTypes;

verus! {

/// The document decoders that the embedding application has linked in.
#[derive(Clone, Copy, Debug)]
pub struct Codecs {
    pub json: bool,
    pub yaml: bool,
}

/// Hands a validated file on to its decoder, or fails with `FeatureNotEnabled` when the
/// decoder for its format is not available.
pub fn select_codec(file: SupportedFileTypes, codecs: Codecs) -> (r: Result<
    SupportedFileTypes,
    DeserializeError,
>)
    ensures
        match file {
            SupportedFileTypes::Json(_) => if codecs.json {
                r == Ok::<SupportedFileTypes, DeserializeError>(file)
            } else {
                r is Err && r->Err_0 is FeatureNotEnabled
            },
            SupportedFileTypes::Yaml(_) => if codecs.yaml {
                r == Ok::<SupportedFileTypes, DeserializeError>(file)
            } else {
                r is Err && r->Err_0 is FeatureNotEnabled
            },
        },
{
    match file {
        SupportedFileTypes::Json(path) => {
            if codecs.json {
                Ok(SupportedFileTypes::Json(path))
            } else {
                Err(DeserializeError::FeatureNotEnabled(String::from_str("no JSON decoder is available to load JSON files")))
            }
        },
        SupportedFileTypes::Yaml(path) => {
            if codecs.yaml {
                Ok(SupportedFileTypes::Yaml(path))
            } else {
                Err(DeserializeError::FeatureNotEnabled(String::from_str("no YAML decoder is available to load YAML files")))
            }
        },
    }
}

} // verus!
