//! Plugin error type.

use vstd::prelude::*;

verus! {

/// `serde_json::Error`, carried by [`PluginError::SerdeJson`]. Nothing of
/// its contents is read by the library.
#[verifier::external_type_specification]
#[verifier::external_body]
pub struct ExSerdeJsonError(serde_json::Error);

/// Errors raised by the Gofile plugin.
#[derive(Debug)]
pub enum PluginError {
    /// A JSON document could not be decoded or encoded.
    SerdeJson(serde_json::Error),
    /// The Gofile HTTP call returned an unusable status.
    HttpStatus { status: u16, message: String },
    /// The host's answer to an HTTP request was malformed.
    HostResponse(String),
    /// The URL is not a recognised Gofile resource.
    UnsupportedUrl(String),
    /// The content is offline, removed or locked.
    Offline(String),
    /// The Gofile API rejected the request.
    ApiError(String),
    /// The folder has no file children.
    EmptyFolder,
    /// The file id is not in the folder.
    FileNotInFolder(String),
}

/// What an error says, with its messages as character sequences.
pub enum ErrorModel {
    SerdeJson,
    HttpStatus(u16, Seq<char>),
    HostResponse(Seq<char>),
    UnsupportedUrl(Seq<char>),
    Offline(Seq<char>),
    ApiError(Seq<char>),
    EmptyFolder,
    FileNotInFolder(Seq<char>),
}

impl View for PluginError {
    type V = ErrorModel;

    open spec fn view(&self) -> ErrorModel {
        match self {
            PluginError::SerdeJson(_) => ErrorModel::SerdeJson,
            PluginError::HttpStatus { status, message } => ErrorModel::HttpStatus(*status, message@),
            PluginError::HostResponse(m) => ErrorModel::HostResponse(m@),
            PluginError::UnsupportedUrl(m) => ErrorModel::UnsupportedUrl(m@),
            PluginError::Offline(m) => ErrorModel::Offline(m@),
            PluginError::ApiError(m) => ErrorModel::ApiError(m@),
            PluginError::EmptyFolder => ErrorModel::EmptyFolder,
            PluginError::FileNotInFolder(m) => ErrorModel::FileNotInFolder(m@),
        }
    }
}

/// A string-or-error result seen through the models.
pub open spec fn string_result(r: Result<String, PluginError>) -> Result<Seq<char>, ErrorModel> {
    match r {
        Ok(s) => Ok(s@),
        Err(e) => Err(e@),
    }
}

} // verus!
