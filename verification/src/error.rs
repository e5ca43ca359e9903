//! The error type shared by every part of the library.

use vstd::prelude::*;
use vstd::string::*;

verus! {

/// `std::io::Error`, carried as it is.
#[verifier::external_type_specification]
#[verifier::external_body]
pub struct ExIoError(std::io::Error);

/// `serde_json::Error`, carried as it is.
#[verifier::external_type_specification]
#[verifier::external_body]
pub struct ExJsonError(serde_json::Error);

/// Everything that can go wrong while a repository is resolved, fetched,
/// unpacked and counted.
#[derive(Debug)]
#[allow(inconsistent_fields)]
pub enum AnalysisError {
    FileReadError { path: String, source: std::io::Error },
    UnsupportedExtension { extension: String },
    LanguageNotFound { language: String },
    InvalidStatistics { reason: String },
    DirectoryTraversalError { path: String, source: std::io::Error },
    LanguageDetectionError { file_path: String },
    ConfigurationError { message: String },
    JsonSerializationError { source: serde_json::Error },
    XmlSerializationError { message: String },
    AggregationError { operation: String },
    NetworkError { message: String },
    ArchiveError { message: String },
    UrlParsingError { url: String },
}

pub type Result<T> = std::result::Result<T, AnalysisError>;

impl AnalysisError {
    /// The text that describes this error: a fixed label for its variant,
    /// followed by the variant's detail where it carries one.
    pub open spec fn description(&self) -> Seq<char> {
        match self {
            AnalysisError::FileReadError { path, .. } => "Failed to read file: "@ + path@,
            AnalysisError::UnsupportedExtension { extension } => "Unsupported file extension: "@
                + extension@,
            AnalysisError::LanguageNotFound { language } => "Language not found: "@ + language@,
            AnalysisError::InvalidStatistics { reason } => "Invalid file statistics: "@ + reason@,
            AnalysisError::DirectoryTraversalError { path, .. } => "Directory traversal failed: "@
                + path@,
            AnalysisError::LanguageDetectionError { file_path } =>
                "Language detection failed for file: "@ + file_path@,
            AnalysisError::ConfigurationError { message } => "Configuration error: "@ + message@,
            AnalysisError::JsonSerializationError { .. } => "JSON serialization error"@,
            AnalysisError::XmlSerializationError { message } => "XML serialization error: "@
                + message@,
            AnalysisError::AggregationError { operation } => "Aggregation error: "@ + operation@,
            AnalysisError::NetworkError { message } => "Network error: "@ + message@,
            AnalysisError::ArchiveError { message } => "Archive processing error: "@ + message@,
            AnalysisError::UrlParsingError { url } => "URL parsing error: "@ + url@,
        }
    }

    /// The failure to read the file at `path`.
    pub fn file_read(path: &str, source: std::io::Error) -> (error: Self)
        ensures
            error matches AnalysisError::FileReadError { path: p, source: s } && p@ == path@ && s
                == source,
    {
        AnalysisError::FileReadError { path: path.to_string(), source }
    }

    /// The failure to place a file with this extension.
    pub fn unsupported_extension(extension: &str) -> (error: Self)
        ensures
            error matches AnalysisError::UnsupportedExtension { extension: e } && e@ == extension@,
    {
        AnalysisError::UnsupportedExtension { extension: extension.to_string() }
    }

    /// The failure to find this language.
    pub fn language_not_found(language: &str) -> (error: Self)
        ensures
            error matches AnalysisError::LanguageNotFound { language: l } && l@ == language@,
    {
        AnalysisError::LanguageNotFound { language: language.to_string() }
    }

    /// The refusal of statistics, for the reason given.
    pub fn invalid_statistics(reason: &str) -> (error: Self)
        ensures
            error matches AnalysisError::InvalidStatistics { reason: r } && r@ == reason@,
    {
        AnalysisError::InvalidStatistics { reason: reason.to_string() }
    }

    /// The failure to walk the directory at `path`.
    pub fn directory_traversal(path: &str, source: std::io::Error) -> (error: Self)
        ensures
            error matches AnalysisError::DirectoryTraversalError { path: p, source: s } && p@
                == path@ && s == source,
    {
        AnalysisError::DirectoryTraversalError { path: path.to_string(), source }
    }

    /// The failure to tell the language of the file at `file_path`.
    pub fn language_detection(file_path: &str) -> (error: Self)
        ensures
            error matches AnalysisError::LanguageDetectionError { file_path: p } && p@
                == file_path@,
    {
        AnalysisError::LanguageDetectionError { file_path: file_path.to_string() }
    }

    /// The refusal of settings.
    pub fn configuration(message: &str) -> (error: Self)
        ensures
            error matches AnalysisError::ConfigurationError { message: m } && m@ == message@,
    {
        AnalysisError::ConfigurationError { message: message.to_string() }
    }

    /// The failure of the named operation on statistics.
    pub fn aggregation(operation: &str) -> (error: Self)
        ensures
            error matches AnalysisError::AggregationError { operation: o } && o@ == operation@,
    {
        AnalysisError::AggregationError { operation: operation.to_string() }
    }

    /// The failure of a request.
    pub fn network(message: &str) -> (error: Self)
        ensures
            error matches AnalysisError::NetworkError { message: m } && m@ == message@,
    {
        AnalysisError::NetworkError { message: message.to_string() }
    }

    /// The failure to read an archive.
    pub fn archive(message: &str) -> (error: Self)
        ensures
            error matches AnalysisError::ArchiveError { message: m } && m@ == message@,
    {
        AnalysisError::ArchiveError { message: message.to_string() }
    }

    /// The failure to read a URL.
    pub fn url_parsing(url: &str) -> (error: Self)
        ensures
            error matches AnalysisError::UrlParsingError { url: u } && u@ == url@,
    {
        AnalysisError::UrlParsingError { url: url.to_string() }
    }

    /// The failure to write XML.
    pub fn xml_serialization(message: &str) -> (error: Self)
        ensures
            error matches AnalysisError::XmlSerializationError { message: m } && m@ == message@,
    {
        AnalysisError::XmlSerializationError { message: message.to_string() }
    }

    /// The description of this error, as a string.
    pub fn message(&self) -> (text: String)
        ensures
            text@ == self.description(),
    {
        match self {
            AnalysisError::FileReadError { path, .. } => labelled("Failed to read file: ", path),
            AnalysisError::UnsupportedExtension { extension } => labelled(
                "Unsupported file extension: ",
                extension,
            ),
            AnalysisError::LanguageNotFound { language } => labelled(
                "Language not found: ",
                language,
            ),
            AnalysisError::InvalidStatistics { reason } => labelled(
                "Invalid file statistics: ",
                reason,
            ),
            AnalysisError::DirectoryTraversalError { path, .. } => labelled(
                "Directory traversal failed: ",
                path,
            ),
            AnalysisError::LanguageDetectionError { file_path } => labelled(
                "Language detection failed for file: ",
                file_path,
            ),
            AnalysisError::ConfigurationError { message } => labelled(
                "Configuration error: ",
                message,
            ),
            AnalysisError::JsonSerializationError { .. } => "JSON serialization error".to_string(),
            AnalysisError::XmlSerializationError { message } => labelled(
                "XML serialization error: ",
                message,
            ),
            AnalysisError::AggregationError { operation } => labelled(
                "Aggregation error: ",
                operation,
            ),
            AnalysisError::NetworkError { message } => labelled("Network error: ", message),
            AnalysisError::ArchiveError { message } => labelled(
                "Archive processing error: ",
                message,
            ),
            AnalysisError::UrlParsingError { url } => labelled("URL parsing error: ", url),
        }
    }
}

fn labelled(label: &str, detail: &String) -> (text: String)
    ensures
        text@ == label@ + detail@,
{
    let mut text = label.to_string();
    text.append(detail.as_str());
    text
}

impl From<serde_json::Error> for AnalysisError {
    fn from(source: serde_json::Error) -> (error: Self) {
        AnalysisError::JsonSerializationError { source }
    }
}

impl vstd::std_specs::convert::FromSpecImpl<serde_json::Error> for AnalysisError {
    open spec fn obeys_from_spec() -> bool {
        true
    }

    open spec fn from_spec(source: serde_json::Error) -> Self {
        AnalysisError::JsonSerializationError { source }
    }
}

} // verus!
