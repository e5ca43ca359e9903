pub mod args;
pub mod output;
pub mod progress;
pub mod url_parser;

pub use crate::cli::args::{configure_analyzer_filters, Cli, OutputFormat};
pub use crate::cli::output::xml_escape;
pub use crate::cli::progress::{format_bytes, format_number};
pub use crate::cli::url_parser::expand_url;
