//! Statistics of the source code in a remote repository: which languages it
//! is written in, and how many lines of code, of comments and of nothing
//! each of them has.

pub mod analysis;
pub mod classifier;
pub mod cli;
pub mod error;
pub mod filter;
pub mod net;
pub mod paths;
pub mod registry;
pub mod string_map;
pub mod text;
pub mod worker;

pub use crate::analysis::{
    AggregateMetrics, FileCategory, FileMetrics, LanguageAnalyses, LanguageAnalysis,
    LanguageStatistics, LanguageView, ProjectAnalysis, ProjectSummary, ProjectView, Ratio, Totals,
};
pub use crate::classifier::{
    analyze_file_content, count_lines, LineCounts, LineKind, Syntax, Tally,
};
pub use crate::error::{AnalysisError, Result};
pub use crate::filter::{FilterStats, IntelligentFilter};
pub use crate::net::RemoteAnalyzer;
pub use crate::registry::{
    LanguageDefinition, LanguageRegistry, LanguageType, LineCommentPosition,
};
pub use crate::string_map::StringMap;
