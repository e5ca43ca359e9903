pub mod archive;
pub mod azure_devops;
pub mod bitbucket;
pub mod codeberg;
pub mod gitea;
pub mod github;
pub mod gitlab;
pub mod sourceforge;

pub use crate::net::providers::archive::ArchiveProvider;
pub use crate::net::providers::azure_devops::AzureDevOpsProvider;
pub use crate::net::providers::bitbucket::BitbucketProvider;
pub use crate::net::providers::codeberg::CodebergProvider;
pub use crate::net::providers::gitea::GiteaProvider;
pub use crate::net::providers::github::GitHubProvider;
pub use crate::net::providers::gitlab::GitLabProvider;
pub use crate::net::providers::sourceforge::SourceForgeProvider;
