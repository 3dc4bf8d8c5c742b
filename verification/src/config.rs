//! What can be configured.
use vstd::prelude::*;

use crate::downloaders::Downloaders;
use crate::duration::Duration;
use crate::email::EmailConfiguration;
use crate::filter::Filter;
use crate::names::NameConfiguration;
use crate::page::LinkFilters;
use crate::qbittorrent::QbittorrentConfiguration;

verus! {

/// Where processed files go.
#[derive(Debug)]
pub struct ArchiveConfiguration {
    pub path: String,
    /// How long files are kept; for ever if not set.
    pub retention_period: Option<Duration>,
}

/// What is logged.
#[derive(Debug)]
pub struct LoggingConfiguration {
    pub level: Option<String>,
}

/// How videos are found, named and downloaded.
#[derive(Debug)]
pub struct VideoConfiguration {
    pub path: String,
    /// Filters on the file name to identify the files containing videos.
    pub files: Vec<Filter>,
    pub links: LinkFilters,
    /// Builds the file name of an entry from its title.
    pub names: NameConfiguration,
    pub downloaders: Downloaders,
}

/// The whole configuration.
pub struct Configuration {
    pub path: String,
    /// Waited between two runs.
    pub interval: Duration,
    pub archive: ArchiveConfiguration,
    pub qbittorrent: QbittorrentConfiguration,
    pub logging: Option<LoggingConfiguration>,
    pub filters: Vec<Filter>,
    pub videos: Option<VideoConfiguration>,
    pub email: Option<EmailConfiguration>,
}

} // verus!
