//! Extracts magnet links and video downloads from release notification files.
pub mod command_laws;
pub mod commands;
pub mod config;
pub mod download_laws;
pub mod downloaders;
pub mod dry_run;
pub mod dry_run_laws;
pub mod duration;
pub mod email;
pub mod files;
pub mod filter;
pub mod filter_laws;
pub mod link_laws;
pub mod maintenance;
pub mod name_laws;
pub mod names;
pub mod page;
pub mod page_laws;
pub mod qbittorrent;
pub mod report;
pub mod report_laws;
pub mod run_laws;
pub mod text;
pub mod text_laws;
pub mod title_laws;
pub mod unicode;
pub mod url;
pub mod videos;
