//! Installs and launches a Java game client: platform rules, version metadata,
//! download planning, native-archive extraction, argument templating and the
//! launch command, all as verified logic. Network, disk and process work is
//! left to the caller, which carries out the plans this crate computes.

pub mod archive;
pub mod arguments;
pub mod config;
pub mod error;
pub mod install;
pub mod java;
pub mod launch;
pub mod library;
pub mod manifest;
pub mod pipeline;
pub mod platform;
pub mod profile;
pub mod rule;
pub mod schedule;
pub mod template;
pub mod text;

pub use archive::{extract, is_excluded, plan_extraction, ArchiveEntry, ExtractedEntry};
pub use arguments::{list_into_raw, ArgValue, Argument, Arguments};
pub use config::Config;
pub use error::{exit_outcome, CoreError, DownloadError, ExecutionError, InstallationError};
pub use install::{
    asset_index_job, asset_object_job, asset_object_jobs, client_jar_job, library_job,
    library_jobs, missing_jobs, source_of, FetchJob, LibraryJob, Source,
};
pub use java::{JavaInstallation, JavaManager};
pub use launch::{launch_command, LaunchCommand};
pub use library::{
    Client, Download, Downloads, Extract, Index, JavaVersion, Library, LibraryDownload, Object,
};
pub use manifest::{Latest, Manifest, Version, VersionKind, VersionManifest};
pub use pipeline::{Action, Event, Stage};
pub use platform::{Arch, Os, OsName, Platform};
pub use profile::{Profile, ProfileMetadata, Profiles};
pub use rule::{rules_allowed, Rule, RuleAction};
pub use schedule::{BoundedBatch, Step};
pub use template::{resolve, substitute, substitute_all, Placeholders};
pub use text::{join_path, join_strings, split_char};
