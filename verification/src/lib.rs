//! Collects the files of a source directory tree into a single flat
//! destination directory.
//!
//! Files are discovered by a traversal that the caller drives, filtered by
//! ignored-directory names and extension allow/deny lists, deduplicated when
//! traversal roots overlap, and given a flat name: the path relative to the
//! source root with every separator replaced by an underscore.

pub mod artifact;
pub mod collect;
pub mod config;
pub mod config_file;
pub mod paths;
pub mod presets;
pub mod text;

pub use artifact::Artifact;
pub use artifact::ArtifactError;
pub use collect::Collector;
pub use config::Config;
pub use config_file::ConfigFile;
pub use presets::PresetConfig;
pub use text::join_with;
pub use text::split_at;
