//! Fetching named skill bundles from a hosting service, tracking them in a
//! manifest and keeping local copies in step with their upstream reference.
//!
//! Everything here is computation on plain values; reading the disk and
//! talking to the network is left to the caller, which hands in what it
//! observed and carries out what these functions decide.

pub mod text;
pub mod error;
pub mod url;
pub mod remote;
pub mod resolve;
pub mod checksum;
pub mod topology;
pub mod manifest;
pub mod orchestrate;
pub mod batch;
pub mod single;
pub mod sync;
pub mod archive;
pub mod prompt;
pub mod transport;

pub use checksum::{calculate_checksum, FileContent};
pub use error::SkillsError;
pub use manifest::{SkillEntry, SkillsConfig};
pub use prompt::{confirm_action, confirm_action_or_yes};
pub use topology::{ensure_skill_manifest, ContentItem, EntryKind, SkillDetectionResult};
pub use url::{GitHubUrl, GitHubUrlSpec};
