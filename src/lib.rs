//! A manifest-driven installer: release metadata, integrity checks, archive
//! path containment, and an all-or-nothing commit of a staged directory.
//!
//! The library decides; its caller performs the network and filesystem work
//! that each decision asks for and reports the outcome back.
mod archive;
mod commit;
mod digest;
mod error;
mod install;
mod manifest;
mod unpack;

pub use archive::{entry_destination, is_safe_entry_name, join};
pub use commit::{AtomicInstaller, CommitAction, CommitEvent, CommitState};
pub use digest::{compute_sha256, digests_match, verify_sha256};
pub use error::{CommitPhase, InstallError};
pub use install::{check_status, InstallMode, Installer, Run, RunAction, RunEvent, Stage};
pub use manifest::{Advisory, FileEntry, Manifest, Prerequisites, ValidationError, VcRedist};
pub use unpack::{plan_extraction, PlannedEntry};
