//! Release and activation records.
use vstd::prelude::*;

verus! {

/// One downloadable release asset, as shown to the operator.
pub struct FrpVersion {
    pub id: u64,
    pub name: String,
    /// Human-readable size, e.g. `8.61 MB`.
    pub size: String,
    pub version: String,
    /// The release date, `YYYY-MM-DD`.
    pub created_at: String,
    pub count: u64,
    pub url: String,
    /// The archive is present on disk.
    pub exist: bool,
    /// This is the activated version.
    pub active: bool,
}

/// The record of the currently activated version.
pub struct ActiveFrp {
    /// The asset file name.
    pub name: String,
    /// Absolute path of the downloaded archive.
    pub archive_path: String,
    /// Absolute path of the unpack directory.
    pub unpack_dir: String,
    /// Absolute path of the managed executable.
    pub exe_path: String,
    /// ISO-8601 timestamp of the activation.
    pub activated_at: String,
}

/// One download progress notification.
pub struct ProgressPayload {
    pub name: String,
    pub progress: u32,
}

} // verus!
