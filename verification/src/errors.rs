//! The download engine's error taxonomy: every way a request terminates in a
//! failure, each with a human-readable message that names the failing step
//! and, where one is involved, the version.

use vstd::prelude::*;
use vstd::string::StringExecFns;
use crate::version::Version;
use crate::version::render_spec;

verus! {

/// A terminal failure of a download request.
#[derive(Debug, Clone, PartialEq, Eq)]
pub enum DownloadError {
    /// The metadata fetch failed at the transport level.
    MetadataFetchFailed { cause: String },
    /// The metadata endpoint answered with a non-success status.
    ReleaseNotFound { version: Version },
    /// The metadata body is not valid JSON.
    MetadataMalformed,
    /// The metadata lists no asset with the expected name.
    NoSuitableAsset { version: Version },
    /// The matching asset carries no download URL.
    BadAssetUrl { version: Version },
    /// The asset fetch failed at the transport level.
    AssetFetchFailed { cause: String },
    /// The asset endpoint answered with a non-success status.
    AssetStatusFailed { version: Version },
    /// Reading a chunk of a streaming body failed.
    StreamReadFailed { cause: String },
    /// Appending a chunk to the destination file failed.
    FileWriteFailed { cause: String },
    /// The dependency fetch failed at the transport level.
    DependencyFetchFailed { cause: String },
    /// The dependency endpoint answered with a non-success status.
    DependencyStatusFailed,
    /// No dependency build exists for the running architecture.
    DependencyUnsupported,
    /// The downloaded dependency archive could not be read back.
    ArchiveOpenFailed { cause: String },
    /// The archive holds no member under the required library name.
    ArchiveExtractionFailed,
    /// Writing the extracted library to its final path failed.
    DependencyWriteFailed { cause: String },
    /// Removing the temporary archive failed.
    CleanupFailed { cause: String },
    /// Marking the installed binary executable failed.
    PermissionsFailed { cause: String },
}

/// The message each error renders, naming the failing step, the underlying
/// cause where there is one, and the version where one is involved.
pub open spec fn message_spec(e: DownloadError) -> Seq<char> {
    match e {
        DownloadError::MetadataFetchFailed { cause } => "Failed to fetch release info: "@ + cause@,
        DownloadError::ReleaseNotFound { version } => "Release for version v"@ + render_spec(
            version,
        ) + " not found"@,
        DownloadError::MetadataMalformed => "Failed to parse release info"@,
        DownloadError::NoSuitableAsset { version } => "No suitable asset found for version v"@
            + render_spec(version),
        DownloadError::BadAssetUrl { version } => "Invalid asset download URL for version v"@
            + render_spec(version),
        DownloadError::AssetFetchFailed { cause } => "Failed to download asset: "@ + cause@,
        DownloadError::AssetStatusFailed { version } => "Failed to download asset for version v"@
            + render_spec(version),
        DownloadError::StreamReadFailed { cause } => "Download error: "@ + cause@,
        DownloadError::FileWriteFailed { cause } => "Write error: "@ + cause@,
        DownloadError::DependencyFetchFailed { cause } => "Failed to download SDL2.dll: "@
            + cause@,
        DownloadError::DependencyStatusFailed => "Failed to download SDL2.dll"@,
        DownloadError::DependencyUnsupported => "No SDL2 build is available for this architecture"@,
        DownloadError::ArchiveOpenFailed { cause } => "Failed to open SDL2.dll zip file: "@
            + cause@,
        DownloadError::ArchiveExtractionFailed => "Failed to find SDL2.dll in zip archive"@,
        DownloadError::DependencyWriteFailed { cause } => "Failed to write SDL2.dll file: "@
            + cause@,
        DownloadError::CleanupFailed { cause } => "Failed to remove temporary SDL2.dll zip file: "@
            + cause@,
        DownloadError::PermissionsFailed { cause } => "Failed to set permissions: "@ + cause@,
    }
}

impl DownloadError {
    /// The human-readable message, exactly [`message_spec`].
    pub fn message(&self) -> (r: String)
        ensures
            r@ == message_spec(*self),
    {
        match self {
            DownloadError::MetadataFetchFailed { cause } => {
                let mut s = String::from_str("Failed to fetch release info: ");
                s.append(cause.as_str());
                s
            },
            DownloadError::ReleaseNotFound { version } => {
                let mut s = String::from_str("Release for version v");
                let rendered = version.render();
                s.append(rendered.as_str());
                s.append(" not found");
                s
            },
            DownloadError::MetadataMalformed => String::from_str("Failed to parse release info"),
            DownloadError::NoSuitableAsset { version } => {
                let mut s = String::from_str("No suitable asset found for version v");
                let rendered = version.render();
                s.append(rendered.as_str());
                s
            },
            DownloadError::BadAssetUrl { version } => {
                let mut s = String::from_str("Invalid asset download URL for version v");
                let rendered = version.render();
                s.append(rendered.as_str());
                s
            },
            DownloadError::AssetFetchFailed { cause } => {
                let mut s = String::from_str("Failed to download asset: ");
                s.append(cause.as_str());
                s
            },
            DownloadError::AssetStatusFailed { version } => {
                let mut s = String::from_str("Failed to download asset for version v");
                let rendered = version.render();
                s.append(rendered.as_str());
                s
            },
            DownloadError::StreamReadFailed { cause } => {
                let mut s = String::from_str("Download error: ");
                s.append(cause.as_str());
                s
            },
            DownloadError::FileWriteFailed { cause } => {
                let mut s = String::from_str("Write error: ");
                s.append(cause.as_str());
                s
            },
            DownloadError::DependencyFetchFailed { cause } => {
                let mut s = String::from_str("Failed to download SDL2.dll: ");
                s.append(cause.as_str());
                s
            },
            DownloadError::DependencyStatusFailed => String::from_str(
                "Failed to download SDL2.dll",
            ),
            DownloadError::DependencyUnsupported => String::from_str(
                "No SDL2 build is available for this architecture",
            ),
            DownloadError::ArchiveOpenFailed { cause } => {
                let mut s = String::from_str("Failed to open SDL2.dll zip file: ");
                s.append(cause.as_str());
                s
            },
            DownloadError::ArchiveExtractionFailed => String::from_str(
                "Failed to find SDL2.dll in zip archive",
            ),
            DownloadError::DependencyWriteFailed { cause } => {
                let mut s = String::from_str("Failed to write SDL2.dll file: ");
                s.append(cause.as_str());
                s
            },
            DownloadError::CleanupFailed { cause } => {
                let mut s = String::from_str("Failed to remove temporary SDL2.dll zip file: ");
                s.append(cause.as_str());
                s
            },
            DownloadError::PermissionsFailed { cause } => {
                let mut s = String::from_str("Failed to set permissions: ");
                s.append(cause.as_str());
                s
            },
        }
    }

    /// An equal copy, for handing the error both to the caller and to the
    /// engine's terminal state.
    pub fn duplicate(&self) -> (r: Self)
        ensures
            r == *self,
    {
        match self {
            DownloadError::MetadataFetchFailed { cause } => DownloadError::MetadataFetchFailed {
                cause: cause.clone(),
            },
            DownloadError::ReleaseNotFound { version } => DownloadError::ReleaseNotFound {
                version: *version,
            },
            DownloadError::MetadataMalformed => DownloadError::MetadataMalformed,
            DownloadError::NoSuitableAsset { version } => DownloadError::NoSuitableAsset {
                version: *version,
            },
            DownloadError::BadAssetUrl { version } => DownloadError::BadAssetUrl {
                version: *version,
            },
            DownloadError::AssetFetchFailed { cause } => DownloadError::AssetFetchFailed {
                cause: cause.clone(),
            },
            DownloadError::AssetStatusFailed { version } => DownloadError::AssetStatusFailed {
                version: *version,
            },
            DownloadError::StreamReadFailed { cause } => DownloadError::StreamReadFailed {
                cause: cause.clone(),
            },
            DownloadError::FileWriteFailed { cause } => DownloadError::FileWriteFailed {
                cause: cause.clone(),
            },
            DownloadError::DependencyFetchFailed { cause } => DownloadError::DependencyFetchFailed {
                cause: cause.clone(),
            },
            DownloadError::DependencyStatusFailed => DownloadError::DependencyStatusFailed,
            DownloadError::DependencyUnsupported => DownloadError::DependencyUnsupported,
            DownloadError::ArchiveOpenFailed { cause } => DownloadError::ArchiveOpenFailed {
                cause: cause.clone(),
            },
            DownloadError::ArchiveExtractionFailed => DownloadError::ArchiveExtractionFailed,
            DownloadError::DependencyWriteFailed { cause } => DownloadError::DependencyWriteFailed {
                cause: cause.clone(),
            },
            DownloadError::CleanupFailed { cause } => DownloadError::CleanupFailed {
                cause: cause.clone(),
            },
            DownloadError::PermissionsFailed { cause } => DownloadError::PermissionsFailed {
                cause: cause.clone(),
            },
        }
    }
}

} // verus!
