//! The streaming download engine: a state machine that resolves a version to
//! a release asset, streams it to disk, retrofits the platform's runtime
//! dependency, and finalizes permissions — reporting progress through the
//! bounded channel.
//!
//! The engine decides; the surrounding shell performs. Each call of
//! [`DownloadEngine::step`] consumes one outside event (a response, a chunk
//! written, a stream end, a permission result) and returns the one action the
//! shell must perform next. All file and network work therefore stays
//! outside; every decision in here is verified. Paths in actions are
//! filenames under the shell's `versions` directory.
//!
//! A download queues exactly one terminal [`ProgressEvent::Finished`], when
//! the game binary's stream ends; the dependency sub-download reports
//! progress samples only ([`lemma_single_finished`]).

use vstd::prelude::*;
use vstd::string::StringExecFns;
use crate::channel::CHANNEL_CAPACITY;
use crate::channel::ProgressChannel;
use crate::errors::DownloadError;
use crate::progress::ProgressEvent;
use crate::progress::ProgressTracker;
use crate::progress::tracker_step;
use crate::resolver::Arch;
use crate::resolver::Asset;
use crate::resolver::AssetModel;
use crate::resolver::MetadataFault;
use crate::resolver::Platform;
use crate::resolver::asset_filename;
use crate::resolver::asset_name_spec;
use crate::resolver::assets_view;
use crate::resolver::install_filename;
use crate::resolver::install_name_spec;
use crate::resolver::metadata_assets;
use crate::resolver::metadata_url;
use crate::resolver::metadata_url_spec;
use crate::resolver::parse_release_assets;
use crate::resolver::resolve_asset;
use crate::version::Version;

verus! {

/// Whether an HTTP status code reports success.
pub open spec fn http_success(status: u16) -> bool {
    200 <= status < 300
}

/// Executable test for [`http_success`].
pub fn is_http_success(status: u16) -> (r: bool)
    ensures
        r == http_success(status),
{
    200 <= status && status < 300
}

/// The fixed vendor URL of the dependency archive for an architecture. The
/// aarch64 build is community-maintained; no URL exists for an unknown
/// architecture.
pub open spec fn dependency_archive_url_spec(a: Arch) -> Seq<char> {
    match a {
        Arch::X86_64 => "https://www.libsdl.org/release/SDL2-2.32.10-win32-x64.zip"@,
        Arch::Aarch64 => "https://www.github.com/mmozeiko/build-sdl2/releases/download/2025-12-28/SDL2-arm64-2025-12-28.zip"@,
        Arch::Unknown => ""@,
    }
}

/// The vendor URL as a string slice, for the known architectures.
fn dependency_archive_url(a: Arch) -> (r: &'static str)
    ensures
        r@ == dependency_archive_url_spec(a),
{
    match a {
        Arch::X86_64 => "https://www.libsdl.org/release/SDL2-2.32.10-win32-x64.zip",
        Arch::Aarch64 => "https://www.github.com/mmozeiko/build-sdl2/releases/download/2025-12-28/SDL2-arm64-2025-12-28.zip",
        Arch::Unknown => "",
    }
}

/// The bytes of the named member of a zip archive, decompressed, or nothing
/// when the archive cannot be opened or has no such member: a function of the
/// archive bytes and the name alone, left unstated here; `extract_zip_member`
/// computes it.
pub uninterp spec fn zip_member(archive: Seq<u8>, member: Seq<char>) -> Option<Seq<u8>>;

/// Relies on `zip::ZipArchive` over an in-memory cursor (`new`, `by_name`)
/// and `std::io::Read::read_to_end`: the decompressed bytes of the named
/// archive member, named [`zip_member`].
#[verifier::external_body]
pub fn extract_zip_member(archive: &Vec<u8>, member: &str) -> (r: Option<Vec<u8>>)
    ensures
        match r {
            Some(b) => zip_member(archive@, member@) == Some(b@),
            None => zip_member(archive@, member@) is None,
        },
{
    let cursor = std::io::Cursor::new(archive.as_slice());
    let mut opened = zip::ZipArchive::new(cursor).ok()?;
    let mut entry = opened.by_name(member).ok()?;
    let mut out = Vec::new();
    std::io::Read::read_to_end(&mut entry, &mut out).ok()?;
    Some(out)
}

/// Index of the first asset whose name matches, if any.
pub open spec fn first_match(assets: Seq<AssetModel>, name: Seq<char>) -> Option<int>
    decreases assets.len(),
{
    if assets.len() == 0 {
        None
    } else if assets[0].name == name {
        Some(0)
    } else {
        match first_match(assets.drop_first(), name) {
            None => None,
            Some(i) => Some(i + 1),
        }
    }
}

/// The first matching index determines `first_match`.
pub proof fn lemma_first_match_at(assets: Seq<AssetModel>, name: Seq<char>, i: int)
    requires
        0 <= i < assets.len(),
        assets[i].name == name,
        forall|k: int| 0 <= k < i ==> assets[k].name != name,
    ensures
        first_match(assets, name) == Some(i),
    decreases assets.len(),
{
    if i > 0 {
        lemma_first_match_at(assets.drop_first(), name, i - 1);
    }
}

/// With no matching name, `first_match` finds nothing.
pub proof fn lemma_first_match_none(assets: Seq<AssetModel>, name: Seq<char>)
    requires
        forall|k: int| 0 <= k < assets.len() ==> assets[k].name != name,
    ensures
        first_match(assets, name) is None,
    decreases assets.len(),
{
    if assets.len() > 0 {
        lemma_first_match_none(assets.drop_first(), name);
    }
}

/// Where a download request stands.
pub enum EnginePhase {
    /// No request has been started.
    Idle,
    /// The metadata GET is in flight.
    FetchingMetadata,
    /// The asset GET is in flight; its status is awaited.
    FetchingAsset,
    /// Asset chunks are being streamed to the destination file.
    Streaming { tracker: ProgressTracker },
    /// The shell is checking whether the shared library is already on disk.
    CheckingDependency,
    /// The dependency-archive GET is in flight.
    FetchingDependency,
    /// Archive chunks are being streamed to the temporary file.
    StreamingDependency { tracker: ProgressTracker },
    /// The streamed archive is being read back for extraction.
    ExtractingDependency,
    /// The extracted library is being written to its final path.
    WritingDependency,
    /// The temporary archive is being removed.
    CleaningUp,
    /// Permission bits are being set on the installed binary.
    SettingPermissions,
    /// The request ended with the version installed.
    Succeeded,
    /// The request ended in a terminal failure.
    Failed { error: DownloadError },
}

/// An outside happening the engine reacts to. Timestamps are the shell's
/// wall clock in milliseconds; chunk events arrive after the chunk's bytes
/// were appended to the destination file.
pub enum EngineEvent {
    MetadataResponse { status: u16, body: String },
    MetadataUnreachable { cause: String },
    AssetResponse { status: u16, total_len: Option<u64>, now_millis: u64 },
    AssetUnreachable { cause: String },
    ChunkWritten { len: u64, now_millis: u64 },
    ChunkFailed { cause: String },
    WriteFailed { cause: String },
    StreamEnded,
    DependencyChecked { present: bool },
    DependencyResponse { status: u16, total_len: Option<u64>, now_millis: u64 },
    DependencyUnreachable { cause: String },
    ArchiveRead { bytes: Vec<u8> },
    ArchiveReadFailed { cause: String },
    DependencyWritten { ok: bool, cause: String },
    CleanupDone { ok: bool, cause: String },
    PermissionsSet { ok: bool, cause: String },
}

/// The one thing the shell must do next. File names are relative to the
/// `versions` directory.
pub enum EngineAction {
    /// Nothing to perform; keep feeding events.
    Continue,
    /// GET the release metadata with the product's client header.
    FetchMetadata { url: String },
    /// GET the asset and stream its body, appending each chunk to `dest`.
    FetchAsset { url: String, dest: String },
    /// Report whether the named library file exists.
    CheckDependency { filename: String },
    /// GET the dependency archive and stream it to `dest`.
    FetchDependency { url: String, dest: String },
    /// Read the streamed archive back as bytes.
    ReadArchive { path: String },
    /// Write the extracted library bytes to the named file.
    WriteDependency { filename: String, bytes: Vec<u8> },
    /// Remove the temporary archive.
    RemoveArchive { path: String },
    /// Mark the installed binary executable.
    SetExecutable { path: String },
    /// The request succeeded; record the installed version.
    Finish { version: Version },
    /// The request failed terminally.
    Fail { error: DownloadError },
}

/// One download request: the target version, the running platform and
/// architecture, the phase the request is in, and the progress channel once
/// the observer has wired it up.
pub struct DownloadEngine {
    pub version: Version,
    pub platform: Platform,
    pub arch: Arch,
    pub phase: EnginePhase,
    pub channel: Option<ProgressChannel>,
}

/// The progress events pending in an engine's channel.
pub open spec fn pending(e: DownloadEngine) -> Seq<ProgressEvent> {
    match e.channel {
        Some(c) => c@,
        None => Seq::empty(),
    }
}

/// An engine step never changes the request's identity, and keeps the wired
/// channel with its capacity.
pub open spec fn same_request(pre: DownloadEngine, post: DownloadEngine) -> bool {
    &&& post.version == pre.version
    &&& post.platform == pre.platform
    &&& post.arch == pre.arch
    &&& pre.channel is Some
    &&& post.channel is Some
    &&& post.channel->0.cap() == pre.channel->0.cap()
}

/// A best-effort send: the event is appended when there is room and dropped
/// when the channel is full.
pub open spec fn sent_best_effort(
    pre: DownloadEngine,
    post: DownloadEngine,
    ev: ProgressEvent,
) -> bool {
    if pending(pre).len() < pre.channel->0.cap() {
        pending(post) == pending(pre).push(ev)
    } else {
        pending(post) == pending(pre)
    }
}

/// The step ended the request with this error: the phase records it, the
/// action reports it, and nothing else happens.
pub open spec fn fails_with(
    pre: DownloadEngine,
    post: DownloadEngine,
    action: EngineAction,
    error: DownloadError,
) -> bool {
    &&& same_request(pre, post)
    &&& pending(post) == pending(pre)
    &&& post.phase == (EnginePhase::Failed { error })
    &&& action == (EngineAction::Fail { error })
}

/// The step ended the request successfully: the installed version flows back.
pub open spec fn succeeds(pre: DownloadEngine, post: DownloadEngine, action: EngineAction) -> bool {
    &&& same_request(pre, post)
    &&& pending(post) == pending(pre)
    &&& post.phase is Succeeded
    &&& action == (EngineAction::Finish { version: pre.version })
}

/// The event does not belong to the current phase: the engine ignores it.
pub open spec fn stalls(pre: DownloadEngine, post: DownloadEngine, action: EngineAction) -> bool {
    &&& post == pre
    &&& action is Continue
}

/// What resolving a successful metadata body does: a malformed body or a
/// body without assets fails; otherwise the first asset named like the
/// resolver's expected filename decides — no match fails, a match without a
/// URL fails, and a match with one starts the asset fetch toward the
/// version's install filename.
pub open spec fn resolves_metadata(
    pre: DownloadEngine,
    post: DownloadEngine,
    action: EngineAction,
    body: Seq<char>,
) -> bool {
    match metadata_assets(body) {
        Err(MetadataFault::NotJson) => fails_with(
            pre,
            post,
            action,
            DownloadError::MetadataMalformed,
        ),
        Err(MetadataFault::NoAssets) => fails_with(
            pre,
            post,
            action,
            DownloadError::NoSuitableAsset { version: pre.version },
        ),
        Ok(assets) => match first_match(assets, asset_name_spec(pre.platform, pre.arch)) {
            None => fails_with(
                pre,
                post,
                action,
                DownloadError::NoSuitableAsset { version: pre.version },
            ),
            Some(i) => match assets[i].url {
                None => fails_with(
                    pre,
                    post,
                    action,
                    DownloadError::BadAssetUrl { version: pre.version },
                ),
                Some(u) => {
                    &&& same_request(pre, post)
                    &&& pending(post) == pending(pre)
                    &&& post.phase is FetchingAsset
                    &&& match action {
                        EngineAction::FetchAsset { url, dest } => url@ == u && dest@
                            == install_name_spec(pre.version, pre.platform),
                        _ => false,
                    }
                },
            },
        },
    }
}

/// Where a finished asset stream leads: Windows goes on to the dependency
/// check, the POSIX platforms to the permission step, and an unknown
/// platform is done.
pub open spec fn leaves_streaming(
    pre: DownloadEngine,
    post: DownloadEngine,
    action: EngineAction,
) -> bool {
    match pre.platform {
        Platform::Windows => {
            &&& post.phase is CheckingDependency
            &&& match action {
                EngineAction::CheckDependency { filename } => filename@ == "SDL2.dll"@,
                _ => false,
            }
        },
        Platform::Linux | Platform::Macos => {
            &&& post.phase is SettingPermissions
            &&& match action {
                EngineAction::SetExecutable { path } => path@ == install_name_spec(
                    pre.version,
                    pre.platform,
                ),
                _ => false,
            }
        },
        Platform::Unknown => {
            &&& post.phase is Succeeded
            &&& action == (EngineAction::Finish { version: pre.version })
        },
    }
}

/// The engine's whole transition relation: what one call of
/// [`DownloadEngine::step`] does for every phase and event.
pub open spec fn steps_to(
    pre: DownloadEngine,
    event: EngineEvent,
    post: DownloadEngine,
    action: EngineAction,
) -> bool {
    match pre.phase {
        EnginePhase::FetchingMetadata => match event {
            EngineEvent::MetadataResponse { status, body } => {
                if !http_success(status) {
                    fails_with(
                        pre,
                        post,
                        action,
                        DownloadError::ReleaseNotFound { version: pre.version },
                    )
                } else {
                    resolves_metadata(pre, post, action, body@)
                }
            },
            EngineEvent::MetadataUnreachable { cause } => fails_with(
                pre,
                post,
                action,
                DownloadError::MetadataFetchFailed { cause },
            ),
            _ => stalls(pre, post, action),
        },
        EnginePhase::FetchingAsset => match event {
            EngineEvent::AssetResponse { status, total_len, now_millis } => {
                if !http_success(status) {
                    fails_with(
                        pre,
                        post,
                        action,
                        DownloadError::AssetStatusFailed { version: pre.version },
                    )
                } else {
                    &&& same_request(pre, post)
                    &&& pending(post) == pending(pre)
                    &&& post.phase == (EnginePhase::Streaming {
                        tracker: ProgressTracker {
                            total: total_len,
                            downloaded: 0,
                            since_last: 0,
                            last_tick: now_millis,
                        },
                    })
                    &&& action is Continue
                }
            },
            EngineEvent::AssetUnreachable { cause } => fails_with(
                pre,
                post,
                action,
                DownloadError::AssetFetchFailed { cause },
            ),
            _ => stalls(pre, post, action),
        },
        EnginePhase::Streaming { tracker } => match event {
            EngineEvent::ChunkWritten { len, now_millis } => {
                let stepped = tracker_step(tracker, len, now_millis);
                &&& same_request(pre, post)
                &&& post.phase == (EnginePhase::Streaming { tracker: stepped.0 })
                &&& match stepped.1 {
                    Some(ev) => sent_best_effort(pre, post, ev),
                    None => pending(post) == pending(pre),
                }
                &&& action is Continue
            },
            EngineEvent::ChunkFailed { cause } => fails_with(
                pre,
                post,
                action,
                DownloadError::StreamReadFailed { cause },
            ),
            EngineEvent::WriteFailed { cause } => fails_with(
                pre,
                post,
                action,
                DownloadError::FileWriteFailed { cause },
            ),
            EngineEvent::StreamEnded => {
                &&& same_request(pre, post)
                &&& sent_best_effort(pre, post, ProgressEvent::Finished)
                &&& leaves_streaming(pre, post, action)
            },
            _ => stalls(pre, post, action),
        },
        EnginePhase::CheckingDependency => match event {
            EngineEvent::DependencyChecked { present } => {
                if present {
                    succeeds(pre, post, action)
                } else {
                    match pre.arch {
                        Arch::X86_64 | Arch::Aarch64 => {
                            &&& same_request(pre, post)
                            &&& pending(post) == pending(pre)
                            &&& post.phase is FetchingDependency
                            &&& match action {
                                EngineAction::FetchDependency { url, dest } => url@
                                    == dependency_archive_url_spec(pre.arch) && dest@
                                    == "sdl2_temp.zip"@,
                                _ => false,
                            }
                        },
                        Arch::Unknown => fails_with(
                            pre,
                            post,
                            action,
                            DownloadError::DependencyUnsupported,
                        ),
                    }
                }
            },
            _ => stalls(pre, post, action),
        },
        EnginePhase::FetchingDependency => match event {
            EngineEvent::DependencyResponse { status, total_len, now_millis } => {
                if !http_success(status) {
                    fails_with(pre, post, action, DownloadError::DependencyStatusFailed)
                } else {
                    &&& same_request(pre, post)
                    &&& pending(post) == pending(pre)
                    &&& post.phase == (EnginePhase::StreamingDependency {
                        tracker: ProgressTracker {
                            total: total_len,
                            downloaded: 0,
                            since_last: 0,
                            last_tick: now_millis,
                        },
                    })
                    &&& action is Continue
                }
            },
            EngineEvent::DependencyUnreachable { cause } => fails_with(
                pre,
                post,
                action,
                DownloadError::DependencyFetchFailed { cause },
            ),
            _ => stalls(pre, post, action),
        },
        EnginePhase::StreamingDependency { tracker } => match event {
            EngineEvent::ChunkWritten { len, now_millis } => {
                let stepped = tracker_step(tracker, len, now_millis);
                &&& same_request(pre, post)
                &&& post.phase == (EnginePhase::StreamingDependency { tracker: stepped.0 })
                &&& match stepped.1 {
                    Some(ev) => sent_best_effort(pre, post, ev),
                    None => pending(post) == pending(pre),
                }
                &&& action is Continue
            },
            EngineEvent::ChunkFailed { cause } => fails_with(
                pre,
                post,
                action,
                DownloadError::StreamReadFailed { cause },
            ),
            EngineEvent::WriteFailed { cause } => fails_with(
                pre,
                post,
                action,
                DownloadError::FileWriteFailed { cause },
            ),
            EngineEvent::StreamEnded => {
                // The one terminal event of a download belongs to the game
                // binary's stream: the dependency stream ends silently.
                &&& same_request(pre, post)
                &&& pending(post) == pending(pre)
                &&& post.phase is ExtractingDependency
                &&& match action {
                    EngineAction::ReadArchive { path } => path@ == "sdl2_temp.zip"@,
                    _ => false,
                }
            },
            _ => stalls(pre, post, action),
        },
        EnginePhase::ExtractingDependency => match event {
            EngineEvent::ArchiveRead { bytes } => match zip_member(bytes@, "SDL2.dll"@) {
                Some(dll) => {
                    &&& same_request(pre, post)
                    &&& pending(post) == pending(pre)
                    &&& post.phase is WritingDependency
                    &&& match action {
                        EngineAction::WriteDependency { filename, bytes: b } => filename@
                            == "SDL2.dll"@ && b@ == dll,
                        _ => false,
                    }
                },
                None => fails_with(pre, post, action, DownloadError::ArchiveExtractionFailed),
            },
            EngineEvent::ArchiveReadFailed { cause } => fails_with(
                pre,
                post,
                action,
                DownloadError::ArchiveOpenFailed { cause },
            ),
            _ => stalls(pre, post, action),
        },
        EnginePhase::WritingDependency => match event {
            EngineEvent::DependencyWritten { ok, cause } => {
                if ok {
                    &&& same_request(pre, post)
                    &&& pending(post) == pending(pre)
                    &&& post.phase is CleaningUp
                    &&& match action {
                        EngineAction::RemoveArchive { path } => path@ == "sdl2_temp.zip"@,
                        _ => false,
                    }
                } else {
                    fails_with(pre, post, action, DownloadError::DependencyWriteFailed { cause })
                }
            },
            _ => stalls(pre, post, action),
        },
        EnginePhase::CleaningUp => match event {
            EngineEvent::CleanupDone { ok, cause } => {
                if ok {
                    succeeds(pre, post, action)
                } else {
                    fails_with(pre, post, action, DownloadError::CleanupFailed { cause })
                }
            },
            _ => stalls(pre, post, action),
        },
        EnginePhase::SettingPermissions => match event {
            EngineEvent::PermissionsSet { ok, cause } => {
                if ok {
                    succeeds(pre, post, action)
                } else {
                    fails_with(pre, post, action, DownloadError::PermissionsFailed { cause })
                }
            },
            _ => stalls(pre, post, action),
        },
        EnginePhase::Idle => stalls(pre, post, action),
        EnginePhase::Succeeded => stalls(pre, post, action),
        EnginePhase::Failed { .. } => stalls(pre, post, action),
    }
}

/// How many terminal `Finished` events a queue holds.
pub open spec fn finished_count(evs: Seq<ProgressEvent>) -> int
    decreases evs.len(),
{
    if evs.len() == 0 {
        0
    } else {
        (if evs[0] is Finished {
            1int
        } else {
            0int
        }) + finished_count(evs.drop_first())
    }
}

/// How many terminal events a request in this phase may still queue: one
/// until the game binary's stream has ended, none afterwards.
pub open spec fn finish_budget(phase: EnginePhase) -> int {
    match phase {
        EnginePhase::Idle => 1,
        EnginePhase::FetchingMetadata => 1,
        EnginePhase::FetchingAsset => 1,
        EnginePhase::Streaming { .. } => 1,
        _ => 0,
    }
}

/// Appending an event adds one to the count exactly when it is `Finished`.
proof fn lemma_finished_count_push(evs: Seq<ProgressEvent>, e: ProgressEvent)
    ensures
        finished_count(evs.push(e)) == finished_count(evs) + (if e is Finished {
            1int
        } else {
            0int
        }),
    decreases evs.len(),
{
    if evs.len() == 0 {
        assert(evs.push(e)[0] == e);
        assert(evs.push(e).drop_first() =~= Seq::<ProgressEvent>::empty());
        assert(finished_count(Seq::<ProgressEvent>::empty()) == 0);
    } else {
        assert(evs.push(e)[0] == evs[0]);
        assert(evs.push(e).drop_first() =~= evs.drop_first().push(e));
        lemma_finished_count_push(evs.drop_first(), e);
    }
}

/// Receiving an event never raises the count of queued terminal events.
pub proof fn lemma_finished_count_recv(evs: Seq<ProgressEvent>)
    requires
        evs.len() > 0,
    ensures
        finished_count(evs.drop_first()) <= finished_count(evs),
{
}

/// At most one terminal event per download: no step raises the number of
/// queued `Finished` events plus the one the phase still owes. A fresh
/// request owes one; only the end of the game binary's stream queues it, and
/// no phase after that point owes another — so one download never queues two.
pub proof fn lemma_single_finished(
    pre: DownloadEngine,
    event: EngineEvent,
    post: DownloadEngine,
    action: EngineAction,
)
    requires
        steps_to(pre, event, post, action),
    ensures
        finished_count(pending(post)) + finish_budget(post.phase) <= finished_count(pending(pre))
            + finish_budget(pre.phase),
{
    match pre.phase {
        EnginePhase::Streaming { tracker } => match event {
            EngineEvent::ChunkWritten { len, now_millis } => {
                let stepped = tracker_step(tracker, len, now_millis);
                if let Some(e) = stepped.1 {
                    if pending(pre).len() < pre.channel->0.cap() {
                        lemma_finished_count_push(pending(pre), e);
                    }
                }
            },
            EngineEvent::StreamEnded => {
                if pending(pre).len() < pre.channel->0.cap() {
                    lemma_finished_count_push(pending(pre), ProgressEvent::Finished);
                }
            },
            _ => {},
        },
        EnginePhase::StreamingDependency { tracker } => match event {
            EngineEvent::ChunkWritten { len, now_millis } => {
                let stepped = tracker_step(tracker, len, now_millis);
                if let Some(e) = stepped.1 {
                    if pending(pre).len() < pre.channel->0.cap() {
                        lemma_finished_count_push(pending(pre), e);
                    }
                }
            },
            _ => {},
        },
        _ => {},
    }
}

impl DownloadEngine {
    /// A fresh engine for one request. No download can start until the
    /// observer wires up the progress channel.
    pub fn new(version: Version, platform: Platform, arch: Arch) -> (r: Self)
        ensures
            r.version == version,
            r.platform == platform,
            r.arch == arch,
            r.phase is Idle,
            r.channel is None,
    {
        DownloadEngine { version, platform, arch, phase: EnginePhase::Idle, channel: None }
    }

    /// Wires up the progress channel the observing loop will drain. Must
    /// happen before [`Self::start`]: a download attempted without it is a
    /// programming-contract violation ("sender not set").
    pub fn attach_channel(&mut self)
        ensures
            final(self).version == old(self).version,
            final(self).platform == old(self).platform,
            final(self).arch == old(self).arch,
            final(self).phase == old(self).phase,
            final(self).channel is Some,
            final(self).channel->0.cap() == CHANNEL_CAPACITY,
            pending(*final(self)) == Seq::<ProgressEvent>::empty(),
    {
        self.channel = Some(ProgressChannel::new(CHANNEL_CAPACITY));
    }

    /// Starts the request: asks the shell to fetch the release metadata for
    /// the version's tag.
    pub fn start(&mut self) -> (action: EngineAction)
        requires
            old(self).phase is Idle,
            old(self).channel is Some,
        ensures
            same_request(*old(self), *final(self)),
            pending(*final(self)) == pending(*old(self)),
            final(self).phase is FetchingMetadata,
            match action {
                EngineAction::FetchMetadata { url } => url@ == metadata_url_spec(
                    old(self).version,
                ),
                _ => false,
            },
    {
        self.phase = EnginePhase::FetchingMetadata;
        EngineAction::FetchMetadata { url: metadata_url(&self.version) }
    }

    /// Hands the oldest pending progress event to the observer, if any.
    pub fn next_progress(&mut self) -> (r: Option<ProgressEvent>)
        requires
            old(self).channel is Some,
        ensures
            same_request(*old(self), *final(self)),
            final(self).phase == old(self).phase,
            match r {
                Some(e) => pending(*old(self)).len() > 0 && e == pending(*old(self))[0] && pending(
                    *final(self),
                ) == pending(*old(self)).drop_first(),
                None => pending(*old(self)).len() == 0 && pending(*final(self)) == pending(
                    *old(self),
                ),
            },
    {
        match &mut self.channel {
            Some(ch) => ch.recv(),
            None => None,
        }
    }

    /// Sends a progress event best-effort: dropped when the channel is full.
    fn emit(&mut self, ev: ProgressEvent)
        requires
            old(self).channel is Some,
        ensures
            final(self).version == old(self).version,
            final(self).platform == old(self).platform,
            final(self).arch == old(self).arch,
            final(self).phase == old(self).phase,
            final(self).channel is Some,
            final(self).channel->0.cap() == old(self).channel->0.cap(),
            sent_best_effort(*old(self), *final(self), ev),
    {
        match &mut self.channel {
            Some(ch) => {
                ch.try_send(ev);
            },
            None => {},
        }
    }

    /// Records a terminal failure and reports it.
    fn fail(&mut self, error: DownloadError) -> (action: EngineAction)
        requires
            old(self).channel is Some,
        ensures
            fails_with(*old(self), *final(self), action, error),
    {
        let reported = error.duplicate();
        self.phase = EnginePhase::Failed { error };
        EngineAction::Fail { error: reported }
    }

    /// Resolves a successful metadata body to the matching asset's download
    /// URL, or fails the request.
    fn resolve(&mut self, body: String) -> (action: EngineAction)
        requires
            old(self).channel is Some,
            old(self).phase is FetchingMetadata,
        ensures
            resolves_metadata(*old(self), *final(self), action, body@),
    {
        let assets = match parse_release_assets(body.as_str()) {
            Err(MetadataFault::NotJson) => {
                return self.fail(DownloadError::MetadataMalformed);
            },
            Err(MetadataFault::NoAssets) => {
                return self.fail(DownloadError::NoSuitableAsset { version: self.version });
            },
            Ok(a) => a,
        };
        let expected = asset_filename(self.platform, self.arch);
        let ghost models = assets_view(assets@);
        match resolve_asset(&assets, &expected) {
            None => {
                proof {
                    assert forall|k: int| 0 <= k < models.len() implies models[k].name
                        != asset_name_spec(self.platform, self.arch) by {
                        assert(models[k] == assets@[k]@);
                    }
                    lemma_first_match_none(models, asset_name_spec(self.platform, self.arch));
                }
                self.fail(DownloadError::NoSuitableAsset { version: self.version })
            },
            Some(i) => {
                proof {
                    assert forall|k: int| 0 <= k < i implies models[k].name != asset_name_spec(
                        self.platform,
                        self.arch,
                    ) by {
                        assert(models[k] == assets@[k]@);
                    }
                    assert(models[i as int] == assets@[i as int]@);
                    lemma_first_match_at(models, asset_name_spec(self.platform, self.arch), i as int);
                }
                match &assets[i].url {
                    None => self.fail(DownloadError::BadAssetUrl { version: self.version }),
                    Some(u) => {
                        let url = u.clone();
                        let dest = install_filename(&self.version, self.platform);
                        self.phase = EnginePhase::FetchingAsset;
                        EngineAction::FetchAsset { url, dest }
                    },
                }
            },
        }
    }

    /// Consumes one outside event and returns the next action, following
    /// [`steps_to`] exactly. Events that do not belong to the current phase
    /// are ignored.
    pub fn step(&mut self, event: EngineEvent) -> (action: EngineAction)
        requires
            old(self).channel is Some,
        ensures
            steps_to(*old(self), event, *final(self), action),
    {
        let ghost pre = *old(self);
        match &self.phase {
            EnginePhase::FetchingMetadata => match event {
                EngineEvent::MetadataResponse { status, body } => {
                    if !is_http_success(status) {
                        self.fail(DownloadError::ReleaseNotFound { version: self.version })
                    } else {
                        self.resolve(body)
                    }
                },
                EngineEvent::MetadataUnreachable { cause } => {
                    self.fail(DownloadError::MetadataFetchFailed { cause })
                },
                _ => EngineAction::Continue,
            },
            EnginePhase::FetchingAsset => match event {
                EngineEvent::AssetResponse { status, total_len, now_millis } => {
                    if !is_http_success(status) {
                        self.fail(DownloadError::AssetStatusFailed { version: self.version })
                    } else {
                        self.phase = EnginePhase::Streaming {
                            tracker: ProgressTracker::new(total_len, now_millis),
                        };
                        EngineAction::Continue
                    }
                },
                EngineEvent::AssetUnreachable { cause } => {
                    self.fail(DownloadError::AssetFetchFailed { cause })
                },
                _ => EngineAction::Continue,
            },
            EnginePhase::Streaming { tracker } => match event {
                EngineEvent::ChunkWritten { len, now_millis } => {
                    let mut t = *tracker;
                    let emitted = t.on_chunk(len, now_millis);
                    self.phase = EnginePhase::Streaming { tracker: t };
                    if let Some(ev) = emitted {
                        self.emit(ev);
                    }
                    EngineAction::Continue
                },
                EngineEvent::ChunkFailed { cause } => {
                    self.fail(DownloadError::StreamReadFailed { cause })
                },
                EngineEvent::WriteFailed { cause } => {
                    self.fail(DownloadError::FileWriteFailed { cause })
                },
                EngineEvent::StreamEnded => {
                    self.emit(ProgressEvent::Finished);
                    match self.platform {
                        Platform::Windows => {
                            self.phase = EnginePhase::CheckingDependency;
                            EngineAction::CheckDependency {
                                filename: String::from_str("SDL2.dll"),
                            }
                        },
                        Platform::Linux | Platform::Macos => {
                            let path = install_filename(&self.version, self.platform);
                            self.phase = EnginePhase::SettingPermissions;
                            EngineAction::SetExecutable { path }
                        },
                        Platform::Unknown => {
                            self.phase = EnginePhase::Succeeded;
                            EngineAction::Finish { version: self.version }
                        },
                    }
                },
                _ => EngineAction::Continue,
            },
            EnginePhase::CheckingDependency => match event {
                EngineEvent::DependencyChecked { present } => {
                    if present {
                        self.phase = EnginePhase::Succeeded;
                        EngineAction::Finish { version: self.version }
                    } else {
                        match self.arch {
                            Arch::X86_64 | Arch::Aarch64 => {
                                let url = String::from_str(dependency_archive_url(self.arch));
                                self.phase = EnginePhase::FetchingDependency;
                                EngineAction::FetchDependency {
                                    url,
                                    dest: String::from_str("sdl2_temp.zip"),
                                }
                            },
                            Arch::Unknown => {
                                self.fail(DownloadError::DependencyUnsupported)
                            },
                        }
                    }
                },
                _ => EngineAction::Continue,
            },
            EnginePhase::FetchingDependency => match event {
                EngineEvent::DependencyResponse { status, total_len, now_millis } => {
                    if !is_http_success(status) {
                        self.fail(DownloadError::DependencyStatusFailed)
                    } else {
                        self.phase = EnginePhase::StreamingDependency {
                            tracker: ProgressTracker::new(total_len, now_millis),
                        };
                        EngineAction::Continue
                    }
                },
                EngineEvent::DependencyUnreachable { cause } => {
                    self.fail(DownloadError::DependencyFetchFailed { cause })
                },
                _ => EngineAction::Continue,
            },
            EnginePhase::StreamingDependency { tracker } => match event {
                EngineEvent::ChunkWritten { len, now_millis } => {
                    let mut t = *tracker;
                    let emitted = t.on_chunk(len, now_millis);
                    self.phase = EnginePhase::StreamingDependency { tracker: t };
                    if let Some(ev) = emitted {
                        self.emit(ev);
                    }
                    EngineAction::Continue
                },
                EngineEvent::ChunkFailed { cause } => {
                    self.fail(DownloadError::StreamReadFailed { cause })
                },
                EngineEvent::WriteFailed { cause } => {
                    self.fail(DownloadError::FileWriteFailed { cause })
                },
                EngineEvent::StreamEnded => {
                    self.phase = EnginePhase::ExtractingDependency;
                    EngineAction::ReadArchive { path: String::from_str("sdl2_temp.zip") }
                },
                _ => EngineAction::Continue,
            },
            EnginePhase::ExtractingDependency => match event {
                EngineEvent::ArchiveRead { bytes } => {
                    match extract_zip_member(&bytes, "SDL2.dll") {
                        Some(dll) => {
                            self.phase = EnginePhase::WritingDependency;
                            EngineAction::WriteDependency {
                                filename: String::from_str("SDL2.dll"),
                                bytes: dll,
                            }
                        },
                        None => self.fail(DownloadError::ArchiveExtractionFailed),
                    }
                },
                EngineEvent::ArchiveReadFailed { cause } => {
                    self.fail(DownloadError::ArchiveOpenFailed { cause })
                },
                _ => EngineAction::Continue,
            },
            EnginePhase::WritingDependency => match event {
                EngineEvent::DependencyWritten { ok, cause } => {
                    if ok {
                        self.phase = EnginePhase::CleaningUp;
                        EngineAction::RemoveArchive { path: String::from_str("sdl2_temp.zip") }
                    } else {
                        self.fail(DownloadError::DependencyWriteFailed { cause })
                    }
                },
                _ => EngineAction::Continue,
            },
            EnginePhase::CleaningUp => match event {
                EngineEvent::CleanupDone { ok, cause } => {
                    if ok {
                        self.phase = EnginePhase::Succeeded;
                        EngineAction::Finish { version: self.version }
                    } else {
                        self.fail(DownloadError::CleanupFailed { cause })
                    }
                },
                _ => EngineAction::Continue,
            },
            EnginePhase::SettingPermissions => match event {
                EngineEvent::PermissionsSet { ok, cause } => {
                    if ok {
                        self.phase = EnginePhase::Succeeded;
                        EngineAction::Finish { version: self.version }
                    } else {
                        self.fail(DownloadError::PermissionsFailed { cause })
                    }
                },
                _ => EngineAction::Continue,
            },
            EnginePhase::Idle => EngineAction::Continue,
            EnginePhase::Succeeded => EngineAction::Continue,
            EnginePhase::Failed { .. } => EngineAction::Continue,
        }
    }
}

} // verus!
