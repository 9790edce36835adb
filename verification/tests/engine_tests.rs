use mineplace_launcher::channel::ProgressChannel;
use mineplace_launcher::engine::DownloadEngine;
use mineplace_launcher::engine::EngineAction;
use mineplace_launcher::engine::EngineEvent;
use mineplace_launcher::engine::EnginePhase;
use mineplace_launcher::errors::DownloadError;
use mineplace_launcher::progress::ProgressEvent;
use mineplace_launcher::progress::ProgressTracker;
use mineplace_launcher::resolver::Arch;
use mineplace_launcher::resolver::Platform;
use mineplace_launcher::version::Version;

fn started_engine(version: &str, platform: Platform, arch: Arch) -> DownloadEngine {
    let v = Version::parse(version).unwrap();
    let mut engine = DownloadEngine::new(v, platform, arch);
    engine.attach_channel();
    let action = engine.start();
    match action {
        EngineAction::FetchMetadata { url } => {
            assert!(url.starts_with(
                "https://api.github.com/repos/Muhtasim-Rasheed/mineplace3d/releases/tags/v"
            ));
        }
        _ => panic!("starting must request the metadata fetch"),
    }
    engine
}

fn drain(engine: &mut DownloadEngine) -> Vec<ProgressEvent> {
    let mut out = Vec::new();
    while let Some(e) = engine.next_progress() {
        out.push(e);
    }
    out
}

fn stored_zip(member: &str, data: &[u8]) -> Vec<u8> {
    let mut writer = zip::ZipWriter::new(std::io::Cursor::new(Vec::new()));
    let options = zip::write::SimpleFileOptions::default()
        .compression_method(zip::CompressionMethod::Stored);
    writer.start_file(member, options).unwrap();
    std::io::Write::write_all(&mut writer, data).unwrap();
    writer.finish().unwrap().into_inner()
}

const LINUX_METADATA: &str = "{\"assets\": [\
    {\"name\": \"mineplace3d-windows-x86_64.exe\", \"browser_download_url\": \"https://example.invalid/win\"},\
    {\"name\": \"mineplace3d-linux-x86_64\", \"browser_download_url\": \"https://example.invalid/linux\"}\
]}";

#[test]
fn metadata_not_found_fails_without_touching_files() {
    let mut engine = started_engine("1.2.3", Platform::Linux, Arch::X86_64);
    let action = engine.step(EngineEvent::MetadataResponse {
        status: 404,
        body: String::new(),
    });
    match action {
        EngineAction::Fail { error } => {
            let message = error.message();
            assert!(message.contains("not found"));
            assert!(message.contains("1.2.3"));
            assert_eq!(message, "Release for version v1.2.3 not found");
        }
        _ => panic!("a non-success metadata status must fail the request"),
    }
    assert!(matches!(engine.phase, EnginePhase::Failed { .. }));
    assert_eq!(drain(&mut engine), Vec::new());
}

#[test]
fn metadata_transport_failure_surfaces_cause() {
    let mut engine = started_engine("1.2.3", Platform::Linux, Arch::X86_64);
    let action = engine.step(EngineEvent::MetadataUnreachable {
        cause: String::from("connection refused"),
    });
    match action {
        EngineAction::Fail { error } => {
            assert_eq!(
                error.message(),
                "Failed to fetch release info: connection refused"
            );
        }
        _ => panic!("a transport failure must fail the request"),
    }
}

#[test]
fn malformed_metadata_fails() {
    let mut engine = started_engine("1.2.3", Platform::Linux, Arch::X86_64);
    let action = engine.step(EngineEvent::MetadataResponse {
        status: 200,
        body: String::from("oops"),
    });
    match action {
        EngineAction::Fail { error } => {
            assert_eq!(error, DownloadError::MetadataMalformed);
        }
        _ => panic!("a body that is not JSON must fail the request"),
    }
}

#[test]
fn missing_asset_fails() {
    let mut engine = started_engine("1.2.3", Platform::Macos, Arch::Aarch64);
    let action = engine.step(EngineEvent::MetadataResponse {
        status: 200,
        body: String::from(LINUX_METADATA),
    });
    match action {
        EngineAction::Fail { error } => {
            assert_eq!(
                error.message(),
                "No suitable asset found for version v1.2.3"
            );
        }
        _ => panic!("a release without the expected asset must fail"),
    }
}

#[test]
fn asset_without_url_fails() {
    let mut engine = started_engine("1.2.3", Platform::Linux, Arch::X86_64);
    let body = "{\"assets\": [{\"name\": \"mineplace3d-linux-x86_64\"}]}";
    let action = engine.step(EngineEvent::MetadataResponse {
        status: 200,
        body: String::from(body),
    });
    match action {
        EngineAction::Fail { error } => {
            assert_eq!(
                error.message(),
                "Invalid asset download URL for version v1.2.3"
            );
        }
        _ => panic!("an asset without a download URL must fail"),
    }
}

#[test]
fn linux_download_streams_and_finalizes() {
    let mut engine = started_engine("1.2.3", Platform::Linux, Arch::X86_64);
    let action = engine.step(EngineEvent::MetadataResponse {
        status: 200,
        body: String::from(LINUX_METADATA),
    });
    match action {
        EngineAction::FetchAsset { url, dest } => {
            assert_eq!(url, "https://example.invalid/linux");
            assert_eq!(dest, "1.2.3");
        }
        _ => panic!("a matching asset must start the asset fetch"),
    }
    let action = engine.step(EngineEvent::AssetResponse {
        status: 200,
        total_len: Some(1000),
        now_millis: 0,
    });
    assert!(matches!(action, EngineAction::Continue));
    // Quick chunk: under the sample interval, nothing is emitted yet.
    engine.step(EngineEvent::ChunkWritten { len: 250, now_millis: 100 });
    // Interval elapsed: one sample over the rolling window.
    engine.step(EngineEvent::ChunkWritten { len: 250, now_millis: 300 });
    engine.step(EngineEvent::ChunkWritten { len: 500, now_millis: 600 });
    let action = engine.step(EngineEvent::StreamEnded);
    match action {
        EngineAction::SetExecutable { path } => assert_eq!(path, "1.2.3"),
        _ => panic!("a finished stream on a POSIX platform must set permissions"),
    }
    let events = drain(&mut engine);
    assert_eq!(
        events,
        vec![
            ProgressEvent::Progress { downloaded: 500, total: 1000, bytes_per_sec: 1666 },
            ProgressEvent::Progress { downloaded: 1000, total: 1000, bytes_per_sec: 1666 },
            ProgressEvent::Finished,
        ]
    );
    let action = engine.step(EngineEvent::PermissionsSet {
        ok: true,
        cause: String::new(),
    });
    match action {
        EngineAction::Finish { version } => {
            assert_eq!(version, Version::parse("1.2.3").unwrap());
        }
        _ => panic!("successful permissions must finish the request"),
    }
    assert!(matches!(engine.phase, EnginePhase::Succeeded));
}

#[test]
fn progress_fractions_never_decrease_and_end_with_finished() {
    let mut engine = started_engine("1.2.3", Platform::Unknown, Arch::Unknown);
    let body = "{\"assets\": [{\"name\": \"mineplace3d-unknown-unknown\", \
        \"browser_download_url\": \"https://example.invalid/any\"}]}";
    engine.step(EngineEvent::MetadataResponse { status: 200, body: String::from(body) });
    engine.step(EngineEvent::AssetResponse {
        status: 200,
        total_len: Some(4000),
        now_millis: 0,
    });
    let mut now: u64 = 0;
    for _ in 0..16 {
        now += 260;
        engine.step(EngineEvent::ChunkWritten { len: 250, now_millis: now });
    }
    engine.step(EngineEvent::StreamEnded);
    let events = drain(&mut engine);
    assert!(events.len() > 2);
    let mut last_fraction_num: u64 = 0;
    for (i, e) in events.iter().enumerate() {
        if i + 1 == events.len() {
            assert_eq!(*e, ProgressEvent::Finished);
        } else {
            match e {
                ProgressEvent::Progress { downloaded, total, .. } => {
                    assert!(*downloaded >= last_fraction_num);
                    assert!(*downloaded <= *total);
                    last_fraction_num = *downloaded;
                }
                _ => panic!("only progress samples may precede the terminal event"),
            }
        }
    }
}

#[test]
fn unknown_length_stream_is_silent() {
    let mut engine = started_engine("1.2.3", Platform::Linux, Arch::X86_64);
    engine.step(EngineEvent::MetadataResponse {
        status: 200,
        body: String::from(LINUX_METADATA),
    });
    engine.step(EngineEvent::AssetResponse {
        status: 200,
        total_len: None,
        now_millis: 0,
    });
    engine.step(EngineEvent::ChunkWritten { len: 5000, now_millis: 1000 });
    engine.step(EngineEvent::ChunkWritten { len: 5000, now_millis: 2000 });
    let action = engine.step(EngineEvent::StreamEnded);
    assert!(matches!(action, EngineAction::SetExecutable { .. }));
    assert_eq!(drain(&mut engine), vec![ProgressEvent::Finished]);
}

#[test]
fn windows_dependency_flow_installs_library() {
    let mut engine = started_engine("1.2.3", Platform::Windows, Arch::X86_64);
    let body = "{\"assets\": [{\"name\": \"mineplace3d-windows-x86_64.exe\", \
        \"browser_download_url\": \"https://example.invalid/win\"}]}";
    let action = engine.step(EngineEvent::MetadataResponse {
        status: 200,
        body: String::from(body),
    });
    match action {
        EngineAction::FetchAsset { url, dest } => {
            assert_eq!(url, "https://example.invalid/win");
            assert_eq!(dest, "1.2.3.exe");
        }
        _ => panic!("a matching asset must start the asset fetch"),
    }
    engine.step(EngineEvent::AssetResponse {
        status: 200,
        total_len: Some(10),
        now_millis: 0,
    });
    engine.step(EngineEvent::ChunkWritten { len: 10, now_millis: 1 });
    let action = engine.step(EngineEvent::StreamEnded);
    match action {
        EngineAction::CheckDependency { filename } => assert_eq!(filename, "SDL2.dll"),
        _ => panic!("a finished stream on Windows must check the dependency"),
    }
    let action = engine.step(EngineEvent::DependencyChecked { present: false });
    match action {
        EngineAction::FetchDependency { url, dest } => {
            assert_eq!(url, "https://www.libsdl.org/release/SDL2-2.32.10-win32-x64.zip");
            assert_eq!(dest, "sdl2_temp.zip");
        }
        _ => panic!("an absent dependency must start the vendor download"),
    }
    engine.step(EngineEvent::DependencyResponse { status: 200, total_len: Some(100), now_millis: 0 });
    engine.step(EngineEvent::ChunkWritten { len: 100, now_millis: 300 });
    let action = engine.step(EngineEvent::StreamEnded);
    match action {
        EngineAction::ReadArchive { path } => assert_eq!(path, "sdl2_temp.zip"),
        _ => panic!("a streamed archive must be read back"),
    }
    let archive = stored_zip("SDL2.dll", b"library-bytes");
    let action = engine.step(EngineEvent::ArchiveRead { bytes: archive });
    match action {
        EngineAction::WriteDependency { filename, bytes } => {
            assert_eq!(filename, "SDL2.dll");
            assert_eq!(bytes, b"library-bytes");
        }
        _ => panic!("the archive member must be extracted and written"),
    }
    let action = engine.step(EngineEvent::DependencyWritten {
        ok: true,
        cause: String::new(),
    });
    match action {
        EngineAction::RemoveArchive { path } => assert_eq!(path, "sdl2_temp.zip"),
        _ => panic!("the temporary archive must be removed"),
    }
    let action = engine.step(EngineEvent::CleanupDone { ok: true, cause: String::new() });
    match action {
        EngineAction::Finish { version } => {
            assert_eq!(version, Version::parse("1.2.3").unwrap());
        }
        _ => panic!("a cleaned-up dependency install must finish the request"),
    }
    assert!(matches!(engine.phase, EnginePhase::Succeeded));
    // One terminal event for the whole download: the dependency stream ends
    // silently, its progress samples following the binary's terminal event.
    let events = drain(&mut engine);
    assert_eq!(
        events,
        vec![
            ProgressEvent::Finished,
            ProgressEvent::Progress { downloaded: 100, total: 100, bytes_per_sec: 333 },
        ]
    );
    let finished = events
        .iter()
        .filter(|e| matches!(e, ProgressEvent::Finished))
        .count();
    assert_eq!(finished, 1);
}

#[test]
fn windows_dependency_present_finishes_directly() {
    let mut engine = started_engine("1.2.3", Platform::Windows, Arch::X86_64);
    engine.phase = EnginePhase::CheckingDependency;
    let action = engine.step(EngineEvent::DependencyChecked { present: true });
    assert!(matches!(action, EngineAction::Finish { .. }));
    assert!(matches!(engine.phase, EnginePhase::Succeeded));
}

#[test]
fn archive_without_member_fails() {
    let mut engine = started_engine("1.2.3", Platform::Windows, Arch::X86_64);
    engine.phase = EnginePhase::ExtractingDependency;
    let archive = stored_zip("OTHER.dll", b"not the one");
    let action = engine.step(EngineEvent::ArchiveRead { bytes: archive });
    match action {
        EngineAction::Fail { error } => {
            assert_eq!(error, DownloadError::ArchiveExtractionFailed);
            assert_eq!(error.message(), "Failed to find SDL2.dll in zip archive");
        }
        _ => panic!("an archive without the member must fail"),
    }
}

#[test]
fn garbage_archive_fails() {
    let mut engine = started_engine("1.2.3", Platform::Windows, Arch::X86_64);
    engine.phase = EnginePhase::ExtractingDependency;
    let action = engine.step(EngineEvent::ArchiveRead { bytes: vec![1, 2, 3, 4] });
    assert!(matches!(
        action,
        EngineAction::Fail { error: DownloadError::ArchiveExtractionFailed }
    ));
}

#[test]
fn unknown_arch_cannot_install_dependency() {
    let mut engine = started_engine("1.2.3", Platform::Windows, Arch::Unknown);
    engine.phase = EnginePhase::CheckingDependency;
    let action = engine.step(EngineEvent::DependencyChecked { present: false });
    assert!(matches!(
        action,
        EngineAction::Fail { error: DownloadError::DependencyUnsupported }
    ));
}

#[test]
fn write_and_permission_failures_surface() {
    let mut engine = started_engine("1.2.3", Platform::Linux, Arch::X86_64);
    engine.phase = EnginePhase::SettingPermissions;
    let action = engine.step(EngineEvent::PermissionsSet {
        ok: false,
        cause: String::from("read-only filesystem"),
    });
    match action {
        EngineAction::Fail { error } => {
            assert_eq!(
                error.message(),
                "Failed to set permissions: read-only filesystem"
            );
        }
        _ => panic!("a permission failure is terminal"),
    }
}

#[test]
fn chunk_errors_abort_the_stream() {
    let mut engine = started_engine("1.2.3", Platform::Linux, Arch::X86_64);
    engine.phase = EnginePhase::Streaming {
        tracker: ProgressTracker::new(Some(100), 0),
    };
    let action = engine.step(EngineEvent::ChunkFailed {
        cause: String::from("reset by peer"),
    });
    match action {
        EngineAction::Fail { error } => {
            assert_eq!(error.message(), "Download error: reset by peer");
        }
        _ => panic!("a chunk read error is terminal"),
    }
}

#[test]
fn mismatched_events_are_ignored() {
    let mut engine = started_engine("1.2.3", Platform::Linux, Arch::X86_64);
    let action = engine.step(EngineEvent::StreamEnded);
    assert!(matches!(action, EngineAction::Continue));
    assert!(matches!(engine.phase, EnginePhase::FetchingMetadata));
}

#[test]
fn asset_transport_and_status_failures_surface() {
    let mut engine = started_engine("1.2.3", Platform::Linux, Arch::X86_64);
    engine.phase = EnginePhase::FetchingAsset;
    let action = engine.step(EngineEvent::AssetUnreachable {
        cause: String::from("dns error"),
    });
    match action {
        EngineAction::Fail { error } => {
            assert_eq!(error.message(), "Failed to download asset: dns error");
        }
        _ => panic!("an asset transport failure is terminal"),
    }
    let mut engine = started_engine("1.2.3", Platform::Linux, Arch::X86_64);
    engine.phase = EnginePhase::FetchingAsset;
    let action = engine.step(EngineEvent::AssetResponse {
        status: 500,
        total_len: None,
        now_millis: 0,
    });
    match action {
        EngineAction::Fail { error } => {
            assert_eq!(error.message(), "Failed to download asset for version v1.2.3");
        }
        _ => panic!("a non-success asset status is terminal"),
    }
}

#[test]
fn file_write_failure_aborts_the_stream() {
    let mut engine = started_engine("1.2.3", Platform::Linux, Arch::X86_64);
    engine.phase = EnginePhase::Streaming {
        tracker: ProgressTracker::new(Some(100), 0),
    };
    let action = engine.step(EngineEvent::WriteFailed {
        cause: String::from("disk full"),
    });
    match action {
        EngineAction::Fail { error } => {
            assert_eq!(error.message(), "Write error: disk full");
        }
        _ => panic!("a file write error is terminal"),
    }
}

#[test]
fn dependency_failures_surface() {
    let mut engine = started_engine("1.2.3", Platform::Windows, Arch::X86_64);
    engine.phase = EnginePhase::FetchingDependency;
    let action = engine.step(EngineEvent::DependencyUnreachable {
        cause: String::from("timed out"),
    });
    match action {
        EngineAction::Fail { error } => {
            assert_eq!(error.message(), "Failed to download SDL2.dll: timed out");
        }
        _ => panic!("a dependency transport failure is terminal"),
    }

    let mut engine = started_engine("1.2.3", Platform::Windows, Arch::X86_64);
    engine.phase = EnginePhase::FetchingDependency;
    let action = engine.step(EngineEvent::DependencyResponse {
        status: 503,
        total_len: None,
        now_millis: 0,
    });
    match action {
        EngineAction::Fail { error } => {
            assert_eq!(error, DownloadError::DependencyStatusFailed);
            assert_eq!(error.message(), "Failed to download SDL2.dll");
        }
        _ => panic!("a non-success dependency status is terminal"),
    }

    let mut engine = started_engine("1.2.3", Platform::Windows, Arch::X86_64);
    engine.phase = EnginePhase::ExtractingDependency;
    let action = engine.step(EngineEvent::ArchiveReadFailed {
        cause: String::from("no such file"),
    });
    match action {
        EngineAction::Fail { error } => {
            assert_eq!(
                error.message(),
                "Failed to open SDL2.dll zip file: no such file"
            );
        }
        _ => panic!("an unreadable archive is terminal"),
    }

    let mut engine = started_engine("1.2.3", Platform::Windows, Arch::X86_64);
    engine.phase = EnginePhase::WritingDependency;
    let action = engine.step(EngineEvent::DependencyWritten {
        ok: false,
        cause: String::from("permission denied"),
    });
    match action {
        EngineAction::Fail { error } => {
            assert_eq!(
                error.message(),
                "Failed to write SDL2.dll file: permission denied"
            );
        }
        _ => panic!("a failed library write is terminal"),
    }

    let mut engine = started_engine("1.2.3", Platform::Windows, Arch::X86_64);
    engine.phase = EnginePhase::CleaningUp;
    let action = engine.step(EngineEvent::CleanupDone {
        ok: false,
        cause: String::from("busy"),
    });
    match action {
        EngineAction::Fail { error } => {
            assert_eq!(
                error.message(),
                "Failed to remove temporary SDL2.dll zip file: busy"
            );
        }
        _ => panic!("a failed cleanup is terminal"),
    }
}

#[test]
fn channel_is_fifo_and_drops_newest_when_full() {
    let mut ch = ProgressChannel::new(2);
    assert!(ch.try_send(ProgressEvent::Progress { downloaded: 1, total: 10, bytes_per_sec: 0 }));
    assert!(ch.try_send(ProgressEvent::Progress { downloaded: 2, total: 10, bytes_per_sec: 0 }));
    assert!(!ch.try_send(ProgressEvent::Finished));
    assert_eq!(ch.len(), 2);
    assert_eq!(
        ch.recv(),
        Some(ProgressEvent::Progress { downloaded: 1, total: 10, bytes_per_sec: 0 })
    );
    assert_eq!(
        ch.recv(),
        Some(ProgressEvent::Progress { downloaded: 2, total: 10, bytes_per_sec: 0 })
    );
    assert_eq!(ch.recv(), None);
}

#[test]
fn tracker_emits_at_most_once_per_interval() {
    let mut tracker = ProgressTracker::new(Some(1000), 0);
    assert_eq!(tracker.on_chunk(100, 50), None);
    assert_eq!(tracker.on_chunk(100, 249), None);
    assert_eq!(
        tracker.on_chunk(100, 250),
        Some(ProgressEvent::Progress { downloaded: 300, total: 1000, bytes_per_sec: 1200 })
    );
    assert_eq!(tracker.on_chunk(100, 400), None);
    assert_eq!(
        tracker.on_chunk(100, 500),
        Some(ProgressEvent::Progress { downloaded: 500, total: 1000, bytes_per_sec: 800 })
    );
}
