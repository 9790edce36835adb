use mineplace_launcher::engine::DownloadEngine;
use mineplace_launcher::engine::EnginePhase;
use mineplace_launcher::registry::LaunchError;
use mineplace_launcher::registry::VersionRegistry;
use mineplace_launcher::resolver::Arch;
use mineplace_launcher::resolver::Platform;
use mineplace_launcher::version::Version;

#[test]
fn insert_keeps_entries_unique() {
    let mut reg = VersionRegistry::new();
    let v = Version::parse("1.0.0").unwrap();
    assert!(reg.insert(v));
    assert!(!reg.insert(v));
    assert_eq!(reg.len(), 1);
    assert!(reg.contains(&v));
}

#[test]
fn should_download_only_missing_versions() {
    let mut reg = VersionRegistry::new();
    let installed = Version::parse("1.0.0").unwrap();
    let missing = Version::parse("1.0.1").unwrap();
    reg.insert(installed);
    assert!(!reg.should_download(&installed));
    assert!(reg.should_download(&missing));
}

#[test]
fn installed_version_never_invokes_engine() {
    let mut reg = VersionRegistry::new();
    let v = Version::parse("1.0.0").unwrap();
    reg.insert(v);
    let mut engine = DownloadEngine::new(v, Platform::Linux, Arch::X86_64);
    engine.attach_channel();
    let mut transport_calls: u32 = 0;
    if reg.should_download(&v) {
        let _ = engine.start();
        transport_calls += 1;
    }
    assert_eq!(transport_calls, 0);
    assert!(matches!(engine.phase, EnginePhase::Idle));
}

#[test]
fn from_strings_keeps_exactly_what_parses() {
    let names = vec![
        String::from("1.0.0"),
        String::from("junk"),
        String::from("v2.0.0-beta.3"),
        String::from("1.0.0"),
        String::from("1.0"),
    ];
    let reg = VersionRegistry::from_strings(&names);
    assert_eq!(reg.len(), 2);
    assert!(reg.contains(&Version::parse("1.0.0").unwrap()));
    assert!(reg.contains(&Version::parse("2.0.0-beta.3").unwrap()));
}

#[test]
fn sorted_desc_lists_most_recent_first() {
    let mut reg = VersionRegistry::new();
    let order = [
        "1.0.0-alpha",
        "2.0.0",
        "1.0.0-beta.2",
        "1.0.0",
        "1.0.0-beta.1",
    ];
    for s in order {
        reg.insert(Version::parse(s).unwrap());
    }
    let sorted = reg.sorted_desc();
    let rendered: Vec<String> = sorted.iter().map(|v| v.render()).collect();
    assert_eq!(
        rendered,
        vec!["2.0.0", "1.0.0", "1.0.0-beta.2", "1.0.0-beta.1", "1.0.0-alpha"]
    );
}

#[test]
fn can_launch_gates_on_installation_and_dependency() {
    let mut reg = VersionRegistry::new();
    let v = Version::parse("1.2.3").unwrap();
    assert_eq!(
        reg.can_launch(&v, Platform::Linux, true),
        Err(LaunchError::NotInstalled)
    );
    reg.insert(v);
    assert_eq!(
        reg.can_launch(&v, Platform::Windows, false),
        Err(LaunchError::DependencyMissing)
    );
    assert_eq!(reg.can_launch(&v, Platform::Windows, true), Ok(String::from("1.2.3.exe")));
    assert_eq!(reg.can_launch(&v, Platform::Linux, true), Ok(String::from("1.2.3")));
}
