use mineplace_launcher::resolver::Arch;
use mineplace_launcher::resolver::Asset;
use mineplace_launcher::resolver::MetadataFault;
use mineplace_launcher::resolver::Platform;
use mineplace_launcher::resolver::asset_filename;
use mineplace_launcher::resolver::install_filename;
use mineplace_launcher::resolver::metadata_url;
use mineplace_launcher::resolver::parse_release_assets;
use mineplace_launcher::resolver::release_tag;
use mineplace_launcher::resolver::resolve_asset;
use mineplace_launcher::version::Version;

#[test]
fn asset_filename_per_target() {
    assert_eq!(asset_filename(Platform::Linux, Arch::X86_64), "mineplace3d-linux-x86_64");
    assert_eq!(
        asset_filename(Platform::Windows, Arch::X86_64),
        "mineplace3d-windows-x86_64.exe"
    );
    assert_eq!(
        asset_filename(Platform::Macos, Arch::Aarch64),
        "mineplace3d-macos-aarch64.app"
    );
    assert_eq!(
        asset_filename(Platform::Unknown, Arch::Unknown),
        "mineplace3d-unknown-unknown"
    );
}

#[test]
fn release_tag_prefixes_v() {
    let v = Version::parse("0.3.0-alpha.1").unwrap();
    assert_eq!(release_tag(&v), "v0.3.0-alpha.1");
}

#[test]
fn metadata_url_addresses_tag() {
    let v = Version::parse("1.2.3").unwrap();
    assert_eq!(
        metadata_url(&v),
        "https://api.github.com/repos/Muhtasim-Rasheed/mineplace3d/releases/tags/v1.2.3"
    );
}

#[test]
fn install_filename_per_platform() {
    let v = Version::parse("1.2.3-beta.4").unwrap();
    assert_eq!(install_filename(&v, Platform::Linux), "1.2.3-beta.4");
    assert_eq!(install_filename(&v, Platform::Windows), "1.2.3-beta.4.exe");
    assert_eq!(install_filename(&v, Platform::Macos), "1.2.3-beta.4.app");
}

#[test]
fn asset_match_selects_platform_asset_only() {
    let assets = vec![
        Asset {
            name: String::from("mineplace3d-windows-x86_64.exe"),
            url: Some(String::from("https://example.invalid/windows")),
        },
        Asset {
            name: String::from("mineplace3d-linux-x86_64"),
            url: Some(String::from("https://example.invalid/linux")),
        },
    ];
    let expected = asset_filename(Platform::Linux, Arch::X86_64);
    assert_eq!(resolve_asset(&assets, &expected), Some(1));
}

#[test]
fn asset_match_finds_nothing_for_unknown_target() {
    let assets = vec![
        Asset {
            name: String::from("mineplace3d-linux-x86_64"),
            url: None,
        },
    ];
    let expected = asset_filename(Platform::Unknown, Arch::Unknown);
    assert_eq!(resolve_asset(&assets, &expected), None);
}

#[test]
fn asset_match_takes_first_of_equals() {
    let assets = vec![
        Asset {
            name: String::from("mineplace3d-linux-x86_64"),
            url: Some(String::from("first")),
        },
        Asset {
            name: String::from("mineplace3d-linux-x86_64"),
            url: Some(String::from("second")),
        },
    ];
    let expected = asset_filename(Platform::Linux, Arch::X86_64);
    assert_eq!(resolve_asset(&assets, &expected), Some(0));
}

#[test]
fn metadata_parsing_reads_names_and_urls() {
    let body = "{\"assets\": [\
        {\"name\": \"a-one\", \"browser_download_url\": \"https://example.invalid/one\"},\
        {\"name\": \"a-two\"},\
        {\"name\": 7},\
        {\"browser_download_url\": \"https://example.invalid/orphan\"}\
    ]}";
    let assets = parse_release_assets(body).unwrap();
    assert_eq!(assets.len(), 2);
    assert_eq!(assets[0].name, "a-one");
    assert_eq!(assets[0].url.as_deref(), Some("https://example.invalid/one"));
    assert_eq!(assets[1].name, "a-two");
    assert_eq!(assets[1].url, None);
}

#[test]
fn metadata_parsing_reports_faults() {
    assert_eq!(parse_release_assets("not json"), Err(MetadataFault::NotJson));
    assert_eq!(parse_release_assets("{}"), Err(MetadataFault::NoAssets));
    assert_eq!(
        parse_release_assets("{\"assets\": 3}"),
        Err(MetadataFault::NoAssets)
    );
    assert_eq!(parse_release_assets("{\"assets\": []}"), Ok(vec![]));
}
