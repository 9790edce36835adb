use mineplace_launcher::version::ParseError;
use mineplace_launcher::version::Version;
use mineplace_launcher::version::VersionStage;

fn mk(major: u32, minor: u32, patch: u32, stage: VersionStage, build: u32) -> Version {
    Version { major, minor, patch, stage, build }
}

#[test]
fn parse_plain_release() {
    assert_eq!(
        Version::parse("1.0.0"),
        Ok(mk(1, 0, 0, VersionStage::Release, 0))
    );
}

#[test]
fn parse_trims_whitespace_and_marker() {
    assert_eq!(
        Version::parse("  v1.2.3 \n"),
        Ok(mk(1, 2, 3, VersionStage::Release, 0))
    );
    assert_eq!(
        Version::parse("vv2.0.0"),
        Ok(mk(2, 0, 0, VersionStage::Release, 0))
    );
}

#[test]
fn parse_trims_all_unicode_whitespace() {
    assert_eq!(
        Version::parse("\u{0C}1.0.0\u{0C}"),
        Ok(mk(1, 0, 0, VersionStage::Release, 0))
    );
    assert_eq!(
        Version::parse("\u{A0}\u{2003}v2.0.0\u{3000}"),
        Ok(mk(2, 0, 0, VersionStage::Release, 0))
    );
}

#[test]
fn parse_stage_without_build() {
    assert_eq!(
        Version::parse("0.3.0-alpha"),
        Ok(mk(0, 3, 0, VersionStage::Alpha, 0))
    );
    assert_eq!(
        Version::parse("0.3.0-beta"),
        Ok(mk(0, 3, 0, VersionStage::Beta, 0))
    );
    assert_eq!(
        Version::parse("0.3.0-release"),
        Ok(mk(0, 3, 0, VersionStage::Release, 0))
    );
}

#[test]
fn parse_stage_with_build() {
    assert_eq!(
        Version::parse("0.3.0-alpha.1"),
        Ok(mk(0, 3, 0, VersionStage::Alpha, 1))
    );
    assert_eq!(
        Version::parse("1.0.0-release.5"),
        Ok(mk(1, 0, 0, VersionStage::Release, 5))
    );
}

#[test]
fn parse_ignores_tokens_past_build() {
    assert_eq!(
        Version::parse("1.0.0-beta.1.9"),
        Ok(mk(1, 0, 0, VersionStage::Beta, 1))
    );
}

#[test]
fn parse_accepts_leading_zeros() {
    assert_eq!(
        Version::parse("01.002.0"),
        Ok(mk(1, 2, 0, VersionStage::Release, 0))
    );
}

#[test]
fn parse_accepts_u32_max() {
    assert_eq!(
        Version::parse("4294967295.0.0"),
        Ok(mk(4294967295, 0, 0, VersionStage::Release, 0))
    );
}

#[test]
fn reject_empty() {
    assert_eq!(Version::parse(""), Err(ParseError::EmptyInput));
    assert_eq!(Version::parse("  v "), Err(ParseError::EmptyInput));
}

#[test]
fn reject_two_part_core() {
    assert_eq!(Version::parse("1.0"), Err(ParseError::NotThreePart));
    assert_eq!(Version::parse("1.0.0.0"), Err(ParseError::NotThreePart));
}

#[test]
fn reject_unknown_stage() {
    assert_eq!(Version::parse("1.0.0-gamma"), Err(ParseError::BadStage));
    assert_eq!(Version::parse("1.0.0-Alpha"), Err(ParseError::BadStage));
    assert_eq!(Version::parse("1.0.0-"), Err(ParseError::BadStage));
}

#[test]
fn reject_bad_build() {
    assert_eq!(Version::parse("1.0.0-beta.x"), Err(ParseError::BadBuild));
    assert_eq!(Version::parse("1.0.0-beta."), Err(ParseError::BadBuild));
}

#[test]
fn reject_bad_fields() {
    assert_eq!(Version::parse("x.0.0"), Err(ParseError::BadMajor));
    assert_eq!(Version::parse("1.y.0"), Err(ParseError::BadMinor));
    assert_eq!(Version::parse("1.0.z"), Err(ParseError::BadPatch));
    assert_eq!(Version::parse("1..0"), Err(ParseError::BadMinor));
    assert_eq!(Version::parse("4294967296.0.0"), Err(ParseError::BadMajor));
}

#[test]
fn render_canonical_forms() {
    assert_eq!(mk(1, 0, 0, VersionStage::Release, 0).render(), "1.0.0");
    assert_eq!(mk(0, 3, 0, VersionStage::Alpha, 0).render(), "0.3.0-alpha");
    assert_eq!(mk(0, 3, 0, VersionStage::Beta, 2).render(), "0.3.0-beta.2");
    assert_eq!(mk(1, 0, 0, VersionStage::Release, 5).render(), "1.0.0-release.5");
    assert_eq!(
        mk(4294967295, 10, 20, VersionStage::Release, 0).render(),
        "4294967295.10.20"
    );
}

#[test]
fn render_parse_round_trip() {
    let samples = vec![
        mk(0, 0, 0, VersionStage::Alpha, 0),
        mk(1, 0, 0, VersionStage::Release, 0),
        mk(1, 2, 3, VersionStage::Beta, 42),
        mk(9, 9, 9, VersionStage::Release, 7),
        mk(4294967295, 4294967295, 4294967295, VersionStage::Alpha, 4294967295),
    ];
    for v in samples {
        assert_eq!(Version::parse(&v.render()), Ok(v));
    }
}

#[test]
fn order_release_above_prerelease() {
    let release = Version::parse("1.0.0").unwrap();
    let alpha = Version::parse("1.0.0-alpha").unwrap();
    let beta = Version::parse("1.0.0-beta").unwrap();
    assert!(!release.precedes(&beta));
    assert!(alpha.precedes(&beta));
    assert!(beta.precedes(&release));
    assert!(!(release < beta));
    assert!(alpha < beta);
    assert!(beta < release);
}

#[test]
fn order_build_tiebreak() {
    let one = Version::parse("1.0.0-beta.1").unwrap();
    let two = Version::parse("1.0.0-beta.2").unwrap();
    assert!(one.precedes(&two));
    assert!(one < two);
    assert!(!two.precedes(&one));
}

#[test]
fn order_lexicographic_fields() {
    let a = Version::parse("1.9.9-release.9").unwrap();
    let b = Version::parse("2.0.0-alpha").unwrap();
    assert!(a.precedes(&b));
    assert_eq!(a.compare(&b), std::cmp::Ordering::Less);
    assert_eq!(b.compare(&a), std::cmp::Ordering::Greater);
    assert_eq!(a.compare(&a), std::cmp::Ordering::Equal);
}

#[test]
fn parse_errors_name_their_field() {
    assert_eq!(
        Version::parse("").unwrap_err().message(),
        "Version string cannot be empty"
    );
    assert_eq!(
        Version::parse("1.0").unwrap_err().message(),
        "Version must be in the format major.minor.patch"
    );
    assert_eq!(
        Version::parse("a.0.0").unwrap_err().message(),
        "Invalid major version"
    );
    assert_eq!(
        Version::parse("1.0.0-gamma").unwrap_err().message(),
        "Invalid version stage"
    );
    assert_eq!(
        Version::parse("1.0.0-beta.x").unwrap_err().message(),
        "Invalid build number"
    );
}

#[test]
fn default_version() {
    assert_eq!(
        Version::default(),
        mk(0, 2, 2, VersionStage::Release, 0)
    );
    assert_eq!(VersionStage::default(), VersionStage::Release);
}
