//! The asset resolver: turns a version and the running platform and
//! architecture into the release-metadata URL and the expected asset
//! filename, and picks the matching asset out of a release's asset list.

use vstd::prelude::*;
use vstd::string::StringExecFns;
use crate::version::Version;
use crate::version::render_spec;

verus! {

/// The platforms the resolver distinguishes. Anything else resolves to a
/// deterministic `unknown` token rather than failing.
#[derive(Debug, Clone, Copy, PartialEq, Eq, Structural)]
pub enum Platform {
    Linux,
    Windows,
    Macos,
    Unknown,
}

/// The architectures the resolver distinguishes.
#[derive(Debug, Clone, Copy, PartialEq, Eq, Structural)]
pub enum Arch {
    X86_64,
    Aarch64,
    Unknown,
}

/// The platform token used in asset filenames.
pub open spec fn platform_token(p: Platform) -> Seq<char> {
    match p {
        Platform::Linux => "linux"@,
        Platform::Windows => "windows"@,
        Platform::Macos => "macos"@,
        Platform::Unknown => "unknown"@,
    }
}

/// The architecture token used in asset filenames.
pub open spec fn arch_token(a: Arch) -> Seq<char> {
    match a {
        Arch::X86_64 => "x86_64"@,
        Arch::Aarch64 => "aarch64"@,
        Arch::Unknown => "unknown"@,
    }
}

/// The platform-specific executable suffix: `.exe` on Windows, `.app` on
/// macOS, nothing elsewhere.
pub open spec fn suffix_token(p: Platform) -> Seq<char> {
    match p {
        Platform::Windows => ".exe"@,
        Platform::Macos => ".app"@,
        Platform::Linux => ""@,
        Platform::Unknown => ""@,
    }
}

/// The expected asset filename: the product prefix, platform, architecture,
/// and the platform suffix.
pub open spec fn asset_name_spec(p: Platform, a: Arch) -> Seq<char> {
    "mineplace3d-"@ + platform_token(p) + "-"@ + arch_token(a) + suffix_token(p)
}

/// The release tag addressing a version remotely: `v` before the canonical
/// form.
pub open spec fn release_tag_spec(v: Version) -> Seq<char> {
    "v"@ + render_spec(v)
}

/// The release-metadata endpoint for a version's tag.
pub open spec fn metadata_url_spec(v: Version) -> Seq<char> {
    "https://api.github.com/repos/Muhtasim-Rasheed/mineplace3d/releases/tags/"@ + release_tag_spec(
        v,
    )
}

/// The filename an installed version's binary carries: the canonical form
/// plus the platform suffix.
pub open spec fn install_name_spec(v: Version, p: Platform) -> Seq<char> {
    render_spec(v) + suffix_token(p)
}

/// The platform token as a string slice.
fn platform_str(p: Platform) -> (r: &'static str)
    ensures
        r@ == platform_token(p),
{
    match p {
        Platform::Linux => "linux",
        Platform::Windows => "windows",
        Platform::Macos => "macos",
        Platform::Unknown => "unknown",
    }
}

/// The architecture token as a string slice.
fn arch_str(a: Arch) -> (r: &'static str)
    ensures
        r@ == arch_token(a),
{
    match a {
        Arch::X86_64 => "x86_64",
        Arch::Aarch64 => "aarch64",
        Arch::Unknown => "unknown",
    }
}

/// The platform suffix as a string slice.
fn suffix_str(p: Platform) -> (r: &'static str)
    ensures
        r@ == suffix_token(p),
{
    match p {
        Platform::Windows => ".exe",
        Platform::Macos => ".app",
        Platform::Linux => "",
        Platform::Unknown => "",
    }
}

/// The expected asset filename for a platform and architecture.
pub fn asset_filename(p: Platform, a: Arch) -> (r: String)
    ensures
        r@ == asset_name_spec(p, a),
{
    let mut out = String::from_str("mineplace3d-");
    out.append(platform_str(p));
    out.append("-");
    out.append(arch_str(a));
    out.append(suffix_str(p));
    out
}

/// The release tag for a version: `v` plus its canonical form.
pub fn release_tag(v: &Version) -> (r: String)
    ensures
        r@ == release_tag_spec(*v),
{
    let mut out = String::from_str("v");
    let rendered = v.render();
    out.append(rendered.as_str());
    out
}

/// The release-metadata URL for a version.
pub fn metadata_url(v: &Version) -> (r: String)
    ensures
        r@ == metadata_url_spec(*v),
{
    let mut out = String::from_str(
        "https://api.github.com/repos/Muhtasim-Rasheed/mineplace3d/releases/tags/",
    );
    let tag = release_tag(v);
    out.append(tag.as_str());
    out
}

/// The filename under which a version's binary is installed.
pub fn install_filename(v: &Version, p: Platform) -> (r: String)
    ensures
        r@ == install_name_spec(*v, p),
{
    let mut out = v.render();
    out.append(suffix_str(p));
    out
}

/// A downloadable artifact attached to a release record: its name, and its
/// download URL when the metadata carried one.
#[derive(Debug, Clone, PartialEq, Eq)]
pub struct Asset {
    pub name: String,
    pub url: Option<String>,
}

/// The mathematical content of an [`Asset`].
pub struct AssetModel {
    pub name: Seq<char>,
    pub url: Option<Seq<char>>,
}

impl View for Asset {
    type V = AssetModel;

    open spec fn view(&self) -> AssetModel {
        AssetModel {
            name: self.name@,
            url: match self.url {
                Some(u) => Some(u@),
                None => None,
            },
        }
    }
}

/// The contents of a vector of assets.
pub open spec fn assets_view(v: Seq<Asset>) -> Seq<AssetModel> {
    v.map_values(|a: Asset| a@)
}

/// Why a metadata body yields no asset list.
#[derive(Debug, Clone, Copy, PartialEq, Eq, Structural)]
pub enum MetadataFault {
    /// The body is not valid JSON.
    NotJson,
    /// The body carries no `assets` array.
    NoAssets,
}

/// The asset list a release-metadata body describes, or the fault it has: a
/// function of the body alone, left unstated here; `parse_release_assets`
/// computes it.
pub uninterp spec fn metadata_assets(body: Seq<char>) -> Result<Seq<AssetModel>, MetadataFault>;

/// Relies on serde_json (`from_str`, `Value::get`, `as_array`, `as_str`):
/// parses the metadata body and reads its `assets` array, keeping each
/// entry's `name` and `browser_download_url` strings. An entry whose name is
/// not a string is left out: no expected filename could ever equal it. The
/// result is a function of the body alone, named [`metadata_assets`].
#[verifier::external_body]
pub fn parse_release_assets(body: &str) -> (r: Result<Vec<Asset>, MetadataFault>)
    ensures
        match r {
            Ok(v) => metadata_assets(body@) == Ok::<Seq<AssetModel>, MetadataFault>(
                assets_view(v@),
            ),
            Err(e) => metadata_assets(body@) == Err::<Seq<AssetModel>, MetadataFault>(e),
        },
{
    let doc: serde_json::Value = serde_json::from_str(body).map_err(|_| MetadataFault::NotJson)?;
    let arr = doc.get("assets").and_then(|v| v.as_array()).ok_or(MetadataFault::NoAssets)?;
    let mut out = Vec::new();
    for item in arr {
        if let Some(name) = item.get("name").and_then(|n| n.as_str()) {
            let url = item.get("browser_download_url").and_then(|u| u.as_str());
            out.push(Asset { name: name.to_string(), url: url.map(|u| u.to_string()) });
        }
    }
    Ok(out)
}

/// Linear scan for the asset whose name equals the expected filename: the
/// first match, and `None` exactly when no name matches.
pub fn resolve_asset(assets: &Vec<Asset>, name: &String) -> (r: Option<usize>)
    ensures
        match r {
            Some(i) => i < assets@.len() && assets@[i as int]@.name == name@ && (forall|k: int|
                0 <= k < i ==> assets@[k]@.name != name@),
            None => forall|k: int| 0 <= k < assets@.len() ==> assets@[k]@.name != name@,
        },
{
    let mut i: usize = 0;
    while i < assets.len()
        invariant
            i <= assets@.len(),
            forall|k: int| 0 <= k < i ==> assets@[k]@.name != name@,
        decreases assets@.len() - i,
    {
        if assets[i].name.eq(name) {
            return Some(i);
        }
        i = i + 1;
    }
    None
}

} // verus!
