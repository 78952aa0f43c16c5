//! Choosing and checking the official Ollama installer for this platform.

use vstd::prelude::*;
use crate::text::{
    all_hex, ascii_lowercase, concat2, concat3, decimal, decimal_string, first_index, index_of_char,
    is_hex, lower_seq, starts_with_seq, starts_with_str, str_eq, substring, trim, trim_ws,
};
use crate::weburl::{opt_view, parse_url, parsed_view, url_parse, ParsedUrl, UrlView};

verus! {

/// The largest installer download that is accepted: 3 GiB.
pub const MAX_DOWNLOAD_BYTES: u64 = 3221225472;

/// The smallest published installer size that is accepted: 100 MiB.
pub const MIN_INSTALLER_BYTES: u64 = 104857600;

/// A platform for which an official Ollama release asset exists.
#[derive(Clone, Copy, Debug, PartialEq, Eq, Structural)]
pub enum InstallerTarget {
    WindowsX64,
    Mac,
    LinuxX64,
    LinuxArm64,
}

impl InstallerTarget {
    /// The release asset's file name for this platform.
    pub open spec fn spec_asset_name(self) -> Seq<char> {
        match self {
            InstallerTarget::WindowsX64 => "OllamaSetup.exe"@,
            InstallerTarget::Mac => "Ollama-darwin.zip"@,
            InstallerTarget::LinuxX64 => "ollama-linux-amd64.tar.zst"@,
            InstallerTarget::LinuxArm64 => "ollama-linux-arm64.tar.zst"@,
        }
    }

    /// Whether a response's `Content-Type` header value fits this platform's asset.
    pub open spec fn accepts_content_type(self, content_type: Seq<char>) -> bool {
        let base = lower_seq(trim_ws(content_type.take(first_index(content_type, ';') as int)));
        let octet = base == "application/octet-stream"@;
        match self {
            InstallerTarget::WindowsX64 => octet,
            InstallerTarget::Mac => base == "application/zip"@ || octet,
            InstallerTarget::LinuxX64 => base == "application/zstd"@ || octet,
            InstallerTarget::LinuxArm64 => base == "application/zstd"@ || octet,
        }
    }

    /// The release asset's file name for this platform.
    pub fn asset_name(self) -> (r: &'static str)
        ensures
            r@ == self.spec_asset_name(),
    {
        match self {
            InstallerTarget::WindowsX64 => "OllamaSetup.exe",
            InstallerTarget::Mac => "Ollama-darwin.zip",
            InstallerTarget::LinuxX64 => "ollama-linux-amd64.tar.zst",
            InstallerTarget::LinuxArm64 => "ollama-linux-arm64.tar.zst",
        }
    }

    /// Whether `content_type` (its media type before any `;`, trimmed and in
    /// ASCII lowercase) is one this platform's download may have.
    pub fn expected_content_type(self, content_type: &str) -> (r: bool)
        ensures
            r == self.accepts_content_type(content_type@),
    {
        let end = index_of_char(content_type, ';');
        let first = substring(content_type, 0, end);
        let base = ascii_lowercase(trim(first.as_str()).as_str());
        let octet = str_eq(base.as_str(), "application/octet-stream");
        match self {
            InstallerTarget::WindowsX64 => octet,
            InstallerTarget::Mac => str_eq(base.as_str(), "application/zip") || octet,
            InstallerTarget::LinuxX64 => str_eq(base.as_str(), "application/zstd") || octet,
            InstallerTarget::LinuxArm64 => str_eq(base.as_str(), "application/zstd") || octet,
        }
    }
}

/// The platform for an operating system and architecture name, or the message
/// that explains why automatic installation is unsupported there.
pub open spec fn spec_installer_target(os: Seq<char>, arch: Seq<char>) -> Result<
    InstallerTarget,
    Seq<char>,
> {
    if os == "windows"@ && arch == "x86_64"@ {
        Ok(InstallerTarget::WindowsX64)
    } else if os == "macos"@ && (arch == "x86_64"@ || arch == "aarch64"@) {
        Ok(InstallerTarget::Mac)
    } else if os == "linux"@ && arch == "x86_64"@ {
        Ok(InstallerTarget::LinuxX64)
    } else if os == "linux"@ && arch == "aarch64"@ {
        Ok(InstallerTarget::LinuxArm64)
    } else if os == "windows"@ {
        Err("Automatic Ollama installation is not supported for Windows architecture '"@ + arch
            + "'."@)
    } else if os == "macos"@ {
        Err("Automatic Ollama installation is not supported for macOS architecture '"@ + arch
            + "'."@)
    } else if os == "linux"@ {
        Err("Automatic Ollama installation is not supported for Linux architecture '"@ + arch
            + "'."@)
    } else {
        Err("Automatic Ollama installation is not supported on '"@ + os + "'."@)
    }
}

/// The view of a result whose error is a string.
pub open spec fn result_view<T>(r: Result<T, String>) -> Result<T, Seq<char>> {
    match r {
        Ok(t) => Ok(t),
        Err(e) => Err(e@),
    }
}

/// The installer platform for `os` and `arch` (as `std::env::consts` names them).
pub fn installer_target(os: &str, arch: &str) -> (r: Result<InstallerTarget, String>)
    ensures
        result_view(r) == spec_installer_target(os@, arch@),
{
    let windows = str_eq(os, "windows");
    let macos = str_eq(os, "macos");
    let linux = str_eq(os, "linux");
    let x86 = str_eq(arch, "x86_64");
    let arm = str_eq(arch, "aarch64");
    if windows && x86 {
        Ok(InstallerTarget::WindowsX64)
    } else if macos && (x86 || arm) {
        Ok(InstallerTarget::Mac)
    } else if linux && x86 {
        Ok(InstallerTarget::LinuxX64)
    } else if linux && arm {
        Ok(InstallerTarget::LinuxArm64)
    } else if windows {
        Err(
            concat3(
                "Automatic Ollama installation is not supported for Windows architecture '",
                arch,
                "'.",
            ),
        )
    } else if macos {
        Err(
            concat3(
                "Automatic Ollama installation is not supported for macOS architecture '",
                arch,
                "'.",
            ),
        )
    } else if linux {
        Err(
            concat3(
                "Automatic Ollama installation is not supported for Linux architecture '",
                arch,
                "'.",
            ),
        )
    } else {
        Err(concat3("Automatic Ollama installation is not supported on '", os, "'."))
    }
}

/// Every platform that has an official installer gets it: Windows on
/// x86_64, macOS on either x86_64 or aarch64 (one installer serves both),
/// and Linux on x86_64 and on aarch64. Every other pair is refused.
pub proof fn law_installer_platforms(os: Seq<char>, arch: Seq<char>)
    ensures
        (os == "windows"@ && arch == "x86_64"@) ==> spec_installer_target(os, arch) == Ok::<
            InstallerTarget,
            Seq<char>,
        >(InstallerTarget::WindowsX64),
        (os == "macos"@ && (arch == "x86_64"@ || arch == "aarch64"@)) ==> spec_installer_target(
            os,
            arch,
        ) == Ok::<InstallerTarget, Seq<char>>(InstallerTarget::Mac),
        (os == "linux"@ && arch == "x86_64"@) ==> spec_installer_target(os, arch) == Ok::<
            InstallerTarget,
            Seq<char>,
        >(InstallerTarget::LinuxX64),
        (os == "linux"@ && arch == "aarch64"@) ==> spec_installer_target(os, arch) == Ok::<
            InstallerTarget,
            Seq<char>,
        >(InstallerTarget::LinuxArm64),
        spec_installer_target(os, arch) is Ok ==> {
            ||| (os == "windows"@ && arch == "x86_64"@)
            ||| (os == "macos"@ && (arch == "x86_64"@ || arch == "aarch64"@))
            ||| (os == "linux"@ && (arch == "x86_64"@ || arch == "aarch64"@))
        },
{
    reveal_strlit("windows");
    reveal_strlit("macos");
    reveal_strlit("linux");
    reveal_strlit("x86_64");
    reveal_strlit("aarch64");
    assert("windows"@ != "macos"@) by {
        assert("windows"@.len() != "macos"@.len());
    }
    assert("linux"@ != "macos"@) by {
        assert("linux"@[0] != "macos"@[0]);
    }
    assert("linux"@ != "windows"@) by {
        assert("linux"@.len() != "windows"@.len());
    }
    assert("x86_64"@ != "aarch64"@) by {
        assert("x86_64"@.len() != "aarch64"@.len());
    }
}


/// One asset of a GitHub release, as the release API describes it.
#[derive(Debug, Clone)]
pub struct ReleaseAsset {
    pub name: String,
    pub size: u64,
    pub digest: Option<String>,
    pub browser_download_url: String,
}

/// A GitHub release: its tag and its assets.
#[derive(Debug, Clone)]
pub struct Release {
    pub tag_name: String,
    pub assets: Vec<ReleaseAsset>,
}

/// The prefix of a published SHA-256 digest.
pub open spec fn sha256_prefix() -> Seq<char> {
    "sha256:"@
}

/// Whether a published digest is acceptable, or the message that rejects it.
pub open spec fn digest_check(digest: Seq<char>) -> Result<(), Seq<char>> {
    if !starts_with_seq(digest, sha256_prefix()) {
        Err("The Ollama release published an unsupported checksum format."@)
    } else {
        let hash = digest.skip(sha256_prefix().len() as int);
        if hash.len() != 64 || !(forall|i: int| 0 <= i < hash.len() ==> is_hex(#[trigger] hash[i])) {
            Err("The Ollama release published an invalid SHA-256 checksum."@)
        } else {
            Ok(())
        }
    }
}

/// The outcome of checking a release asset for `target`: its download URL when
/// the name, size, URL and digest are acceptable, or the first problem found.
pub open spec fn spec_validate_release_asset(target: InstallerTarget, asset: ReleaseAsset) -> Result<
    UrlView,
    Seq<char>,
> {
    if asset.name@ != target.spec_asset_name() {
        Err("Ollama release did not contain the expected "@ + target.spec_asset_name()
            + " asset."@)
    } else if asset.size < MIN_INSTALLER_BYTES || asset.size > MAX_DOWNLOAD_BYTES {
        Err("The published Ollama installer size ("@ + decimal(asset.size as nat)
            + " bytes) is outside the allowed range."@)
    } else {
        asset_url_check(asset, url_parse(asset.browser_download_url@))
    }
}

/// The outcome of checking an asset whose download URL parsed as `parsed`:
/// the URL when it is HTTPS under `github.com/ollama/ollama/releases/download/`
/// and the digest, when published, is well formed; or the first problem.
pub open spec fn asset_url_check(asset: ReleaseAsset, parsed: Result<UrlView, Seq<char>>) -> Result<
    UrlView,
    Seq<char>,
> {
    match parsed {
        Err(e) => Err("Invalid Ollama release URL: "@ + e),
        Ok(u) => if u.scheme != "https"@ || u.host != Some("github.com"@) || !starts_with_seq(
            u.path,
            "/ollama/ollama/releases/download/"@,
        ) {
            Err("The Ollama release asset did not use the expected HTTPS GitHub URL."@)
        } else {
            match asset.digest {
                None => Ok(u),
                Some(d) => match digest_check(d@) {
                    Ok(_) => Ok(u),
                    Err(e) => Err(e),
                },
            }
        },
    }
}

/// Whether an optional string is present and equal to `s`.
fn opt_str_eq(o: &Option<String>, s: &str) -> (r: bool)
    ensures
        r == (opt_view(*o) == Some(s@)),
{
    match o {
        Some(v) => str_eq(v.as_str(), s),
        None => false,
    }
}

/// Checks a published digest's format: `sha256:` and 64 hexadecimal digits.
fn check_digest(digest: &str) -> (r: Result<(), String>)
    ensures
        result_view(r) == digest_check(digest@),
{
    if !starts_with_str(digest, "sha256:") {
        return Err(String::from_str("The Ollama release published an unsupported checksum format."));
    }
    let plen = "sha256:".unicode_len();
    let n = digest.unicode_len();
    let hash = substring(digest, plen, n);
    proof {
        assert(hash@ =~= digest@.skip(sha256_prefix().len() as int));
    }
    if hash.unicode_len() != 64 || !all_hex(hash.as_str()) {
        return Err(String::from_str("The Ollama release published an invalid SHA-256 checksum."));
    }
    Ok(())
}

/// Checks that `asset` is the official installer for `target`: the expected
/// name, a size between 100 MiB and 3 GiB, an HTTPS download URL under
/// `github.com/ollama/ollama/releases/download/`, and a well-formed digest when
/// one is published. Returns the parsed download URL.
pub fn validate_release_asset(target: InstallerTarget, asset: &ReleaseAsset) -> (r: Result<
    ParsedUrl,
    String,
>)
    ensures
        match r {
            Ok(u) => spec_validate_release_asset(target, *asset) == Ok::<UrlView, Seq<char>>(u@),
            Err(e) => spec_validate_release_asset(target, *asset) == Err::<UrlView, Seq<char>>(e@),
        },
{
    let name = target.asset_name();
    if !str_eq(asset.name.as_str(), name) {
        return Err(concat3("Ollama release did not contain the expected ", name, " asset."));
    }
    if asset.size < MIN_INSTALLER_BYTES || asset.size > MAX_DOWNLOAD_BYTES {
        let size = decimal_string(asset.size as u128);
        return Err(
            concat3(
                "The published Ollama installer size (",
                size.as_str(),
                " bytes) is outside the allowed range.",
            ),
        );
    }
    let parsed = parse_url(asset.browser_download_url.as_str());
    check_release_url(asset, parsed)
}

/// Checks an asset whose download URL parsed as `parsed`: an HTTPS URL under
/// `github.com/ollama/ollama/releases/download/`, and a well-formed digest
/// when one is published. Returns the parsed URL.
pub fn check_release_url(asset: &ReleaseAsset, parsed: Result<ParsedUrl, String>) -> (r: Result<
    ParsedUrl,
    String,
>)
    ensures
        match r {
            Ok(u) => asset_url_check(*asset, parsed_view(parsed)) == Ok::<UrlView, Seq<char>>(u@),
            Err(e) => asset_url_check(*asset, parsed_view(parsed)) == Err::<UrlView, Seq<char>>(e@),
        },
{
    let url = match parsed {
        Ok(url) => url,
        Err(error) => {
            return Err(concat2("Invalid Ollama release URL: ", error.as_str()));
        },
    };
    if !str_eq(url.scheme.as_str(), "https") || !opt_str_eq(&url.host, "github.com")
        || !starts_with_str(url.path.as_str(), "/ollama/ollama/releases/download/") {
        return Err(
            String::from_str("The Ollama release asset did not use the expected HTTPS GitHub URL."),
        );
    }
    match &asset.digest {
        None => {},
        Some(d) => {
            match check_digest(d.as_str()) {
                Ok(()) => {},
                Err(e) => {
                    return Err(e);
                },
            }
        },
    }
    Ok(url)
}


impl ReleaseAsset {
    /// A field-by-field copy of this asset.
    pub fn duplicate(&self) -> (r: ReleaseAsset)
        ensures
            r == *self,
    {
        ReleaseAsset {
            name: self.name.clone(),
            size: self.size,
            digest: match &self.digest {
                Some(d) => Some(d.clone()),
                None => None,
            },
            browser_download_url: self.browser_download_url.clone(),
        }
    }
}

/// The index of the first asset named `name`, or the number of assets.
pub open spec fn find_asset(assets: Seq<ReleaseAsset>, name: Seq<char>) -> nat
    decreases assets.len(),
{
    if assets.len() == 0 {
        0
    } else if assets[0].name@ == name {
        0
    } else {
        1 + find_asset(assets.drop_first(), name)
    }
}

proof fn lemma_find_asset(assets: Seq<ReleaseAsset>, name: Seq<char>)
    ensures
        find_asset(assets, name) <= assets.len(),
        find_asset(assets, name) < assets.len() ==> assets[find_asset(assets, name) as int].name@
            == name,
        forall|i: int| 0 <= i < find_asset(assets, name) ==> assets[i].name@ != name,
    decreases assets.len(),
{
    if assets.len() > 0 && assets[0].name@ != name {
        lemma_find_asset(assets.drop_first(), name);
        assert forall|i: int| 0 <= i < find_asset(assets, name) implies assets[i].name@ != name by {
            if i > 0 {
                assert(assets[i] == assets.drop_first()[i - 1]);
            }
        }
    }
}

/// What choosing the installer from a release gives: the release tag with the
/// first asset named for `target` when that asset is acceptable, or the message
/// that explains why there is none.
pub open spec fn spec_select_release_asset(release: Release, target: InstallerTarget) -> Result<
    (String, ReleaseAsset),
    Seq<char>,
> {
    let assets = release.assets@;
    let i = find_asset(assets, target.spec_asset_name());
    if i >= assets.len() {
        Err("The latest Ollama release does not include "@ + target.spec_asset_name() + "."@)
    } else {
        match spec_validate_release_asset(target, assets[i as int]) {
            Err(e) => Err(e),
            Ok(_) => Ok((release.tag_name, assets[i as int])),
        }
    }
}

/// Picks the installer for `target` out of a release's assets and checks it.
pub fn select_release_asset(release: &Release, target: InstallerTarget) -> (r: Result<
    (String, ReleaseAsset),
    String,
>)
    ensures
        result_view(r) == spec_select_release_asset(*release, target),
{
    let name = target.asset_name();
    let n = release.assets.len();
    let mut i: usize = 0;
    proof {
        assert(release.assets@.skip(0) =~= release.assets@);
        lemma_find_asset(release.assets@, name@);
    }
    while i < n && !str_eq(release.assets[i].name.as_str(), name)
        invariant
            n == release.assets@.len(),
            i <= n,
            find_asset(release.assets@, name@) == i + find_asset(
                release.assets@.skip(i as int),
                name@,
            ),
        decreases n - i,
    {
        proof {
            assert(release.assets@.skip(i as int).drop_first() =~= release.assets@.skip(i + 1));
        }
        i = i + 1;
    }
    if i == n {
        return Err(concat3("The latest Ollama release does not include ", name, "."));
    }
    let asset = &release.assets[i];
    match validate_release_asset(target, asset) {
        Err(e) => Err(e),
        Ok(_) => Ok((release.tag_name.clone(), asset.duplicate())),
    }
}

/// Why a download response is unacceptable, if it is: it must come from an
/// HTTPS GitHub host, carry a content type that fits `target`, and announce no
/// length other than the asset's published size.
pub open spec fn spec_check_download_response(
    target: InstallerTarget,
    asset_size: u64,
    final_url: UrlView,
    content_type: Seq<char>,
    content_length: Option<u64>,
) -> Result<(), Seq<char>> {
    if final_url.scheme != "https"@ || !(final_url.host == Some("github.com"@) || final_url.host
        == Some("release-assets.githubusercontent.com"@) || final_url.host == Some(
        "objects.githubusercontent.com"@,
    )) {
        Err("The Ollama download redirected to an unexpected URL."@)
    } else if !target.accepts_content_type(content_type) {
        Err("The Ollama download returned unexpected content type '"@ + content_type + "'."@)
    } else if content_length matches Some(length) && (length != asset_size || length
        > MAX_DOWNLOAD_BYTES) {
        Err("The Ollama download size did not match the published release asset."@)
    } else {
        Ok(())
    }
}

/// Checks a download response before its body is read: where it was finally
/// served from, its `Content-Type` (empty when absent) and its announced length.
pub fn check_download_response(
    target: InstallerTarget,
    asset: &ReleaseAsset,
    final_url: &ParsedUrl,
    content_type: &str,
    content_length: Option<u64>,
) -> (r: Result<(), String>)
    ensures
        result_view(r) == spec_check_download_response(
            target,
            asset.size,
            final_url@,
            content_type@,
            content_length,
        ),
{
    if !str_eq(final_url.scheme.as_str(), "https") || !(opt_str_eq(&final_url.host, "github.com")
        || opt_str_eq(&final_url.host, "release-assets.githubusercontent.com") || opt_str_eq(
        &final_url.host,
        "objects.githubusercontent.com",
    )) {
        return Err(String::from_str("The Ollama download redirected to an unexpected URL."));
    }
    if !target.expected_content_type(content_type) {
        return Err(
            concat3("The Ollama download returned unexpected content type '", content_type, "'."),
        );
    }
    match content_length {
        Some(length) => {
            if length != asset.size || length > MAX_DOWNLOAD_BYTES {
                return Err(
                    String::from_str(
                        "The Ollama download size did not match the published release asset.",
                    ),
                );
            }
        },
        None => {},
    }
    Ok(())
}

/// The message reported after a successful install of `release_tag`.
pub open spec fn spec_installed_message(release_tag: Seq<char>, checksum_verified: bool) -> Seq<
    char,
> {
    if checksum_verified {
        "Ollama "@ + release_tag
            + " was installed. Its downloaded release asset passed the published SHA-256 check."@
    } else {
        "Ollama "@ + release_tag
            + " was installed over HTTPS and passed content-type and size checks. The release did not publish a SHA-256 digest, so the download could not be checksum-verified."@
    }
}

/// The message reported after a successful install, which says whether the
/// download was checked against a published SHA-256 digest.
pub fn installed_message(release_tag: &str, checksum_verified: bool) -> (r: String)
    ensures
        r@ == spec_installed_message(release_tag@, checksum_verified),
{
    if checksum_verified {
        concat3(
            "Ollama ",
            release_tag,
            " was installed. Its downloaded release asset passed the published SHA-256 check.",
        )
    } else {
        concat3(
            "Ollama ",
            release_tag,
            " was installed over HTTPS and passed content-type and size checks. The release did not publish a SHA-256 digest, so the download could not be checksum-verified.",
        )
    }
}

} // verus!
