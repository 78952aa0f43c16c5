use legion::download::DownloadCheck;
use legion::installer::{
    check_download_response, check_release_url, installed_message, installer_target, select_release_asset,
    validate_release_asset, InstallerTarget, Release, ReleaseAsset,
};
use legion::weburl::ParsedUrl;

fn https_url(host: &str, path: &str) -> ParsedUrl {
    ParsedUrl {
        scheme: "https".to_owned(),
        host: Some(host.to_owned()),
        path: path.to_owned(),
        query: None,
        fragment: None,
    }
}

#[test]
fn selects_official_release_asset_for_supported_platforms() {
    assert_eq!(
        installer_target("windows", "x86_64"),
        Ok(InstallerTarget::WindowsX64)
    );
    assert_eq!(installer_target("macos", "aarch64"), Ok(InstallerTarget::Mac));
    assert_eq!(
        installer_target("linux", "x86_64"),
        Ok(InstallerTarget::LinuxX64)
    );
    assert_eq!(
        installer_target("linux", "aarch64"),
        Ok(InstallerTarget::LinuxArm64)
    );
    assert_eq!(InstallerTarget::WindowsX64.asset_name(), "OllamaSetup.exe");
    assert_eq!(InstallerTarget::Mac.asset_name(), "Ollama-darwin.zip");
    assert_eq!(
        InstallerTarget::LinuxX64.asset_name(),
        "ollama-linux-amd64.tar.zst"
    );
    assert_eq!(
        InstallerTarget::LinuxArm64.asset_name(),
        "ollama-linux-arm64.tar.zst"
    );
    assert!(InstallerTarget::Mac.expected_content_type("application/zip"));
    assert!(InstallerTarget::LinuxX64.expected_content_type("application/zstd"));
    assert!(!InstallerTarget::WindowsX64.expected_content_type("text/html"));
}

#[test]
fn rejects_unsupported_platforms_and_architectures() {
    assert!(installer_target("windows", "aarch64").is_err());
    assert!(installer_target("linux", "riscv64").is_err());
    assert!(installer_target("freebsd", "x86_64").is_err());
}

fn windows_asset() -> ReleaseAsset {
    ReleaseAsset {
        name: "OllamaSetup.exe".to_owned(),
        size: 150 * 1024 * 1024,
        digest: Some(format!("sha256:{}", "a".repeat(64))),
        browser_download_url:
            "https://github.com/ollama/ollama/releases/download/v1/OllamaSetup.exe".to_owned(),
    }
}

#[test]
fn validates_asset_name_size_digest_and_https_url() {
    let valid = windows_asset();
    assert_eq!(
        validate_release_asset(InstallerTarget::WindowsX64, &valid)
            .expect("official asset is accepted")
            .scheme(),
        "https"
    );

    let mut invalid = valid;
    invalid.browser_download_url =
        "http://github.com/ollama/ollama/releases/download/v1/OllamaSetup.exe".to_owned();
    assert!(validate_release_asset(InstallerTarget::WindowsX64, &invalid).is_err());
    invalid.browser_download_url = "https://example.com/OllamaSetup.exe".to_owned();
    assert!(validate_release_asset(InstallerTarget::WindowsX64, &invalid).is_err());
    invalid.browser_download_url =
        "https://github.com/ollama/ollama/releases/download/v1/OllamaSetup.exe".to_owned();
    invalid.digest = Some("sha256:bad".to_owned());
    assert!(validate_release_asset(InstallerTarget::WindowsX64, &invalid).is_err());

    invalid.digest = None;
    assert!(validate_release_asset(InstallerTarget::WindowsX64, &invalid).is_ok());
    invalid.size = 1024;
    assert!(validate_release_asset(InstallerTarget::WindowsX64, &invalid).is_err());

    invalid.size = 150 * 1024 * 1024;
    invalid.name = "unexpected.exe".to_owned();
    assert!(validate_release_asset(InstallerTarget::WindowsX64, &invalid).is_err());
}

#[test]
fn reports_each_asset_problem_with_its_message() {
    let mut asset = windows_asset();
    asset.name = "other.exe".to_owned();
    assert_eq!(
        validate_release_asset(InstallerTarget::WindowsX64, &asset).unwrap_err(),
        "Ollama release did not contain the expected OllamaSetup.exe asset."
    );
    let mut asset = windows_asset();
    asset.size = 1024;
    assert_eq!(
        validate_release_asset(InstallerTarget::WindowsX64, &asset).unwrap_err(),
        "The published Ollama installer size (1024 bytes) is outside the allowed range."
    );
    let mut asset = windows_asset();
    asset.digest = Some("md5:abc".to_owned());
    assert_eq!(
        validate_release_asset(InstallerTarget::WindowsX64, &asset).unwrap_err(),
        "The Ollama release published an unsupported checksum format."
    );
    asset.digest = Some(format!("sha256:{}", "g".repeat(64)));
    assert_eq!(
        validate_release_asset(InstallerTarget::WindowsX64, &asset).unwrap_err(),
        "The Ollama release published an invalid SHA-256 checksum."
    );
    let mut asset = windows_asset();
    asset.browser_download_url = "not a url".to_owned();
    assert!(validate_release_asset(InstallerTarget::WindowsX64, &asset)
        .unwrap_err()
        .starts_with("Invalid Ollama release URL: "));
}

#[test]
fn selects_the_asset_of_the_target_from_a_release() {
    let mut linux = windows_asset();
    linux.name = "ollama-linux-amd64.tar.zst".to_owned();
    linux.browser_download_url =
        "https://github.com/ollama/ollama/releases/download/v1/ollama-linux-amd64.tar.zst"
            .to_owned();
    let release = Release {
        tag_name: "v1".to_owned(),
        assets: vec![windows_asset(), linux],
    };
    let (tag, asset) =
        select_release_asset(&release, InstallerTarget::LinuxX64).expect("asset is found");
    assert_eq!(tag, "v1");
    assert_eq!(asset.name, "ollama-linux-amd64.tar.zst");
    assert!(select_release_asset(&release, InstallerTarget::Mac).is_err());
}

#[test]
fn checks_where_the_download_came_from_and_what_it_announced() {
    let asset = windows_asset();
    let github = https_url("objects.githubusercontent.com", "/x");
    assert!(check_download_response(
        InstallerTarget::WindowsX64,
        &asset,
        &github,
        "application/octet-stream",
        Some(asset.size)
    )
    .is_ok());
    let elsewhere = https_url("example.com", "/x");
    assert_eq!(
        check_download_response(
            InstallerTarget::WindowsX64,
            &asset,
            &elsewhere,
            "application/octet-stream",
            None
        ),
        Err("The Ollama download redirected to an unexpected URL.".to_owned())
    );
    assert_eq!(
        check_download_response(InstallerTarget::WindowsX64, &asset, &github, "text/html", None),
        Err("The Ollama download returned unexpected content type 'text/html'.".to_owned())
    );
    assert_eq!(
        check_download_response(
            InstallerTarget::WindowsX64,
            &asset,
            &github,
            "application/octet-stream",
            Some(1)
        ),
        Err("The Ollama download size did not match the published release asset.".to_owned())
    );
}

#[test]
fn verifies_the_downloaded_bytes_against_the_published_digest() {
    let asset = ReleaseAsset {
        name: "OllamaSetup.exe".to_owned(),
        size: 3,
        digest: Some(
            "sha256:ba7816bf8f01cfea414140de5dae2223b00361a396177a9cb410ff61f20015ad".to_owned(),
        ),
        browser_download_url: String::new(),
    };
    let mut check = DownloadCheck::new();
    check.accept_chunk(b"ab").expect("chunk fits");
    check.accept_chunk(b"c").expect("chunk fits");
    assert_eq!(check.downloaded(), 3);
    assert_eq!(check.finish(&asset), Ok(true));

    let mut check = DownloadCheck::new();
    check.accept_chunk(b"abd").expect("chunk fits");
    assert_eq!(
        check.finish(&asset),
        Err("The Ollama download failed its published SHA-256 check.".to_owned())
    );

    let mut check = DownloadCheck::new();
    check.accept_chunk(b"ab").expect("chunk fits");
    assert_eq!(
        check.finish(&asset),
        Err("The Ollama download was incomplete (received 2 of 3 bytes).".to_owned())
    );

    let unsigned = ReleaseAsset { digest: None, ..asset };
    let mut check = DownloadCheck::new();
    check.accept_chunk(b"xyz").expect("chunk fits");
    assert_eq!(check.finish(&unsigned), Ok(false));
}

#[test]
fn says_whether_the_install_was_checksum_verified() {
    assert_eq!(
        installed_message("v0.5.1", true),
        "Ollama v0.5.1 was installed. Its downloaded release asset passed the published SHA-256 check."
    );
    assert!(installed_message("v0.5.1", false).contains("could not be checksum-verified"));
}

#[test]
fn checks_a_parsed_release_url() {
    let asset = windows_asset();
    let good = https_url("github.com", "/ollama/ollama/releases/download/v1/OllamaSetup.exe");
    let accepted = check_release_url(&asset, Ok(good)).expect("accepted");
    assert_eq!(accepted.host.as_deref(), Some("github.com"));
    assert_eq!(
        check_release_url(&asset, Ok(https_url("example.com", "/ollama/ollama/releases/download/x")))
            .err(),
        Some("The Ollama release asset did not use the expected HTTPS GitHub URL.".to_owned())
    );
    assert_eq!(
        check_release_url(&asset, Err("empty host".to_owned())).err(),
        Some("Invalid Ollama release URL: empty host".to_owned())
    );
    let mut bad_digest = windows_asset();
    bad_digest.digest = Some("md5:abc".to_owned());
    assert_eq!(
        check_release_url(
            &bad_digest,
            Ok(https_url("github.com", "/ollama/ollama/releases/download/v1/OllamaSetup.exe"))
        )
        .err(),
        Some("The Ollama release published an unsupported checksum format.".to_owned())
    );
}
