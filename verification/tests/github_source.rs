use git_tool::github::{AssetData, ReleaseData};
use git_tool::{GitHubSource, Release, ReleaseVariant, Source, Version};

fn release_data(tag: &str, body: &str, asset_names: &[&str]) -> ReleaseData {
    ReleaseData {
        name: format!("Version {}", tag),
        tag_name: String::from(tag),
        body: String::from(body),
        prerelease: false,
        assets: asset_names
            .iter()
            .map(|n| AssetData {
                name: String::from(*n),
            })
            .collect(),
    }
}

fn parse_listing(listing: Vec<ReleaseData>) -> Vec<Release> {
    GitHubSource::default()
        .get_releases_from_response(listing, "linux")
        .unwrap()
}

#[test]
fn listing_keeps_prefixed_parsable_tags() {
    let releases = parse_listing(vec![release_data(
        "v2.0.0",
        "Example Release",
        &[
            "git-tool-windows-amd64.exe",
            "git-tool-linux-amd64",
            "git-tool-darwin-amd64",
        ],
    )]);

    assert_eq!(releases.len(), 1);
    let release = &releases[0];
    assert_eq!(release.id, "v2.0.0");
    assert_eq!(
        release.version,
        Version {
            major: 2,
            minor: 0,
            patch: 0
        }
    );
    assert_ne!(
        release.changelog, "",
        "the release changelog should not be empty"
    );
    assert_eq!(release.variants.len(), 3);
}

#[test]
fn listing_drops_unprefixed_tags() {
    let releases = parse_listing(vec![
        release_data("2.0.0", "no prefix", &["git-tool-linux-amd64"]),
        release_data("release-3", "wrong prefix", &["git-tool-linux-amd64"]),
        release_data("v1.2.3", "kept", &["git-tool-linux-amd64"]),
    ]);
    assert_eq!(releases.len(), 1);
    assert_eq!(releases[0].id, "v1.2.3");
}

#[test]
fn listing_drops_unparsable_versions() {
    let releases = parse_listing(vec![
        release_data("vnext", "not a version", &[]),
        release_data("v1.2", "two segments", &[]),
        release_data("v1.2.3.4", "four segments", &[]),
        release_data("v99999999999999999999.0.0", "overflowing", &[]),
        release_data("v1.2.3", "kept", &[]),
    ]);
    assert_eq!(releases.len(), 1);
    assert_eq!(releases[0].id, "v1.2.3");
}

#[test]
fn variants_drop_unprefixed_artifacts() {
    let releases = parse_listing(vec![release_data(
        "v1.0.0",
        "mixed artifacts",
        &["git-tool-linux-amd64", "other-tool-linux-amd64", "README.md"],
    )]);
    assert_eq!(releases[0].variants.len(), 1);
    assert_eq!(releases[0].variants[0].id, "git-tool-linux-amd64");
}

#[test]
fn variant_names_split_into_platform_and_arch() {
    let releases = parse_listing(vec![release_data(
        "v1.0.0",
        "artifact naming",
        &["git-tool-windows-amd64.exe", "git-tool-amd64"],
    )]);
    let variants = &releases[0].variants;

    assert_eq!(variants[0].id, "git-tool-windows-amd64.exe");
    assert_eq!(variants[0].platform, "windows");
    assert_eq!(variants[0].arch, "amd64");

    assert_eq!(variants[1].id, "git-tool-amd64");
    assert_eq!(variants[1].arch, "amd64");
    assert_eq!(
        variants[1].platform, "linux",
        "a single-segment name falls back to the running platform tag"
    );
}

#[test]
fn latest_applicable_picks_highest_version() {
    let releases = parse_listing(vec![
        release_data("v1.0.0", "old", &["git-tool-linux-amd64"]),
        release_data("v2.0.0", "newest", &["git-tool-linux-amd64"]),
        release_data("v1.9.9", "close", &["git-tool-linux-amd64"]),
    ]);
    let latest = Release::latest_applicable(&releases, "linux", "amd64").unwrap();
    assert_eq!(latest.id, "v2.0.0");
}

#[test]
fn latest_applicable_requires_a_matching_variant() {
    let releases = parse_listing(vec![
        release_data("v1.0.0", "matches", &["git-tool-linux-amd64"]),
        release_data("v2.0.0", "wrong platform", &["git-tool-windows-amd64.exe"]),
    ]);
    let latest = Release::latest_applicable(&releases, "linux", "amd64").unwrap();
    assert_eq!(latest.id, "v1.0.0");
    assert!(Release::latest_applicable(&releases, "netbsd", "mips").is_none());
}

#[test]
fn find_update_wants_strictly_newer() {
    let releases = parse_listing(vec![
        release_data("v1.0.0", "old", &["git-tool-linux-amd64"]),
        release_data("v2.0.0", "newest", &["git-tool-linux-amd64"]),
    ]);
    let current = Version {
        major: 1,
        minor: 5,
        patch: 0,
    };
    let update = Release::find_update(&releases, &current, "linux", "amd64").unwrap();
    assert_eq!(update.id, "v2.0.0");

    let already_newest = Version {
        major: 2,
        minor: 0,
        patch: 0,
    };
    assert!(Release::find_update(&releases, &already_newest, "linux", "amd64").is_none());
}

#[test]
fn get_latest_ignores_applicability() {
    let releases = parse_listing(vec![
        release_data("v1.0.0", "old", &["git-tool-linux-amd64"]),
        release_data("v3.0.0", "no artifacts", &[]),
        release_data("v2.0.0", "newest usable", &["git-tool-linux-amd64"]),
    ]);
    assert_eq!(Release::get_latest(&releases).unwrap().id, "v3.0.0");
    assert!(Release::get_latest(&Vec::new()).is_none());
}

#[test]
fn variant_for_picks_first_match() {
    let releases = parse_listing(vec![release_data(
        "v1.0.0",
        "two linux artifacts",
        &["git-tool-linux-amd64", "git-tool-linux-arm64"],
    )]);
    let release = &releases[0];
    let variant = release.variant_for("linux", "amd64").unwrap();
    assert_eq!(variant.id, "git-tool-linux-amd64");
    assert!(release.variant_for("linux", "riscv").is_none());
}

#[test]
fn source_urls_are_derived_from_identifiers() {
    let source = GitHubSource::default();
    assert_eq!(source.repo, "SierraSoftworks/git-tool");
    assert_eq!(
        source.releases_url(),
        "https://api.github.com/repos/SierraSoftworks/git-tool/releases"
    );

    let releases = parse_listing(vec![release_data(
        "v2.0.0",
        "Example Release",
        &["git-tool-linux-amd64"],
    )]);
    let release = &releases[0];
    let variant = &release.variants[0];
    assert_eq!(
        source.download_url(release, variant),
        "https://github.com/SierraSoftworks/git-tool/releases/download/v2.0.0/git-tool-linux-amd64"
    );
}

struct MemorySource {
    base: String,
}

impl Source for MemorySource {
    fn release_listing_url(&self) -> String {
        format!("{}/releases", self.base)
    }

    fn binary_url(&self, release: &Release, variant: &ReleaseVariant) -> String {
        format!("{}/{}/{}", self.base, release.id, variant.id)
    }
}

#[test]
fn sources_are_interchangeable_behind_the_trait() {
    let releases = parse_listing(vec![release_data(
        "v2.0.0",
        "Example Release",
        &["git-tool-linux-amd64"],
    )]);
    let release = &releases[0];
    let variant = &release.variants[0];

    let github = GitHubSource::default();
    assert_eq!(
        Source::release_listing_url(&github),
        github.releases_url()
    );
    assert_eq!(
        Source::binary_url(&github, release, variant),
        github.download_url(release, variant)
    );

    let memory = MemorySource {
        base: String::from("mem://releases.test"),
    };
    assert_eq!(memory.release_listing_url(), "mem://releases.test/releases");
    assert_eq!(
        memory.binary_url(release, variant),
        "mem://releases.test/v2.0.0/git-tool-linux-amd64"
    );
}

#[test]
fn listing_error_classification() {
    assert!(matches!(
        git_tool::github::response_error(429, String::new()),
        git_tool::Error::UserActionable { .. }
    ));
    match git_tool::github::response_error(503, String::from("upstream down")) {
        git_tool::Error::Unavailable { status, body } => {
            assert_eq!(status, 503);
            assert_eq!(body, "upstream down");
        }
        other => panic!("expected the status to be kept, got {:?}", other),
    }
}

#[test]
fn version_parse_and_order() {
    assert_eq!(
        Version::parse("10.20.30"),
        Some(Version {
            major: 10,
            minor: 20,
            patch: 30
        })
    );
    assert_eq!(Version::parse(""), None);
    assert_eq!(Version::parse("1"), None);
    assert_eq!(Version::parse("1.2"), None);
    assert_eq!(Version::parse("1.2.x"), None);
    assert_eq!(Version::parse("1.2.3-beta"), None);

    let newer = Version {
        major: 2,
        minor: 0,
        patch: 0,
    };
    let older = Version {
        major: 1,
        minor: 9,
        patch: 9,
    };
    assert!(newer.newer_than(&older));
    assert!(!older.newer_than(&newer));
    assert!(!newer.newer_than(&newer));
}
