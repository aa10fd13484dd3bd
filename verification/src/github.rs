//! The GitHub-backed release source.
//!
//! The transport fetches a JSON release listing and hands it over as plain
//! values; everything after that is decided here.  A release is kept when its
//! tag starts with the configured prefix and the remainder parses as a
//! semantic version; an artifact becomes a variant when its name starts with
//! the configured artifact prefix, with platform and architecture read from
//! the trailing `-` separated segments of the remaining name.

use crate::errors::Error;
use crate::release::{Release, ReleaseVariant, VariantView};
use crate::strutil::{
    lemma_spec_rfind, rfind_char, spec_rfind, spec_trim_suffix_all, starts_with_str,
    substring_copy, trim_suffix_all,
};
use crate::version::{spec_parse_version, Version};
use vstd::prelude::*;
use vstd::string::{StrSliceExecFns, StringExecFns};

verus! {

/// One artifact entry of a release listing, as delivered by the transport.
#[derive(Debug, Clone, PartialEq, Eq)]
pub struct AssetData {
    /// The artifact's name.
    pub name: String,
}

impl View for AssetData {
    type V = Seq<char>;

    open spec fn view(&self) -> Seq<char> {
        self.name@
    }
}

/// One release entry of a release listing, as delivered by the transport.
#[derive(Debug, Clone, PartialEq, Eq)]
pub struct ReleaseData {
    /// The release's display name.
    pub name: String,
    /// The tag the release was published under.
    pub tag_name: String,
    /// The release's description.
    pub body: String,
    /// Whether the source marks the release as a prerelease.  The flag is
    /// carried through but does not filter candidates.
    pub prerelease: bool,
    /// The release's artifacts.
    pub assets: Vec<AssetData>,
}

/// The mathematical value of a `ReleaseData`.
pub struct ReleaseDataView {
    pub name: Seq<char>,
    pub tag_name: Seq<char>,
    pub body: Seq<char>,
    pub prerelease: bool,
    pub assets: Seq<Seq<char>>,
}

impl View for ReleaseData {
    type V = ReleaseDataView;

    open spec fn view(&self) -> ReleaseDataView {
        ReleaseDataView {
            name: self.name@,
            tag_name: self.tag_name@,
            body: self.body@,
            prerelease: self.prerelease,
            assets: self.assets@.map_values(|a: AssetData| a@),
        }
    }
}

/// Lists and downloads releases of the tool published on GitHub.
pub struct GitHubSource {
    /// The `owner/name` repository identifier.
    pub repo: String,
    /// Artifacts whose names start with this prefix become variants.
    pub artifact_prefix: String,
    /// Releases whose tags start with this prefix become candidates.
    pub release_tag_prefix: String,
}

impl Default for GitHubSource {
    /// The production source: the tool's own repository.
    fn default() -> (r: Self)
        ensures
            r.repo@ == "SierraSoftworks/git-tool"@,
            r.artifact_prefix@ == "git-tool-"@,
            r.release_tag_prefix@ == "v"@,
    {
        GitHubSource {
            repo: "SierraSoftworks/git-tool".to_owned(),
            artifact_prefix: "git-tool-".to_owned(),
            release_tag_prefix: "v".to_owned(),
        }
    }
}

/// The `.exe` suffix stripped from artifact names.
pub open spec fn exe_suffix() -> Seq<char> {
    seq!['.', 'e', 'x', 'e']
}

/// The variant derived from a prefixed artifact name: strip the prefix and any
/// trailing `.exe`, then read the last `-` separated segment as the
/// architecture and the one before it as the platform, defaulting the platform
/// to the host's tag when the name has a single segment.
pub open spec fn spec_variant_of(name: Seq<char>, prefix: Seq<char>, host_os: Seq<char>) -> VariantView {
    let base = spec_trim_suffix_all(name.skip(prefix.len() as int), exe_suffix());
    match spec_rfind(base, '-') {
        None => VariantView { id: name, platform: host_os, arch: base },
        Some(i) => {
            let arch = base.skip(i + 1);
            let front = base.take(i);
            let platform = match spec_rfind(front, '-') {
                None => front,
                Some(j) => front.skip(j + 1),
            };
            VariantView { id: name, platform, arch }
        },
    }
}

/// Keeps an artifact name only when it carries the configured prefix.
pub open spec fn variant_filter(prefix: Seq<char>, host_os: Seq<char>) -> spec_fn(Seq<char>) -> Option<
    VariantView,
> {
    |name: Seq<char>|
        if prefix.is_prefix_of(name) {
            Some(spec_variant_of(name, prefix, host_os))
        } else {
            None
        }
}

/// The variants derived from a release's artifact names.
pub open spec fn spec_variants(assets: Seq<Seq<char>>, prefix: Seq<char>, host_os: Seq<char>) -> Seq<
    VariantView,
> {
    assets.filter_map(variant_filter(prefix, host_os))
}

/// Keeps a listed release only when its tag carries the configured prefix and
/// the remainder of the tag parses as a semantic version.
pub open spec fn release_filter(
    tag_prefix: Seq<char>,
    artifact_prefix: Seq<char>,
    host_os: Seq<char>,
) -> spec_fn(ReleaseDataView) -> Option<crate::release::ReleaseView> {
    |r: ReleaseDataView|
        if tag_prefix.is_prefix_of(r.tag_name) {
            match spec_parse_version(r.tag_name.skip(tag_prefix.len() as int)) {
                Some(v) => Some(
                    crate::release::ReleaseView {
                        id: r.tag_name,
                        version: v,
                        changelog: r.body,
                        variants: spec_variants(r.assets, artifact_prefix, host_os),
                    },
                ),
                None => None,
            }
        } else {
            None
        }
}

/// The usable releases derived from a listing.
pub open spec fn spec_releases(
    rs: Seq<ReleaseDataView>,
    tag_prefix: Seq<char>,
    artifact_prefix: Seq<char>,
    host_os: Seq<char>,
) -> Seq<crate::release::ReleaseView> {
    rs.filter_map(release_filter(tag_prefix, artifact_prefix, host_os))
}

impl GitHubSource {
    /// The variants of one listed release: every artifact whose name starts
    /// with the artifact prefix, with platform/architecture read from the
    /// name's trailing segments.
    pub fn get_variants_from_response(&self, release: &ReleaseData, host_os: &str) -> (r: Vec<
        ReleaseVariant,
    >)
        ensures
            r@.map_values(|v: ReleaseVariant| v@) == spec_variants(
                release@.assets,
                self.artifact_prefix@,
                host_os@,
            ),
    {
        let ghost assets_v: Seq<Seq<char>> = release@.assets;
        let ghost f = variant_filter(self.artifact_prefix@, host_os@);
        let mut out: Vec<ReleaseVariant> = Vec::new();
        let n = release.assets.len();
        let plen = self.artifact_prefix.as_str().unicode_len();
        let mut i: usize = 0;
        assert(assets_v.take(0).filter_map(f) =~= Seq::<VariantView>::empty());
        while i < n
            invariant
                i <= n,
                n == release.assets@.len(),
                assets_v == release@.assets,
                f == variant_filter(self.artifact_prefix@, host_os@),
                plen == self.artifact_prefix@.len(),
                out@.map_values(|v: ReleaseVariant| v@) == assets_v.take(i as int).filter_map(f),
            decreases n - i,
        {
            proof {
                assets_v.lemma_filter_map_take_succ(f, i as int);
                assert(assets_v[i as int] == release.assets@[i as int]@);
            }
            let name: &String = &release.assets[i].name;
            if starts_with_str(name.as_str(), self.artifact_prefix.as_str()) {
                let nlen = name.as_str().unicode_len();
                let stripped = substring_copy(name.as_str(), plen, nlen);
                assert(stripped@ =~= name@.skip(plen as int));
                proof {
                    reveal_strlit(".exe");
                    assert(".exe"@ =~= exe_suffix());
                }
                let base = trim_suffix_all(stripped.as_str(), ".exe");
                let blen = base.as_str().unicode_len();
                let variant = match rfind_char(base.as_str(), '-') {
                    None => {
                        proof {
                            lemma_spec_rfind(base@, '-');
                        }
                        ReleaseVariant { id: name.clone(), platform: host_os.to_owned(), arch: base }
                    },
                    Some(k) => {
                        proof {
                            lemma_spec_rfind(base@, '-');
                        }
                        let arch = substring_copy(base.as_str(), k + 1, blen);
                        assert(arch@ =~= base@.skip(k + 1));
                        let front = substring_copy(base.as_str(), 0, k);
                        assert(front@ =~= base@.take(k as int));
                        let flen = front.as_str().unicode_len();
                        let platform = match rfind_char(front.as_str(), '-') {
                            None => {
                                proof {
                                    lemma_spec_rfind(front@, '-');
                                }
                                front
                            },
                            Some(j) => {
                                proof {
                                    lemma_spec_rfind(front@, '-');
                                }
                                let p = substring_copy(front.as_str(), j + 1, flen);
                                assert(p@ =~= front@.skip(j + 1));
                                p
                            },
                        };
                        ReleaseVariant { id: name.clone(), platform, arch }
                    },
                };
                assert(variant@ == spec_variant_of(name@, self.artifact_prefix@, host_os@));
                out.push(variant);
                proof {
                    assert(out@.map_values(|v: ReleaseVariant| v@) =~= assets_v.take(
                        i as int + 1,
                    ).filter_map(f));
                }
            } else {
                proof {
                    assert(out@.map_values(|v: ReleaseVariant| v@) =~= assets_v.take(
                        i as int + 1,
                    ).filter_map(f));
                }
            }
            i += 1;
        }
        proof {
            assert(assets_v.take(n as int) =~= assets_v);
        }
        out
    }

    /// The usable releases of a listing: tags carrying the configured prefix
    /// whose remainder parses as a version, each with its derived variants.
    /// Unparsable entries are skipped, never reported.
    pub fn get_releases_from_response(&self, releases: Vec<ReleaseData>, host_os: &str) -> (r:
        Result<Vec<Release>, Error>)
        ensures
            r is Ok,
            (r->Ok_0)@.map_values(|x: Release| x@) == spec_releases(
                releases@.map_values(|d: ReleaseData| d@),
                self.release_tag_prefix@,
                self.artifact_prefix@,
                host_os@,
            ),
    {
        let ghost rs_v: Seq<ReleaseDataView> = releases@.map_values(|d: ReleaseData| d@);
        let ghost f = release_filter(self.release_tag_prefix@, self.artifact_prefix@, host_os@);
        let mut out: Vec<Release> = Vec::new();
        let n = releases.len();
        let plen = self.release_tag_prefix.as_str().unicode_len();
        let mut i: usize = 0;
        assert(rs_v.take(0).filter_map(f) =~= Seq::<crate::release::ReleaseView>::empty());
        while i < n
            invariant
                i <= n,
                n == releases@.len(),
                rs_v == releases@.map_values(|d: ReleaseData| d@),
                f == release_filter(self.release_tag_prefix@, self.artifact_prefix@, host_os@),
                plen == self.release_tag_prefix@.len(),
                out@.map_values(|x: Release| x@) == rs_v.take(i as int).filter_map(f),
            decreases n - i,
        {
            proof {
                rs_v.lemma_filter_map_take_succ(f, i as int);
                assert(rs_v[i as int] == releases@[i as int]@);
            }
            let rd: &ReleaseData = &releases[i];
            if starts_with_str(rd.tag_name.as_str(), self.release_tag_prefix.as_str()) {
                let tlen = rd.tag_name.as_str().unicode_len();
                let remainder = substring_copy(rd.tag_name.as_str(), plen, tlen);
                assert(remainder@ =~= rd.tag_name@.skip(plen as int));
                match Version::parse(remainder.as_str()) {
                    Some(version) => {
                        let variants = self.get_variants_from_response(rd, host_os);
                        let rel = Release {
                            id: rd.tag_name.clone(),
                            version,
                            changelog: rd.body.clone(),
                            variants,
                        };
                        assert(rel@ == f(rs_v[i as int])->0);
                        out.push(rel);
                        proof {
                            assert(out@.map_values(|x: Release| x@) =~= rs_v.take(
                                i as int + 1,
                            ).filter_map(f));
                        }
                    },
                    None => {
                        proof {
                            assert(out@.map_values(|x: Release| x@) =~= rs_v.take(
                                i as int + 1,
                            ).filter_map(f));
                        }
                    },
                }
            } else {
                proof {
                    assert(out@.map_values(|x: Release| x@) =~= rs_v.take(i as int + 1).filter_map(
                        f,
                    ));
                }
            }
            i += 1;
        }
        proof {
            assert(rs_v.take(n as int) =~= rs_v);
        }
        Ok(out)
    }

    /// Where the release listing is fetched from.
    pub fn releases_url(&self) -> (r: String)
        ensures
            r@ == "https://api.github.com/repos/"@ + self.repo@ + "/releases"@,
    {
        let mut u = "https://api.github.com/repos/".to_owned();
        u.append(self.repo.as_str());
        u.append("/releases");
        u
    }

    /// Where a chosen variant's bytes are fetched from, derived from the
    /// release tag and the artifact name alone.
    pub fn download_url(&self, release: &Release, variant: &ReleaseVariant) -> (r: String)
        ensures
            r@ == "https://github.com/"@ + self.repo@ + "/releases/download/"@ + release.id@ + "/"@
                + variant.id@,
    {
        let mut u = "https://github.com/".to_owned();
        u.append(self.repo.as_str());
        u.append("/releases/download/");
        u.append(release.id.as_str());
        u.append("/");
        u.append(variant.id.as_str());
        u
    }
}

impl crate::api::Source for GitHubSource {
    /// The repository's release-listing endpoint.
    fn release_listing_url(&self) -> (r: String)
        ensures
            r@ == "https://api.github.com/repos/"@ + self.repo@ + "/releases"@,
    {
        self.releases_url()
    }

    /// The repository's artifact-download endpoint for one variant.
    fn binary_url(&self, release: &Release, variant: &ReleaseVariant) -> (r: String)
        ensures
            r@ == "https://github.com/"@ + self.repo@ + "/releases/download/"@ + release.id@ + "/"@
                + variant.id@,
    {
        self.download_url(release, variant)
    }
}

/// Classifies a non-success listing status: throttling is the user's to wait
/// out, anything else is an unexpected status kept with its body.
pub fn response_error(status: u16, body: String) -> (r: Error)
    requires
        status != 200,
    ensures
        status == 429 <==> r is UserActionable,
        status != 429 ==> (r matches Error::Unavailable { status: s, body: b } && s == status && b@
            == body@),
{
    if status == 429 {
        Error::rate_limited()
    } else {
        Error::Unavailable { status, body }
    }
}

/// Every release kept from a listing carries the configured tag prefix: an
/// identifier without the prefix is excluded from the parsed set.
pub proof fn lemma_kept_release_has_tag_prefix(
    rs: Seq<ReleaseDataView>,
    tag_prefix: Seq<char>,
    artifact_prefix: Seq<char>,
    host_os: Seq<char>,
    rel: crate::release::ReleaseView,
)
    requires
        spec_releases(rs, tag_prefix, artifact_prefix, host_os).contains(rel),
    ensures
        tag_prefix.is_prefix_of(rel.id),
        spec_parse_version(rel.id.skip(tag_prefix.len() as int)) == Some(rel.version),
{
    let f = release_filter(tag_prefix, artifact_prefix, host_os);
    rs.lemma_filter_map_contains(f, rel);
    let t = choose|t: ReleaseDataView| #[trigger] rs.contains(t) && f(t) == Some(rel);
    assert(tag_prefix.is_prefix_of(t.tag_name));
}

/// Every variant kept from a release's artifacts carries the configured
/// artifact prefix: a name without the prefix is excluded from the variants.
pub proof fn lemma_kept_variant_has_artifact_prefix(
    assets: Seq<Seq<char>>,
    prefix: Seq<char>,
    host_os: Seq<char>,
    v: VariantView,
)
    requires
        spec_variants(assets, prefix, host_os).contains(v),
    ensures
        prefix.is_prefix_of(v.id),
{
    let f = variant_filter(prefix, host_os);
    assets.lemma_filter_map_contains(f, v);
    let t = choose|t: Seq<char>| #[trigger] assets.contains(t) && f(t) == Some(v);
    assert(prefix.is_prefix_of(t));
}

} // verus!
