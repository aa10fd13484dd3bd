//! The release model: what a discovered release is, and which release the
//! running tool should install.
//!
//! A release with no variants is valid but cannot be installed: the selection
//! policy only ever picks a release with a variant matching the running
//! platform and architecture.

use crate::strutil::eq_str;
use crate::version::{version_le, version_lt, Version};
use vstd::prelude::*;

verus! {

/// A platform/architecture-specific downloadable artifact of a release.
#[derive(Debug, Clone, PartialEq, Eq)]
pub struct ReleaseVariant {
    /// The artifact's identifier within the release; used to build the
    /// download location.
    pub id: String,
    /// Operating-system tag, derived from the artifact name or defaulted.
    pub platform: String,
    /// Architecture tag, derived from the artifact name or defaulted.
    pub arch: String,
}

/// The mathematical value of a `ReleaseVariant`.
pub struct VariantView {
    pub id: Seq<char>,
    pub platform: Seq<char>,
    pub arch: Seq<char>,
}

impl View for ReleaseVariant {
    type V = VariantView;

    open spec fn view(&self) -> VariantView {
        VariantView { id: self.id@, platform: self.platform@, arch: self.arch@ }
    }
}

/// A versioned, published build of the tool.
#[derive(Debug, Clone, PartialEq, Eq)]
pub struct Release {
    /// The source's tag for the release, unique per release.
    pub id: String,
    /// Parsed semantic version, the ordering key.
    pub version: Version,
    /// Free-form description of the release.
    pub changelog: String,
    /// The artifacts belonging to this release.
    pub variants: Vec<ReleaseVariant>,
}

/// The mathematical value of a `Release`.
pub struct ReleaseView {
    pub id: Seq<char>,
    pub version: Version,
    pub changelog: Seq<char>,
    pub variants: Seq<VariantView>,
}

impl View for Release {
    type V = ReleaseView;

    open spec fn view(&self) -> ReleaseView {
        ReleaseView {
            id: self.id@,
            version: self.version,
            changelog: self.changelog@,
            variants: self.variants@.map_values(|v: ReleaseVariant| v@),
        }
    }
}

/// A variant serves the given platform and architecture.
pub open spec fn variant_matches(v: VariantView, platform: Seq<char>, arch: Seq<char>) -> bool {
    v.platform == platform && v.arch == arch
}

/// A release is applicable when at least one of its variants matches the
/// running platform and architecture.
pub open spec fn release_applicable(r: ReleaseView, platform: Seq<char>, arch: Seq<char>) -> bool {
    exists|i: int| 0 <= i < r.variants.len() && variant_matches(#[trigger] r.variants[i], platform, arch)
}

impl Release {
    /// The first variant matching the given platform and architecture: the
    /// deterministic pick among possibly repeated `(platform, arch)` pairs.
    pub fn variant_for(&self, platform: &str, arch: &str) -> (r: Option<&ReleaseVariant>)
        ensures
            match r {
                Some(v) => exists|i: int|
                    0 <= i < self@.variants.len() && self@.variants[i] == v@ && variant_matches(
                        v@,
                        platform@,
                        arch@,
                    ),
                None => !release_applicable(self@, platform@, arch@),
            },
    {
        let n = self.variants.len();
        let mut i: usize = 0;
        while i < n
            invariant
                i <= n,
                n == self.variants@.len(),
                forall|j: int|
                    0 <= j < i ==> !variant_matches(#[trigger] self@.variants[j], platform@, arch@),
            decreases n - i,
        {
            let v = &self.variants[i];
            if eq_str(v.platform.as_str(), platform) && eq_str(v.arch.as_str(), arch) {
                assert(self@.variants[i as int] == v@);
                return Some(v);
            }
            assert(self@.variants[i as int] == v@);
            i += 1;
        }
        None
    }

    /// The release with the highest version, taking the earliest on a repeated
    /// version; `None` only for an empty list.
    pub fn get_latest(releases: &Vec<Release>) -> (r: Option<&Release>)
        ensures
            match r {
                Some(rel) => exists|b: int|
                    {
                        &&& 0 <= b < releases@.len()
                        &&& releases@[b] == *rel
                        &&& forall|j: int|
                            0 <= j < releases@.len() ==> version_le(
                                (#[trigger] releases@[j]).version,
                                rel.version,
                            )
                        &&& forall|j: int|
                            0 <= j < b ==> version_lt((#[trigger] releases@[j]).version, rel.version)
                    },
                None => releases@.len() == 0,
            },
    {
        let n = releases.len();
        if n == 0 {
            return None;
        }
        let mut best: usize = 0;
        let mut i: usize = 1;
        while i < n
            invariant
                best < i <= n,
                n == releases@.len(),
                forall|j: int|
                    0 <= j < i ==> version_le(
                        (#[trigger] releases@[j]).version,
                        releases@[best as int].version,
                    ),
                forall|j: int|
                    0 <= j < best ==> version_lt(
                        (#[trigger] releases@[j]).version,
                        releases@[best as int].version,
                    ),
            decreases n - i,
        {
            if releases[i].version.newer_than(&releases[best].version) {
                best = i;
            }
            i += 1;
        }
        Some(&releases[best])
    }

    /// The latest applicable release: the highest-versioned release carrying a
    /// variant for the given platform and architecture, the earliest on a
    /// repeated version.  `None` means "no compatible update found", a normal
    /// outcome rather than an error.
    pub fn latest_applicable<'a>(
        releases: &'a Vec<Release>,
        platform: &str,
        arch: &str,
    ) -> (r: Option<&'a Release>)
        ensures
            match r {
                Some(rel) => exists|b: int|
                    {
                        &&& 0 <= b < releases@.len()
                        &&& releases@[b] == *rel
                        &&& release_applicable(rel@, platform@, arch@)
                        &&& forall|j: int|
                            0 <= j < releases@.len() && release_applicable(
                                (#[trigger] releases@[j])@,
                                platform@,
                                arch@,
                            ) ==> version_le(releases@[j].version, rel.version)
                        &&& forall|j: int|
                            0 <= j < b && release_applicable(
                                (#[trigger] releases@[j])@,
                                platform@,
                                arch@,
                            ) ==> version_lt(releases@[j].version, rel.version)
                    },
                None => forall|j: int|
                    0 <= j < releases@.len() ==> !release_applicable(
                        (#[trigger] releases@[j])@,
                        platform@,
                        arch@,
                    ),
            },
    {
        let n = releases.len();
        let mut best: Option<usize> = None;
        let mut i: usize = 0;
        while i < n
            invariant
                i <= n,
                n == releases@.len(),
                match best {
                    None => forall|j: int|
                        0 <= j < i ==> !release_applicable(
                            (#[trigger] releases@[j])@,
                            platform@,
                            arch@,
                        ),
                    Some(b) => {
                        &&& b < i
                        &&& release_applicable(releases@[b as int]@, platform@, arch@)
                        &&& forall|j: int|
                            0 <= j < i && release_applicable(
                                (#[trigger] releases@[j])@,
                                platform@,
                                arch@,
                            ) ==> version_le(releases@[j].version, releases@[b as int].version)
                        &&& forall|j: int|
                            0 <= j < b && release_applicable(
                                (#[trigger] releases@[j])@,
                                platform@,
                                arch@,
                            ) ==> version_lt(releases@[j].version, releases@[b as int].version)
                    },
                },
            decreases n - i,
        {
            let applicable = releases[i].variant_for(platform, arch).is_some();
            if applicable {
                match best {
                    None => {
                        best = Some(i);
                    },
                    Some(b) => {
                        if releases[i].version.newer_than(&releases[b].version) {
                            best = Some(i);
                        }
                    },
                }
            }
            i += 1;
        }
        match best {
            None => None,
            Some(b) => Some(&releases[b]),
        }
    }

    /// The release the orchestrator should install: the latest applicable one,
    /// provided it is strictly newer than the running version.
    pub fn find_update<'a>(
        releases: &'a Vec<Release>,
        current: &Version,
        platform: &str,
        arch: &str,
    ) -> (r: Option<&'a Release>)
        ensures
            match r {
                Some(rel) => {
                    &&& exists|b: int| 0 <= b < releases@.len() && releases@[b] == *rel
                    &&& release_applicable(rel@, platform@, arch@)
                    &&& version_lt(*current, rel.version)
                    &&& forall|j: int|
                        0 <= j < releases@.len() && release_applicable(
                            (#[trigger] releases@[j])@,
                            platform@,
                            arch@,
                        ) ==> version_le(releases@[j].version, rel.version)
                },
                None => forall|j: int|
                    0 <= j < releases@.len() && release_applicable(
                        (#[trigger] releases@[j])@,
                        platform@,
                        arch@,
                    ) ==> version_le(releases@[j].version, *current),
            },
    {
        match Release::latest_applicable(releases, platform, arch) {
            None => None,
            Some(rel) => {
                if rel.version.newer_than(current) {
                    Some(rel)
                } else {
                    proof {
                        lemma_version_le_transitive_helper();
                    }
                    None
                }
            },
        }
    }
}

/// Ordering facts the selection policy leans on: `version_le` is transitive
/// through a shared upper bound.
proof fn lemma_version_le_transitive_helper()
    ensures
        forall|a: Version, b: Version, c: Version|
            version_le(a, b) && version_le(b, c) ==> version_le(a, c),
{
}

} // verus!
