//! `ArtifactRecord` - the generic resolved unit the IO stages share.

use vstd::prelude::*;

use crate::replicate::Replicate;

verus! {

/// What an artifact is *for* - decides whether it lands on the classpath, gets
/// extracted, or is fetched but kept off the classpath.
#[derive(Debug, Clone, Copy, PartialEq, Eq, Structural)]
pub enum Role {
    /// On the classpath: plain libraries, modern self-extracting natives, main jar.
    Classpath,
    /// Downloaded into `libraries/` but off the classpath.
    MavenFile,
    /// Legacy native jar to extract into `natives/`.
    NativeExtract,
    /// An asset-store object.
    Asset,
    /// No resolvable url: must already exist locally. Never fetched. Resolution
    /// marks such an entry by its missing url and gives it another role.
    NoUrl,
}

impl DeepView for Role {
    type V = Role;

    open spec fn deep_view(&self) -> Role {
        *self
    }
}

impl Replicate for Role {
    fn replicate(&self) -> (copy: Self) {
        *self
    }
}

/// One resolved artifact: where it comes from, where it goes, and its role.
#[derive(Debug)]
pub struct ArtifactRecord {
    /// The maven coordinate (or asset name) this record resolves.
    pub coordinate: String,
    /// Download source, verbatim from the patch; `None` for assume-local.
    pub url: Option<String>,
    /// Whether `url` is the default library server, because the patch named none.
    pub url_is_fallback: bool,
    /// Expected SHA-1, or `None` to skip verification.
    pub sha1: Option<String>,
    /// Declared size in bytes, if known.
    pub size: Option<u64>,
    /// On-disk destination under the instance directory.
    pub local_path: String,
    /// The role of the artifact (see [`Role`]).
    pub role: Role,
    /// Path prefixes to skip when unzipping (only meaningful for `NativeExtract`).
    pub extract_exclude: Vec<String>,
}

/// What an [`ArtifactRecord`] holds.
#[verifier::ext_equal]
pub struct ArtifactRecordView {
    pub coordinate: Seq<char>,
    pub url: Option<Seq<char>>,
    pub url_is_fallback: bool,
    pub sha1: Option<Seq<char>>,
    pub size: Option<u64>,
    pub local_path: Seq<char>,
    pub role: Role,
    pub extract_exclude: Seq<Seq<char>>,
}

impl DeepView for ArtifactRecord {
    type V = ArtifactRecordView;

    open spec fn deep_view(&self) -> ArtifactRecordView {
        ArtifactRecordView {
            coordinate: self.coordinate.deep_view(),
            url: self.url.deep_view(),
            url_is_fallback: self.url_is_fallback.deep_view(),
            sha1: self.sha1.deep_view(),
            size: self.size.deep_view(),
            local_path: self.local_path.deep_view(),
            role: self.role.deep_view(),
            extract_exclude: self.extract_exclude.deep_view(),
        }
    }
}

impl Replicate for ArtifactRecord {
    fn replicate(&self) -> (copy: Self) {
        ArtifactRecord {
            coordinate: self.coordinate.replicate(),
            url: self.url.replicate(),
            url_is_fallback: self.url_is_fallback.replicate(),
            sha1: self.sha1.replicate(),
            size: self.size.replicate(),
            local_path: self.local_path.replicate(),
            role: self.role.replicate(),
            extract_exclude: self.extract_exclude.replicate(),
        }
    }
}

impl Clone for ArtifactRecord {
    fn clone(&self) -> (copy: Self)
        ensures
            copy.deep_view() == self.deep_view(),
    {
        self.replicate()
    }
}

} // verus!
