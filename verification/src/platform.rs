//! Target platform resolution.
//!
//! The platform is *supplied*, never detected from the host, so a build can
//! target any platform from anywhere. One token expands into a [`Ctx`] carrying
//! the view that both rule dialects have of the platform, plus the classpath
//! separator and feature flags.

use vstd::prelude::*;

use crate::replicate::Replicate;
use crate::string_map::{distinct_keys, lookup, lookup_is, StringMap};
use crate::text::same_text;

verus! {

/// The fixed set of acceptable `--platform` tokens.
#[derive(Debug, Clone, Copy, PartialEq, Eq, Structural)]
pub enum Platform {
    Linux,
    LinuxArm64,
    LinuxArm32,
    LinuxPpc64le,
    FreeBsd,
    Osx,
    OsxArm64,
    Windows,
    WindowsArm64,
    WindowsX86,
}

/// The evaluation context of rules - one platform seen through both dialects.
#[derive(Debug)]
pub struct Ctx {
    /// Arch-in-name token, e.g. `linux`, `osx-arm64`, `windows-x86`.
    pub os_token: String,
    /// Classic OS name: `linux` / `osx` / `windows` / `freebsd`.
    pub os_name: String,
    /// Classic arch: `x86` / `x86_64` / `arm64` / `arm32` / `ppc64le`.
    pub arch: String,
    /// OS version string for classic `os.version` regex rules.
    pub version: String,
    /// Feature flags gating modern game arguments; absent keys default false.
    pub features: StringMap<bool>,
    /// Classpath separator for the *target*: `;` on windows, else `:`.
    pub path_sep: char,
}

/// What a [`Ctx`] holds.
#[verifier::ext_equal]
pub struct CtxView {
    pub os_token: Seq<char>,
    pub os_name: Seq<char>,
    pub arch: Seq<char>,
    pub version: Seq<char>,
    pub features: Seq<(Seq<char>, bool)>,
    pub path_sep: char,
}

impl DeepView for Ctx {
    type V = CtxView;

    open spec fn deep_view(&self) -> CtxView {
        CtxView {
            os_token: self.os_token.deep_view(),
            os_name: self.os_name.deep_view(),
            arch: self.arch.deep_view(),
            version: self.version.deep_view(),
            features: self.features.deep_view(),
            path_sep: self.path_sep.deep_view(),
        }
    }
}

impl Replicate for Ctx {
    fn replicate(&self) -> (copy: Self) {
        Ctx {
            os_token: self.os_token.replicate(),
            os_name: self.os_name.replicate(),
            arch: self.arch.replicate(),
            version: self.version.replicate(),
            features: self.features.replicate(),
            path_sep: self.path_sep.replicate(),
        }
    }
}

impl Clone for Ctx {
    fn clone(&self) -> (copy: Self)
        ensures
            copy.deep_view() == self.deep_view(),
    {
        self.replicate()
    }
}

impl CtxView {
    /// The marker for `${arch}` in legacy native classifier templates, by bitness.
    pub open spec fn bitness(self) -> Seq<char> {
        if self.arch == "x86"@ || self.arch == "arm32"@ {
            "32"@
        } else {
            "64"@
        }
    }

    /// Whether a feature is on. A feature that is not listed is off.
    pub open spec fn has_feature(self, name: Seq<char>) -> bool {
        lookup(self.features, name) == Some(true)
    }
}

impl Ctx {
    /// The `${arch}` marker substituted into legacy native classifier templates
    /// (e.g. `natives-windows-${arch}` -> `...-64`); `"32"` or `"64"` by bitness.
    #[must_use]
    pub fn arch_number(&self) -> (marker: &'static str)
        ensures
            marker@ == self.deep_view().bitness(),
    {
        if same_text(self.arch.as_str(), "x86") || same_text(self.arch.as_str(), "arm32") {
            "32"
        } else {
            "64"
        }
    }

    /// Look up a feature flag, defaulting to `false`.
    #[must_use]
    pub fn feature(&self, name: &str) -> (on: bool)
        ensures
            on == self.deep_view().has_feature(name@),
    {
        match self.features.get(name) {
            Some(on) => *on,
            None => false,
        }
    }
}

/// The token, classic name, classic arch and default version of a platform.
pub open spec fn platform_facts(platform: Platform) -> (Seq<char>, Seq<char>, Seq<char>, Seq<char>) {
    match platform {
        Platform::Linux => ("linux"@, "linux"@, "x86_64"@, "6.1.0"@),
        Platform::LinuxArm64 => ("linux-arm64"@, "linux"@, "arm64"@, "6.1.0"@),
        Platform::LinuxArm32 => ("linux-arm32"@, "linux"@, "arm32"@, "6.1.0"@),
        Platform::LinuxPpc64le => ("linux-ppc64le"@, "linux"@, "ppc64le"@, "6.1.0"@),
        Platform::FreeBsd => ("freebsd"@, "freebsd"@, "x86_64"@, "14.0"@),
        Platform::Osx => ("osx"@, "osx"@, "x86_64"@, "13.0.0"@),
        Platform::OsxArm64 => ("osx-arm64"@, "osx"@, "arm64"@, "13.0.0"@),
        Platform::Windows => ("windows"@, "windows"@, "x86_64"@, "10.0"@),
        Platform::WindowsArm64 => ("windows-arm64"@, "windows"@, "arm64"@, "10.0"@),
        Platform::WindowsX86 => ("windows-x86"@, "windows"@, "x86"@, "10.0"@),
    }
}

/// The classpath separator of an operating system.
pub open spec fn separator_of(os_name: Seq<char>) -> char {
    if os_name == "windows"@ {
        ';'
    } else {
        ':'
    }
}

/// The evaluation context of a platform: no feature is on.
pub open spec fn platform_ctx(platform: Platform) -> CtxView {
    let facts = platform_facts(platform);
    CtxView {
        os_token: facts.0,
        os_name: facts.1,
        arch: facts.2,
        version: facts.3,
        features: Seq::empty(),
        path_sep: separator_of(facts.1),
    }
}

/// Expand a platform token into its evaluation [`Ctx`].
///
/// `linux` maps to x86-64 specifically. The versions are modern defaults: classic
/// `os.version` rules gate *old* systems out.
#[must_use]
pub fn expand_platform(platform: Platform) -> (ctx: Ctx)
    ensures
        ctx.deep_view() == platform_ctx(platform),
{
    let (token, os_name, arch, version) = match platform {
        Platform::Linux => ("linux", "linux", "x86_64", "6.1.0"),
        Platform::LinuxArm64 => ("linux-arm64", "linux", "arm64", "6.1.0"),
        Platform::LinuxArm32 => ("linux-arm32", "linux", "arm32", "6.1.0"),
        Platform::LinuxPpc64le => ("linux-ppc64le", "linux", "ppc64le", "6.1.0"),
        Platform::FreeBsd => ("freebsd", "freebsd", "x86_64", "14.0"),
        Platform::Osx => ("osx", "osx", "x86_64", "13.0.0"),
        Platform::OsxArm64 => ("osx-arm64", "osx", "arm64", "13.0.0"),
        Platform::Windows => ("windows", "windows", "x86_64", "10.0"),
        Platform::WindowsArm64 => ("windows-arm64", "windows", "arm64", "10.0"),
        Platform::WindowsX86 => ("windows-x86", "windows", "x86", "10.0"),
    };
    // The separator follows the target, never the host.
    let path_sep = if same_text(os_name, "windows") {
        ';'
    } else {
        ':'
    };
    Ctx {
        os_token: token.to_owned(),
        os_name: os_name.to_owned(),
        arch: arch.to_owned(),
        version: version.to_owned(),
        features: StringMap::new(),
        path_sep,
    }
}

/// The classpath separator of a target is `;` exactly on the windows tokens.
pub proof fn separator_follows_target(platform: Platform)
    ensures
        platform_ctx(platform).path_sep == ';' <==> (platform == Platform::Windows || platform
            == Platform::WindowsArm64 || platform == Platform::WindowsX86),
        platform_ctx(platform).path_sep == ';' || platform_ctx(platform).path_sep == ':',
{
    reveal_strlit("windows");
    reveal_strlit("linux");
    reveal_strlit("osx");
    reveal_strlit("freebsd");
    assert("windows"@[0] == 'w');
    assert("linux"@[0] == 'l');
    assert("osx"@[0] == 'o');
    assert("freebsd"@[0] == 'f');
}

/// Feature flags default to off on every platform.
pub proof fn features_are_off(platform: Platform, name: Seq<char>)
    ensures
        !platform_ctx(platform).has_feature(name),
{
}

/// No two platforms share a token.
pub proof fn tokens_are_distinct(a: Platform, b: Platform)
    ensures
        platform_facts(a).0 == platform_facts(b).0 ==> a == b,
{
    reveal_strlit("linux");
    reveal_strlit("linux-arm64");
    reveal_strlit("linux-arm32");
    reveal_strlit("linux-ppc64le");
    reveal_strlit("freebsd");
    reveal_strlit("osx");
    reveal_strlit("osx-arm64");
    reveal_strlit("windows");
    reveal_strlit("windows-arm64");
    reveal_strlit("windows-x86");
    let x = platform_facts(a).0;
    let y = platform_facts(b).0;
    assert(x == y ==> x.len() == y.len() && x[0] == y[0] && x[x.len() - 2] == y[y.len() - 2]
        && x[x.len() - 1] == y[y.len() - 1]);
}

/// The token of a platform is its classic name, followed by its arch unless that is
/// x86-64.
pub proof fn token_is_name_and_arch(platform: Platform)
    ensures
        ({
            let ctx = platform_ctx(platform);
            ctx.os_token == if ctx.arch == "x86_64"@ {
                ctx.os_name
            } else {
                ctx.os_name + "-"@ + ctx.arch
            }
        }),
{
    reveal_strlit("linux");
    reveal_strlit("linux-arm64");
    reveal_strlit("linux-arm32");
    reveal_strlit("linux-ppc64le");
    reveal_strlit("osx");
    reveal_strlit("osx-arm64");
    reveal_strlit("windows");
    reveal_strlit("windows-arm64");
    reveal_strlit("windows-x86");
    reveal_strlit("x86_64");
    reveal_strlit("x86");
    reveal_strlit("arm64");
    reveal_strlit("arm32");
    reveal_strlit("ppc64le");
    reveal_strlit("-");
    let ctx = platform_ctx(platform);
    assert("x86"@.len() != "x86_64"@.len());
    assert("arm64"@.len() != "x86_64"@.len());
    assert("arm32"@.len() != "x86_64"@.len());
    assert("ppc64le"@.len() != "x86_64"@.len());
    if ctx.arch != "x86_64"@ {
        assert(ctx.os_token =~= ctx.os_name + "-"@ + ctx.arch);
    }
}

/// Platforms of one operating system have the same version and separator.
pub proof fn version_follows_os(a: Platform, b: Platform)
    requires
        platform_ctx(a).os_name == platform_ctx(b).os_name,
    ensures
        platform_ctx(a).version == platform_ctx(b).version,
        platform_ctx(a).path_sep == platform_ctx(b).path_sep,
{
    reveal_strlit("linux");
    reveal_strlit("freebsd");
    reveal_strlit("osx");
    reveal_strlit("windows");
    assert("linux"@.len() == 5 && "osx"@.len() == 3);
    assert("windows"@[0] == 'w' && "freebsd"@[0] == 'f');
}

/// The bitness marker is `32` exactly on the two 32-bit archs.
pub proof fn bitness_follows_arch(ctx: CtxView)
    ensures
        ctx.bitness() == "32"@ <==> ctx.arch == "x86"@ || ctx.arch == "arm32"@,
        ctx.bitness() == "64"@ <==> ctx.arch != "x86"@ && ctx.arch != "arm32"@,
{
    reveal_strlit("32");
    reveal_strlit("64");
    assert("32"@[0] == '3' && "64"@[0] == '6');
}

/// A feature that is listed is as it is listed, and one that is not listed is off.
pub proof fn feature_is_as_listed(ctx: CtxView, name: Seq<char>)
    requires
        distinct_keys(ctx.features),
    ensures
        forall|i: int|
            0 <= i < ctx.features.len() && (#[trigger] ctx.features[i]).0 == name
                ==> ctx.has_feature(name) == ctx.features[i].1,
        (forall|i: int| 0 <= i < ctx.features.len() ==> (#[trigger] ctx.features[i]).0 != name)
            ==> !ctx.has_feature(name),
{
    assert forall|i: int|
        0 <= i < ctx.features.len() && (#[trigger] ctx.features[i]).0 == name implies ctx.has_feature(
        name,
    ) == ctx.features[i].1 by {
        lookup_is(ctx.features, i);
    }
}

} // verus!
