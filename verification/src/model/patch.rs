//! `patches/<uid>.json` - one component definition.
//!
//! Pure data. Every type comes with a view that shows its contents as
//! mathematical values; the contracts of the other modules speak of those views.

use vstd::prelude::*;

use crate::replicate::Replicate;
use crate::string_map::StringMap;

verus! {

/// One parsed `patches/<uid>.json`.
#[derive(Debug, Default)]
pub struct Patch {
    /// Component id (matches the pack component and the file name).
    pub uid: String,
    /// Display name (diagnostics only).
    pub name: Option<String>,
    /// Pinned component version.
    pub version: Option<String>,
    /// Informational; components are folded in the order of the pack manifest.
    pub order: i64,
    /// Entrypoint; the last component that sets it wins.
    pub main_class: Option<String>,
    /// The client jar; last-wins, goes on the classpath.
    pub main_jar: Option<MainJar>,
    /// Asset index reference; set by the Minecraft component.
    pub asset_index: Option<AssetIndexRef>,
    /// The log4j configuration of the component; last-wins.
    pub logging: Option<Logging>,
    /// Legacy game-argument string. Never merged with [`Patch::arguments`].
    pub minecraft_arguments: Option<String>,
    /// Modern structured arguments: `{ game, jvm }`.
    pub arguments: Option<Arguments>,
    /// Hint(s) for which JDK majors this component runs on.
    pub compatible_java_majors: Vec<u32>,
    /// The structured Java requirement; folded into the same hint list.
    pub java_version: Option<JavaVersion>,
    /// Libraries declared by this component -> classpath (accumulate).
    pub libraries: Vec<Library>,
    /// Additive-operator form of `libraries` (accumulate).
    pub plus_libraries: Vec<Library>,
    /// Removal operator: drop previously-added libs by `group:artifact`.
    pub minus_libraries: Vec<LibraryRef>,
    /// Artifacts downloaded into `libraries/` but kept off the classpath.
    pub maven_files: Vec<Library>,
    /// Pre-tokenized JVM arguments, passed through verbatim.
    pub plus_jvm_args: Vec<String>,
    /// `LaunchWrapper` tweaker classes -> emitted as `--tweakClass`.
    pub plus_tweakers: Vec<String>,
    /// Launcher behavior flags (e.g. `FirstThreadOnMacOS`).
    pub plus_traits: Vec<String>,
    /// Java agents -> `-javaagent` pass-through.
    pub plus_agents: Vec<Agent>,
    /// Components that must be present.
    pub requires: Vec<Dependency>,
    /// Components that are advised.
    pub suggests: Vec<Dependency>,
    /// Components that must be absent.
    pub conflicts: Vec<Dependency>,
    /// Format of the file; not read.
    pub format_version: Option<u32>,
    /// Release channel; not read.
    pub release_type: Option<String>,
    /// Release time; not read.
    pub release_time: Option<String>,
    /// Whether the launcher may drop the component; not read.
    pub volatile: Option<bool>,
    /// Advised Java runtime; not read.
    pub compatible_java_name: Option<String>,
    /// The names of the fields that are not modeled; reported when not empty.
    pub extra: Vec<String>,
}

/// What a [`Patch`] holds.
#[verifier::ext_equal]
pub struct PatchView {
    pub uid: Seq<char>,
    pub name: Option<Seq<char>>,
    pub version: Option<Seq<char>>,
    pub order: i64,
    pub main_class: Option<Seq<char>>,
    pub main_jar: Option<MainJarView>,
    pub asset_index: Option<AssetIndexRefView>,
    pub logging: Option<LoggingView>,
    pub minecraft_arguments: Option<Seq<char>>,
    pub arguments: Option<ArgumentsView>,
    pub compatible_java_majors: Seq<u32>,
    pub java_version: Option<JavaVersionView>,
    pub libraries: Seq<LibraryView>,
    pub plus_libraries: Seq<LibraryView>,
    pub minus_libraries: Seq<LibraryRefView>,
    pub maven_files: Seq<LibraryView>,
    pub plus_jvm_args: Seq<Seq<char>>,
    pub plus_tweakers: Seq<Seq<char>>,
    pub plus_traits: Seq<Seq<char>>,
    pub plus_agents: Seq<AgentView>,
    pub requires: Seq<DependencyView>,
    pub suggests: Seq<DependencyView>,
    pub conflicts: Seq<DependencyView>,
    pub format_version: Option<u32>,
    pub release_type: Option<Seq<char>>,
    pub release_time: Option<Seq<char>>,
    pub volatile: Option<bool>,
    pub compatible_java_name: Option<Seq<char>>,
    pub extra: Seq<Seq<char>>,
}

impl DeepView for Patch {
    type V = PatchView;

    open spec fn deep_view(&self) -> PatchView {
        PatchView {
            uid: self.uid.deep_view(),
            name: self.name.deep_view(),
            version: self.version.deep_view(),
            order: self.order.deep_view(),
            main_class: self.main_class.deep_view(),
            main_jar: self.main_jar.deep_view(),
            asset_index: self.asset_index.deep_view(),
            logging: self.logging.deep_view(),
            minecraft_arguments: self.minecraft_arguments.deep_view(),
            arguments: self.arguments.deep_view(),
            compatible_java_majors: self.compatible_java_majors.deep_view(),
            java_version: self.java_version.deep_view(),
            libraries: self.libraries.deep_view(),
            plus_libraries: self.plus_libraries.deep_view(),
            minus_libraries: self.minus_libraries.deep_view(),
            maven_files: self.maven_files.deep_view(),
            plus_jvm_args: self.plus_jvm_args.deep_view(),
            plus_tweakers: self.plus_tweakers.deep_view(),
            plus_traits: self.plus_traits.deep_view(),
            plus_agents: self.plus_agents.deep_view(),
            requires: self.requires.deep_view(),
            suggests: self.suggests.deep_view(),
            conflicts: self.conflicts.deep_view(),
            format_version: self.format_version.deep_view(),
            release_type: self.release_type.deep_view(),
            release_time: self.release_time.deep_view(),
            volatile: self.volatile.deep_view(),
            compatible_java_name: self.compatible_java_name.deep_view(),
            extra: self.extra.deep_view(),
        }
    }
}

impl Replicate for Patch {
    fn replicate(&self) -> (copy: Self) {
        Patch {
            uid: self.uid.replicate(),
            name: self.name.replicate(),
            version: self.version.replicate(),
            order: self.order.replicate(),
            main_class: self.main_class.replicate(),
            main_jar: self.main_jar.replicate(),
            asset_index: self.asset_index.replicate(),
            logging: self.logging.replicate(),
            minecraft_arguments: self.minecraft_arguments.replicate(),
            arguments: self.arguments.replicate(),
            compatible_java_majors: self.compatible_java_majors.replicate(),
            java_version: self.java_version.replicate(),
            libraries: self.libraries.replicate(),
            plus_libraries: self.plus_libraries.replicate(),
            minus_libraries: self.minus_libraries.replicate(),
            maven_files: self.maven_files.replicate(),
            plus_jvm_args: self.plus_jvm_args.replicate(),
            plus_tweakers: self.plus_tweakers.replicate(),
            plus_traits: self.plus_traits.replicate(),
            plus_agents: self.plus_agents.replicate(),
            requires: self.requires.replicate(),
            suggests: self.suggests.replicate(),
            conflicts: self.conflicts.replicate(),
            format_version: self.format_version.replicate(),
            release_type: self.release_type.replicate(),
            release_time: self.release_time.replicate(),
            volatile: self.volatile.replicate(),
            compatible_java_name: self.compatible_java_name.replicate(),
            extra: self.extra.replicate(),
        }
    }
}

impl Clone for Patch {
    fn clone(&self) -> (copy: Self)
        ensures
            copy.deep_view() == self.deep_view(),
    {
        self.replicate()
    }
}

/// A library entry, covering every variant in one shape: a plain
/// `downloads.artifact`, a bare `name` + `url` base, an empty or missing sha1, a
/// no-url / `MMC-hint: "local"` entry, and natives (modern classifier library or
/// legacy `classifiers` + `natives`).
#[derive(Debug, Default)]
pub struct Library {
    /// Maven coordinate `group:artifact:version[:classifier]`.
    pub name: String,
    /// Explicit download(s); absent for the bare-name and no-url variants.
    pub downloads: Option<Downloads>,
    /// Maven repository base URL for the bare `name` + `url` variant.
    pub url: Option<String>,
    /// `"local"` marks a no-url jar that must be present.
    pub mmc_hint: Option<String>,
    /// Legacy natives: operating system -> classifier; selects from `classifiers`.
    pub natives: Option<StringMap<String>>,
    /// Legacy natives extraction directives.
    pub extract: Option<Extract>,
    /// Platform gating rules.
    pub rules: Option<Vec<Rule>>,
}

/// What a [`Library`] holds.
#[verifier::ext_equal]
pub struct LibraryView {
    pub name: Seq<char>,
    pub downloads: Option<DownloadsView>,
    pub url: Option<Seq<char>>,
    pub mmc_hint: Option<Seq<char>>,
    pub natives: Option<Seq<(Seq<char>, Seq<char>)>>,
    pub extract: Option<ExtractView>,
    pub rules: Option<Seq<RuleView>>,
}

impl DeepView for Library {
    type V = LibraryView;

    open spec fn deep_view(&self) -> LibraryView {
        LibraryView {
            name: self.name.deep_view(),
            downloads: self.downloads.deep_view(),
            url: self.url.deep_view(),
            mmc_hint: self.mmc_hint.deep_view(),
            natives: self.natives.deep_view(),
            extract: self.extract.deep_view(),
            rules: self.rules.deep_view(),
        }
    }
}

impl Replicate for Library {
    fn replicate(&self) -> (copy: Self) {
        Library {
            name: self.name.replicate(),
            downloads: self.downloads.replicate(),
            url: self.url.replicate(),
            mmc_hint: self.mmc_hint.replicate(),
            natives: self.natives.replicate(),
            extract: self.extract.replicate(),
            rules: self.rules.replicate(),
        }
    }
}

impl Clone for Library {
    fn clone(&self) -> (copy: Self)
        ensures
            copy.deep_view() == self.deep_view(),
    {
        self.replicate()
    }
}

/// A reference to a library by name, used by the `-libraries` operator: either a
/// bare coordinate or an object with a `name`.
#[derive(Debug)]
pub enum LibraryRef {
    Bare(String),
    Entry { name: String },
}

/// What a [`LibraryRef`] holds.
#[verifier::ext_equal]
pub enum LibraryRefView {
    Bare(Seq<char>),
    Entry { name: Seq<char> },
}

impl LibraryRefView {
    /// The maven coordinate this reference names.
    pub open spec fn coordinate(self) -> Seq<char> {
        match self {
            LibraryRefView::Bare(name) => name,
            LibraryRefView::Entry { name } => name,
        }
    }
}

impl DeepView for LibraryRef {
    type V = LibraryRefView;

    open spec fn deep_view(&self) -> LibraryRefView {
        match self {
            LibraryRef::Bare(name) => LibraryRefView::Bare(name@),
            LibraryRef::Entry { name } => LibraryRefView::Entry { name: name@ },
        }
    }
}

impl LibraryRef {
    /// The maven coordinate this reference names.
    pub fn name(&self) -> (coordinate: &str)
        ensures
            coordinate@ == self.deep_view().coordinate(),
    {
        match self {
            LibraryRef::Bare(name) => name.as_str(),
            LibraryRef::Entry { name } => name.as_str(),
        }
    }
}

impl Replicate for LibraryRef {
    fn replicate(&self) -> (copy: Self) {
        match self {
            LibraryRef::Bare(name) => LibraryRef::Bare(name.clone()),
            LibraryRef::Entry { name } => LibraryRef::Entry { name: name.clone() },
        }
    }
}

impl Clone for LibraryRef {
    fn clone(&self) -> (copy: Self)
        ensures
            copy.deep_view() == self.deep_view(),
    {
        self.replicate()
    }
}

/// The `downloads` block of a library or main jar.
#[derive(Debug, Default)]
pub struct Downloads {
    /// The single primary artifact (plain libraries, modern natives, main jar).
    pub artifact: Option<Artifact>,
    /// Per-classifier artifacts (legacy natives, see [`Library::natives`]).
    pub classifiers: Option<StringMap<Artifact>>,
}

/// What a [`Downloads`] holds.
#[verifier::ext_equal]
pub struct DownloadsView {
    pub artifact: Option<ArtifactView>,
    pub classifiers: Option<Seq<(Seq<char>, ArtifactView)>>,
}

impl DeepView for Downloads {
    type V = DownloadsView;

    open spec fn deep_view(&self) -> DownloadsView {
        DownloadsView {
            artifact: self.artifact.deep_view(),
            classifiers: self.classifiers.deep_view(),
        }
    }
}

impl Replicate for Downloads {
    fn replicate(&self) -> (copy: Self) {
        Downloads {
            artifact: self.artifact.replicate(),
            classifiers: self.classifiers.replicate(),
        }
    }
}

impl Clone for Downloads {
    fn clone(&self) -> (copy: Self)
        ensures
            copy.deep_view() == self.deep_view(),
    {
        self.replicate()
    }
}

/// A single downloadable artifact. `sha1` may be empty (verification skipped) and
/// `url` may be absent for must-be-local entries.
#[derive(Debug, Default)]
pub struct Artifact {
    /// Where the artifact is downloaded from.
    pub url: Option<String>,
    /// Expected SHA-1 in hexadecimal.
    pub sha1: Option<String>,
    /// Expected size in bytes.
    pub size: Option<u64>,
}

/// What an [`Artifact`] holds.
#[verifier::ext_equal]
pub struct ArtifactView {
    pub url: Option<Seq<char>>,
    pub sha1: Option<Seq<char>>,
    pub size: Option<u64>,
}

impl DeepView for Artifact {
    type V = ArtifactView;

    open spec fn deep_view(&self) -> ArtifactView {
        ArtifactView {
            url: self.url.deep_view(),
            sha1: self.sha1.deep_view(),
            size: self.size.deep_view(),
        }
    }
}

impl Replicate for Artifact {
    fn replicate(&self) -> (copy: Self) {
        Artifact {
            url: self.url.replicate(),
            sha1: self.sha1.replicate(),
            size: self.size.replicate(),
        }
    }
}

impl Clone for Artifact {
    fn clone(&self) -> (copy: Self)
        ensures
            copy.deep_view() == self.deep_view(),
    {
        self.replicate()
    }
}

/// Legacy-native extraction directives.
#[derive(Debug, Default)]
pub struct Extract {
    /// Path prefixes to exclude when unzipping into `natives/`.
    pub exclude: Vec<String>,
}

/// What an [`Extract`] holds.
#[verifier::ext_equal]
pub struct ExtractView {
    pub exclude: Seq<Seq<char>>,
}

impl DeepView for Extract {
    type V = ExtractView;

    open spec fn deep_view(&self) -> ExtractView {
        ExtractView {
            exclude: self.exclude.deep_view(),
        }
    }
}

impl Replicate for Extract {
    fn replicate(&self) -> (copy: Self) {
        Extract {
            exclude: self.exclude.replicate(),
        }
    }
}

impl Clone for Extract {
    fn clone(&self) -> (copy: Self)
        ensures
            copy.deep_view() == self.deep_view(),
    {
        self.replicate()
    }
}

/// One rule entry, with allow/disallow semantics.
#[derive(Debug)]
pub struct Rule {
    /// `"allow"` or `"disallow"`.
    pub action: String,
    /// OS predicate (token form or classic name/arch/version).
    pub os: Option<Os>,
    /// Feature-flag predicate (e.g. `is_demo_user`).
    pub features: Option<StringMap<bool>>,
}

/// What a [`Rule`] holds.
#[verifier::ext_equal]
pub struct RuleView {
    pub action: Seq<char>,
    pub os: Option<OsView>,
    pub features: Option<Seq<(Seq<char>, bool)>>,
}

impl DeepView for Rule {
    type V = RuleView;

    open spec fn deep_view(&self) -> RuleView {
        RuleView {
            action: self.action.deep_view(),
            os: self.os.deep_view(),
            features: self.features.deep_view(),
        }
    }
}

impl Replicate for Rule {
    fn replicate(&self) -> (copy: Self) {
        Rule {
            action: self.action.replicate(),
            os: self.os.replicate(),
            features: self.features.replicate(),
        }
    }
}

impl Clone for Rule {
    fn clone(&self) -> (copy: Self)
        ensures
            copy.deep_view() == self.deep_view(),
    {
        self.replicate()
    }
}

/// The `os` predicate of a [`Rule`], accepting both rule dialects.
#[derive(Debug, Default)]
pub struct Os {
    /// Token (`linux`, `osx-arm64`, ...) or classic name (`linux`/`osx`/...).
    pub name: Option<String>,
    /// Classic arch (`x86`/`x86_64`/`arm64`).
    pub arch: Option<String>,
    /// Classic OS version regex.
    pub version: Option<String>,
}

/// What an [`Os`] holds.
#[verifier::ext_equal]
pub struct OsView {
    pub name: Option<Seq<char>>,
    pub arch: Option<Seq<char>>,
    pub version: Option<Seq<char>>,
}

impl DeepView for Os {
    type V = OsView;

    open spec fn deep_view(&self) -> OsView {
        OsView {
            name: self.name.deep_view(),
            arch: self.arch.deep_view(),
            version: self.version.deep_view(),
        }
    }
}

impl Replicate for Os {
    fn replicate(&self) -> (copy: Self) {
        Os {
            name: self.name.replicate(),
            arch: self.arch.replicate(),
            version: self.version.replicate(),
        }
    }
}

impl Clone for Os {
    fn clone(&self) -> (copy: Self)
        ensures
            copy.deep_view() == self.deep_view(),
    {
        self.replicate()
    }
}

/// Modern argument block.
#[derive(Debug, Default)]
pub struct Arguments {
    /// Arguments of the game.
    pub game: Vec<ArgEntry>,
    /// Arguments of the JVM.
    pub jvm: Vec<ArgEntry>,
}

/// What an [`Arguments`] holds.
#[verifier::ext_equal]
pub struct ArgumentsView {
    pub game: Seq<ArgEntryView>,
    pub jvm: Seq<ArgEntryView>,
}

impl DeepView for Arguments {
    type V = ArgumentsView;

    open spec fn deep_view(&self) -> ArgumentsView {
        ArgumentsView {
            game: self.game.deep_view(),
            jvm: self.jvm.deep_view(),
        }
    }
}

impl Replicate for Arguments {
    fn replicate(&self) -> (copy: Self) {
        Arguments {
            game: self.game.replicate(),
            jvm: self.jvm.replicate(),
        }
    }
}

impl Clone for Arguments {
    fn clone(&self) -> (copy: Self)
        ensures
            copy.deep_view() == self.deep_view(),
    {
        self.replicate()
    }
}

/// One modern-argument element: either a plain string or a rule-gated value.
#[derive(Debug)]
pub enum ArgEntry {
    /// An unconditional argument token.
    Plain(String),
    /// A conditional argument: included only if `rules` allow the platform.
    Conditional { rules: Vec<Rule>, value: ArgValue },
}

/// What an [`ArgEntry`] holds.
#[verifier::ext_equal]
pub enum ArgEntryView {
    Plain(Seq<char>),
    Conditional { rules: Seq<RuleView>, value: ArgValueView },
}

impl DeepView for ArgEntry {
    type V = ArgEntryView;

    open spec fn deep_view(&self) -> ArgEntryView {
        match self {
            ArgEntry::Plain(token) => ArgEntryView::Plain(token@),
            ArgEntry::Conditional { rules, value } => ArgEntryView::Conditional {
                rules: rules.deep_view(),
                value: value.deep_view(),
            },
        }
    }
}

impl Replicate for ArgEntry {
    fn replicate(&self) -> (copy: Self) {
        match self {
            ArgEntry::Plain(token) => ArgEntry::Plain(token.clone()),
            ArgEntry::Conditional { rules, value } => ArgEntry::Conditional {
                rules: rules.replicate(),
                value: value.replicate(),
            },
        }
    }
}

impl Clone for ArgEntry {
    fn clone(&self) -> (copy: Self)
        ensures
            copy.deep_view() == self.deep_view(),
    {
        self.replicate()
    }
}

/// The `value` of a conditional [`ArgEntry`]: one token or several.
#[derive(Debug)]
pub enum ArgValue {
    Single(String),
    Many(Vec<String>),
}

/// What an [`ArgValue`] holds.
#[verifier::ext_equal]
pub enum ArgValueView {
    Single(Seq<char>),
    Many(Seq<Seq<char>>),
}

impl DeepView for ArgValue {
    type V = ArgValueView;

    open spec fn deep_view(&self) -> ArgValueView {
        match self {
            ArgValue::Single(token) => ArgValueView::Single(token@),
            ArgValue::Many(tokens) => ArgValueView::Many(tokens.deep_view()),
        }
    }
}

impl Replicate for ArgValue {
    fn replicate(&self) -> (copy: Self) {
        match self {
            ArgValue::Single(token) => ArgValue::Single(token.clone()),
            ArgValue::Many(tokens) => ArgValue::Many(tokens.replicate()),
        }
    }
}

impl Clone for ArgValue {
    fn clone(&self) -> (copy: Self)
        ensures
            copy.deep_view() == self.deep_view(),
    {
        self.replicate()
    }
}

/// The client jar (`mainJar`); shares the `downloads` shape with libraries.
#[derive(Debug, Default)]
pub struct MainJar {
    /// Maven coordinate of the client jar.
    pub name: String,
    /// Where it is downloaded from.
    pub downloads: Option<Downloads>,
}

/// What a [`MainJar`] holds.
#[verifier::ext_equal]
pub struct MainJarView {
    pub name: Seq<char>,
    pub downloads: Option<DownloadsView>,
}

impl DeepView for MainJar {
    type V = MainJarView;

    open spec fn deep_view(&self) -> MainJarView {
        MainJarView {
            name: self.name.deep_view(),
            downloads: self.downloads.deep_view(),
        }
    }
}

impl Replicate for MainJar {
    fn replicate(&self) -> (copy: Self) {
        MainJar {
            name: self.name.replicate(),
            downloads: self.downloads.replicate(),
        }
    }
}

impl Clone for MainJar {
    fn clone(&self) -> (copy: Self)
        ensures
            copy.deep_view() == self.deep_view(),
    {
        self.replicate()
    }
}

/// The structured Java requirement. Only `major_version` matters for JDK selection;
/// `component` (the name of a runtime) is advisory.
#[derive(Debug, Default)]
pub struct JavaVersion {
    /// The JDK major this component runs on.
    pub major_version: Option<u32>,
    /// Name of a Java runtime; not read.
    pub component: Option<String>,
}

/// What a [`JavaVersion`] holds.
#[verifier::ext_equal]
pub struct JavaVersionView {
    pub major_version: Option<u32>,
    pub component: Option<Seq<char>>,
}

impl DeepView for JavaVersion {
    type V = JavaVersionView;

    open spec fn deep_view(&self) -> JavaVersionView {
        JavaVersionView {
            major_version: self.major_version.deep_view(),
            component: self.component.deep_view(),
        }
    }
}

impl Replicate for JavaVersion {
    fn replicate(&self) -> (copy: Self) {
        JavaVersion {
            major_version: self.major_version.replicate(),
            component: self.component.replicate(),
        }
    }
}

impl Clone for JavaVersion {
    fn clone(&self) -> (copy: Self)
        ensures
            copy.deep_view() == self.deep_view(),
    {
        self.replicate()
    }
}

/// The asset index reference declared by the Minecraft component.
#[derive(Debug, Default)]
pub struct AssetIndexRef {
    /// Name of the index.
    pub id: String,
    /// Expected SHA-1 of the index file; empty means none.
    pub sha1: Option<String>,
    /// Expected size of the index file.
    pub size: Option<u64>,
    /// Size of all objects together; not read.
    pub total_size: Option<u64>,
    /// Where the index is downloaded from.
    pub url: Option<String>,
}

/// What an [`AssetIndexRef`] holds.
#[verifier::ext_equal]
pub struct AssetIndexRefView {
    pub id: Seq<char>,
    pub sha1: Option<Seq<char>>,
    pub size: Option<u64>,
    pub total_size: Option<u64>,
    pub url: Option<Seq<char>>,
}

impl DeepView for AssetIndexRef {
    type V = AssetIndexRefView;

    open spec fn deep_view(&self) -> AssetIndexRefView {
        AssetIndexRefView {
            id: self.id.deep_view(),
            sha1: self.sha1.deep_view(),
            size: self.size.deep_view(),
            total_size: self.total_size.deep_view(),
            url: self.url.deep_view(),
        }
    }
}

impl Replicate for AssetIndexRef {
    fn replicate(&self) -> (copy: Self) {
        AssetIndexRef {
            id: self.id.replicate(),
            sha1: self.sha1.replicate(),
            size: self.size.replicate(),
            total_size: self.total_size.replicate(),
            url: self.url.replicate(),
        }
    }
}

impl Clone for AssetIndexRef {
    fn clone(&self) -> (copy: Self)
        ensures
            copy.deep_view() == self.deep_view(),
    {
        self.replicate()
    }
}

/// The log4j configuration that a component asks for.
#[derive(Debug, Default)]
pub struct Logging {
    /// The JVM argument, with `${path}` for the path of the configuration.
    pub argument: Option<String>,
    /// The configuration file.
    pub file: Option<LoggingFile>,
    /// Kind of the configuration; not read.
    pub config_type: Option<String>,
}

/// What a [`Logging`] holds.
#[verifier::ext_equal]
pub struct LoggingView {
    pub argument: Option<Seq<char>>,
    pub file: Option<LoggingFileView>,
    pub config_type: Option<Seq<char>>,
}

impl DeepView for Logging {
    type V = LoggingView;

    open spec fn deep_view(&self) -> LoggingView {
        LoggingView {
            argument: self.argument.deep_view(),
            file: self.file.deep_view(),
            config_type: self.config_type.deep_view(),
        }
    }
}

impl Replicate for Logging {
    fn replicate(&self) -> (copy: Self) {
        Logging {
            argument: self.argument.replicate(),
            file: self.file.replicate(),
            config_type: self.config_type.replicate(),
        }
    }
}

impl Clone for Logging {
    fn clone(&self) -> (copy: Self)
        ensures
            copy.deep_view() == self.deep_view(),
    {
        self.replicate()
    }
}

/// A downloadable log4j configuration file.
#[derive(Debug, Default)]
pub struct LoggingFile {
    /// File name of the configuration.
    pub id: String,
    /// Expected SHA-1; empty means none.
    pub sha1: Option<String>,
    /// Expected size in bytes.
    pub size: Option<u64>,
    /// Where the file is downloaded from.
    pub url: Option<String>,
}

/// What a [`LoggingFile`] holds.
#[verifier::ext_equal]
pub struct LoggingFileView {
    pub id: Seq<char>,
    pub sha1: Option<Seq<char>>,
    pub size: Option<u64>,
    pub url: Option<Seq<char>>,
}

impl DeepView for LoggingFile {
    type V = LoggingFileView;

    open spec fn deep_view(&self) -> LoggingFileView {
        LoggingFileView {
            id: self.id.deep_view(),
            sha1: self.sha1.deep_view(),
            size: self.size.deep_view(),
            url: self.url.deep_view(),
        }
    }
}

impl Replicate for LoggingFile {
    fn replicate(&self) -> (copy: Self) {
        LoggingFile {
            id: self.id.replicate(),
            sha1: self.sha1.replicate(),
            size: self.size.replicate(),
            url: self.url.replicate(),
        }
    }
}

impl Clone for LoggingFile {
    fn clone(&self) -> (copy: Self)
        ensures
            copy.deep_view() == self.deep_view(),
    {
        self.replicate()
    }
}

/// A Java-agent entry from `+agents`.
#[derive(Debug, Default)]
pub struct Agent {
    /// Maven coordinate of the agent jar, with optional `=options`.
    pub name: String,
}

/// What an [`Agent`] holds.
#[verifier::ext_equal]
pub struct AgentView {
    pub name: Seq<char>,
}

impl DeepView for Agent {
    type V = AgentView;

    open spec fn deep_view(&self) -> AgentView {
        AgentView {
            name: self.name.deep_view(),
        }
    }
}

impl Replicate for Agent {
    fn replicate(&self) -> (copy: Self) {
        Agent {
            name: self.name.replicate(),
        }
    }
}

impl Clone for Agent {
    fn clone(&self) -> (copy: Self)
        ensures
            copy.deep_view() == self.deep_view(),
    {
        self.replicate()
    }
}

/// A `requires`/`suggests`/`conflicts` dependency record.
#[derive(Debug, Default)]
pub struct Dependency {
    /// The component this record is about.
    pub uid: String,
    /// Exact version constraint.
    pub equals: Option<String>,
    /// Suggested version (advisory).
    pub suggests: Option<String>,
}

/// What a [`Dependency`] holds.
#[verifier::ext_equal]
pub struct DependencyView {
    pub uid: Seq<char>,
    pub equals: Option<Seq<char>>,
    pub suggests: Option<Seq<char>>,
}

impl DeepView for Dependency {
    type V = DependencyView;

    open spec fn deep_view(&self) -> DependencyView {
        DependencyView {
            uid: self.uid.deep_view(),
            equals: self.equals.deep_view(),
            suggests: self.suggests.deep_view(),
        }
    }
}

impl Replicate for Dependency {
    fn replicate(&self) -> (copy: Self) {
        Dependency {
            uid: self.uid.replicate(),
            equals: self.equals.replicate(),
            suggests: self.suggests.replicate(),
        }
    }
}

impl Clone for Dependency {
    fn clone(&self) -> (copy: Self)
        ensures
            copy.deep_view() == self.deep_view(),
    {
        self.replicate()
    }
}

} // verus!
