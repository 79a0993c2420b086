//! Artifact resolution - turn a merged [`Profile`] into [`ArtifactRecord`]s.
//!
//! For each kept library, maven file and main jar this decides the [`Role`],
//! computes the maven `local_path`, and attaches the download `url`. The path and
//! url come from the same function so they can never drift: the url-deriving
//! variants (bare `name` plus a `url` base, or a url-less non-local entry
//! defaulting to the Mojang libraries server) build both from one relative path,
//! while an explicit `downloads.*.url` is used verbatim (deriving a SNAPSHOT url
//! from the resolved-version `name` would be wrong). Only `MMC-hint: "local"` jars
//! stay url-less.

use vstd::prelude::*;
use vstd::string::*;

use crate::coordinate::{
    artifact_key, bad_coordinate, coordinate_of, key_of, maven_coordinate_to_path, maven_filename,
    maven_path, parse_coordinate, CoordinateView,
};
use crate::exit::{outcome, plain_error, Cause, CauseView, Error, ErrorView};
use crate::lists::{chained, chained_holds_its_parts};
use crate::model::artifact::{ArtifactRecord, ArtifactRecordView, Role};
use crate::model::patch::{
    Artifact, ArtifactView, Downloads, DownloadsView, Library, LibraryView, MainJar, MainJarView,
    RuleView,
};
use crate::model::profile::{Profile, ProfileView};
use crate::paths::{is_absolute, is_absolute_path, join_path, path_join};
use crate::platform::{Ctx, CtxView};
use crate::replicate::Replicate;
use crate::rules::{allowed, permits};
use crate::string_map::lookup;
use crate::text::{concat3, replace, replace_each, same_text, trim_end, trimmed_end};

verus! {

/// Fallback download root for a url-less library, matching MultiMC/Prism (which
/// default an empty repository url to this). Forge lists libraries like
/// `net.minecraft:launchwrapper:1.12` by bare name, expecting it here.
pub const MOJANG_LIBRARIES_BASE: &'static str = "https://libraries.minecraft.net";

// ---------------------------------------------------------------------------
// What resolution means
// ---------------------------------------------------------------------------

/// A text that is there and holds something.
pub open spec fn filled(text: Option<Seq<char>>) -> Option<Seq<char>> {
    match text {
        Some(text) => if text.len() > 0 {
            Some(text)
        } else {
            None
        },
        None => None,
    }
}

/// The plain artifact among the downloads.
pub open spec fn plain_artifact(downloads: Option<DownloadsView>) -> Option<ArtifactView> {
    match downloads {
        Some(downloads) => downloads.artifact,
        None => None,
    }
}

/// The download of one classifier.
pub open spec fn classified_artifact(
    downloads: Option<DownloadsView>,
    classifier: Seq<char>,
) -> Option<ArtifactView> {
    match downloads {
        Some(downloads) => match downloads.classifiers {
            Some(classifiers) => lookup(classifiers, classifier),
            None => None,
        },
        None => None,
    }
}

/// The rules of a library. Without any it is allowed everywhere.
pub open spec fn rules_of(library: LibraryView) -> Seq<RuleView> {
    match library.rules {
        Some(rules) => rules,
        None => Seq::empty(),
    }
}

/// The libraries that a platform allows, in order.
pub open spec fn permitted(libraries: Seq<LibraryView>, ctx: CtxView) -> Seq<LibraryView> {
    libraries.filter(|library: LibraryView| permits(rules_of(library), ctx))
}

/// Whether one of `libraries` has the `group:artifact` key `key`.
pub open spec fn declared(libraries: Seq<LibraryView>, key: Seq<char>) -> bool {
    exists|i: int| 0 <= i < libraries.len() && key_of((#[trigger] libraries[i]).name) == key
}

/// The libraries without those that a later one with the same `group:artifact`
/// replaces, in order.
pub open spec fn last_declared(libraries: Seq<LibraryView>) -> Seq<LibraryView>
    decreases libraries.len(),
{
    if libraries.len() == 0 {
        libraries
    } else {
        let rest = libraries.skip(1);
        if declared(rest, key_of(libraries[0].name)) {
            last_declared(rest)
        } else {
            seq![libraries[0]] + last_declared(rest)
        }
    }
}

/// The record of a library that goes on the classpath, whose place in a maven
/// repository is `relative`.
pub open spec fn plain_record(
    library: LibraryView,
    relative: Seq<char>,
    libraries_dir: Seq<char>,
) -> ArtifactRecordView {
    let artifact = plain_artifact(library.downloads);
    let bare = ArtifactRecordView {
        coordinate: library.name,
        url: None,
        url_is_fallback: false,
        sha1: None,
        size: None,
        local_path: path_join(libraries_dir, relative),
        role: Role::Classpath,
        extract_exclude: Seq::empty(),
    };
    if artifact is Some && filled(artifact->0.url) is Some {
        // An explicit artifact with a url: the url verbatim.
        ArtifactRecordView {
            url: artifact->0.url,
            sha1: filled(artifact->0.sha1),
            size: artifact->0.size,
            ..bare
        }
    } else if filled(library.url) is Some {
        // A url base: the url is derived from the same relative path.
        ArtifactRecordView {
            url: Some(trimmed_end(library.url->0, '/') + "/"@ + relative),
            ..bare
        }
    } else if library.mmc_hint == Some("local"@) {
        // Assume-local: flat in the libraries directory, never fetched.
        ArtifactRecordView {
            local_path: path_join(libraries_dir, coordinate_of(library.name)->0.file()),
            ..bare
        }
    } else {
        // Nothing said: the Mojang libraries server.
        ArtifactRecordView {
            url: Some(MOJANG_LIBRARIES_BASE@ + "/"@ + relative),
            url_is_fallback: true,
            ..bare
        }
    }
}

/// The classifier template of a legacy native for a platform: by token first, then
/// by classic name.
pub open spec fn native_template(natives: Seq<(Seq<char>, Seq<char>)>, ctx: CtxView) -> Option<
    Seq<char>,
> {
    match lookup(natives, ctx.os_token) {
        Some(template) => Some(template),
        None => lookup(natives, ctx.os_name),
    }
}

/// What becomes of a legacy native: nothing on a platform that its map does not
/// name, else the record of the classifier that the map leads to.
pub open spec fn native_outcome(
    library: LibraryView,
    natives: Seq<(Seq<char>, Seq<char>)>,
    ctx: CtxView,
    libraries_dir: Seq<char>,
) -> Result<Option<ArtifactRecordView>, ErrorView> {
    match native_template(natives, ctx) {
        None => Ok(None),
        Some(template) => {
            let classifier = replace_each(template, "${arch}"@, ctx.bitness());
            let coordinate = library.name + ":"@ + classifier;
            match classified_artifact(library.downloads, classifier) {
                None => Err(plain_error(CauseView::NoNativeDownload { classifier })),
                Some(artifact) => match maven_path(coordinate) {
                    None => Err(bad_coordinate(coordinate)),
                    Some(relative) => Ok(
                        Some(
                            ArtifactRecordView {
                                coordinate,
                                url: filled(artifact.url),
                                url_is_fallback: false,
                                sha1: filled(artifact.sha1),
                                size: artifact.size,
                                local_path: path_join(libraries_dir, relative),
                                role: Role::NativeExtract,
                                extract_exclude: match library.extract {
                                    Some(extract) => extract.exclude,
                                    None => Seq::empty(),
                                },
                            },
                        ),
                    ),
                },
            }
        },
    }
}

/// What becomes of one library: a record, nothing on this platform, or a failure.
pub open spec fn library_outcome(
    library: LibraryView,
    ctx: CtxView,
    libraries_dir: Seq<char>,
) -> Result<Option<ArtifactRecordView>, ErrorView> {
    match library.natives {
        Some(natives) => native_outcome(library, natives, ctx, libraries_dir),
        None => match maven_path(library.name) {
            None => Err(bad_coordinate(library.name)),
            Some(relative) => Ok(Some(plain_record(library, relative, libraries_dir))),
        },
    }
}

/// What becomes of a list of libraries: the records in order, or the first failure,
/// with `doing` and the library's name as its context.
pub open spec fn libraries_outcome(
    libraries: Seq<LibraryView>,
    ctx: CtxView,
    libraries_dir: Seq<char>,
    doing: Seq<char>,
) -> Result<Seq<ArtifactRecordView>, ErrorView>
    decreases libraries.len(),
{
    if libraries.len() == 0 {
        Ok(Seq::empty())
    } else {
        match libraries_outcome(libraries.drop_last(), ctx, libraries_dir, doing) {
            Err(error) => Err(error),
            Ok(records) => match library_outcome(libraries.last(), ctx, libraries_dir) {
                Err(error) => Err(error.within(doing + libraries.last().name)),
                Ok(None) => Ok(records),
                Ok(Some(record)) => Ok(records.push(record)),
            },
        }
    }
}

/// What becomes of the main jar: the conventional `versions/<ver>/<ver>.jar`, with
/// its url verbatim.
pub open spec fn main_jar_outcome(main_jar: MainJarView, instance_dir: Seq<char>) -> Result<
    ArtifactRecordView,
    ErrorView,
> {
    match coordinate_of(main_jar.name) {
        None => Err(bad_coordinate(main_jar.name)),
        Some(coordinate) => {
            let artifact = plain_artifact(main_jar.downloads);
            let version = coordinate.version;
            Ok(
                ArtifactRecordView {
                    coordinate: main_jar.name,
                    url: match artifact {
                        Some(artifact) => filled(artifact.url),
                        None => None,
                    },
                    url_is_fallback: false,
                    sha1: match artifact {
                        Some(artifact) => filled(artifact.sha1),
                        None => None,
                    },
                    size: match artifact {
                        Some(artifact) => artifact.size,
                        None => None,
                    },
                    local_path: path_join(
                        path_join(path_join(instance_dir, "versions"@), version),
                        version + ".jar"@,
                    ),
                    role: Role::Classpath,
                    extract_exclude: Seq::empty(),
                },
            )
        },
    }
}

/// The main jar's record, if there is a main jar.
pub open spec fn main_jar_records(main_jar: Option<MainJarView>, instance_dir: Seq<char>) -> Result<
    Seq<ArtifactRecordView>,
    ErrorView,
> {
    match main_jar {
        None => Ok(Seq::empty()),
        Some(main_jar) => match main_jar_outcome(main_jar, instance_dir) {
            Ok(record) => Ok(seq![record]),
            Err(error) => Err(error.within("resolving main jar "@ + main_jar.name)),
        },
    }
}

/// The record of a maven file: downloaded or assumed local like a library, but
/// never on the classpath.
pub open spec fn off_classpath(record: ArtifactRecordView) -> ArtifactRecordView {
    if record.role == Role::Classpath {
        ArtifactRecordView { role: Role::MavenFile, ..record }
    } else {
        record
    }
}

/// What a merged profile resolves to in an absolute instance directory: the
/// records of the libraries, of the main jar and of the maven files, or the first
/// failure.
pub open spec fn resolved_in(profile: ProfileView, ctx: CtxView, instance_dir: Seq<char>) -> Result<
    Seq<ArtifactRecordView>,
    ErrorView,
> {
    let libraries_dir = path_join(instance_dir, "libraries"@);
    let kept = last_declared(permitted(profile.libraries, ctx));
    match libraries_outcome(kept, ctx, libraries_dir, "resolving library "@) {
        Err(error) => Err(error),
        Ok(libraries) => match main_jar_records(profile.main_jar, instance_dir) {
            Err(error) => Err(error),
            Ok(main_jar) => match libraries_outcome(
                permitted(profile.maven_files, ctx),
                ctx,
                libraries_dir,
                "resolving maven file "@,
            ) {
                Err(error) => Err(error),
                Ok(maven_files) => Ok(
                    libraries + main_jar + maven_files.map_values(
                        |record: ArtifactRecordView| off_classpath(record),
                    ),
                ),
            },
        },
    }
}

/// The instance directory as an absolute path, where `cwd` is the current
/// directory, if it can be read.
pub open spec fn absolute_dir(instance_dir: Seq<char>, cwd: Option<Seq<char>>) -> Result<
    Seq<char>,
    ErrorView,
> {
    if is_absolute_path(instance_dir) {
        Ok(instance_dir)
    } else {
        match cwd {
            Some(cwd) => Ok(path_join(cwd, instance_dir)),
            None => Err(
                plain_error(CauseView::Other { message: "determining the current directory"@ }),
            ),
        }
    }
}

/// What a merged profile resolves to.
pub open spec fn resolved(
    profile: ProfileView,
    ctx: CtxView,
    instance_dir: Seq<char>,
    cwd: Option<Seq<char>>,
) -> Result<Seq<ArtifactRecordView>, ErrorView> {
    match absolute_dir(instance_dir, cwd) {
        Ok(absolute) => resolved_in(profile, ctx, absolute),
        Err(error) => Err(error),
    }
}

// ---------------------------------------------------------------------------
// Resolution
// ---------------------------------------------------------------------------

/// A text that is there and holds something.
fn filled_text(text: &Option<String>) -> (out: Option<String>)
    ensures
        out.deep_view() == filled(text.deep_view()),
{
    match text {
        Some(text) => if text.as_str().is_empty() {
            None
        } else {
            Some(text.clone())
        },
        None => None,
    }
}

/// Treat an empty SHA-1 as "no hash" so download verification is uniformly skipped
/// on both empty-string and missing hashes.
pub fn normalize_sha1(sha1: &Option<String>) -> (hash: Option<String>)
    ensures
        hash.deep_view() == filled(sha1.deep_view()),
{
    filled_text(sha1)
}

/// The plain artifact among the downloads.
fn artifact_of(downloads: &Option<Downloads>) -> (artifact: Option<&Artifact>)
    ensures
        artifact.deep_view() == plain_artifact(downloads.deep_view()),
{
    match downloads {
        Some(downloads) => match &downloads.artifact {
            Some(artifact) => Some(artifact),
            None => None,
        },
        None => None,
    }
}

/// The download of one classifier.
fn classifier_artifact<'a>(downloads: &'a Option<Downloads>, classifier: &str) -> (artifact: Option<
    &'a Artifact,
>)
    ensures
        artifact.deep_view() == classified_artifact(downloads.deep_view(), classifier@),
{
    match downloads {
        Some(downloads) => match &downloads.classifiers {
            Some(classifiers) => classifiers.get(classifier),
            None => None,
        },
        None => None,
    }
}

/// Whether a platform allows a library.
fn library_allowed(library: &Library, ctx: &Ctx) -> (yes: bool)
    ensures
        yes == permits(rules_of(library.deep_view()), ctx.deep_view()),
{
    match &library.rules {
        Some(rules) => allowed(rules.as_slice(), ctx),
        None => true,
    }
}

/// The libraries that a platform allows, in order.
fn allowed_libraries<'a>(libraries: &'a Vec<Library>, ctx: &Ctx) -> (kept: Vec<&'a Library>)
    ensures
        kept.deep_view() == permitted(libraries.deep_view(), ctx.deep_view()),
{
    let mut kept: Vec<&'a Library> = Vec::new();
    let ghost all = libraries.deep_view();
    proof {
        reveal(Seq::filter);
        assert(kept.deep_view() =~= permitted(all.take(0), ctx.deep_view()));
    }
    for i in 0..libraries.len()
        invariant
            all == libraries.deep_view(),
            kept.deep_view() == permitted(all.take(i as int), ctx.deep_view()),
    {
        let ghost before = kept.deep_view();
        proof {
            reveal(Seq::filter);
            assert(all.take(i + 1).drop_last() =~= all.take(i as int));
            assert(all.take(i + 1).last() == libraries@[i as int].deep_view());
        }
        if library_allowed(&libraries[i], ctx) {
            kept.push(&libraries[i]);
            proof {
                assert(kept.deep_view() =~= before.push(libraries@[i as int].deep_view()));
            }
        }
    }
    proof {
        assert(all.take(libraries.len() as int) =~= all);
    }
    kept
}

/// Drop duplicate `group:artifact`, keeping the last (highest-order) declaration,
/// while preserving the relative order of the survivors.
pub fn dedup_last_wins<'a>(libraries: Vec<&'a Library>) -> (kept: Vec<&'a Library>)
    ensures
        kept.deep_view() == last_declared(libraries.deep_view()),
{
    let ghost all = libraries.deep_view();
    let mut kept: Vec<&'a Library> = Vec::new();
    proof {
        assert(all.skip(0) =~= all);
        assert(kept.deep_view() + last_declared(all) =~= last_declared(all));
    }
    for i in 0..libraries.len()
        invariant
            all == libraries.deep_view(),
            kept.deep_view() + last_declared(all.skip(i as int)) == last_declared(all),
    {
        let key = artifact_key(libraries[i].name.as_str());
        let mut again = false;
        for j in i + 1..libraries.len()
            invariant
                i < libraries.len(),
                i + 1 <= j <= libraries.len(),
                all == libraries.deep_view(),
                again == (exists|k: int|
                    i < k < j && key_of((#[trigger] libraries@[k]).deep_view().name) == key@),
        {
            if same_text(artifact_key(libraries[j].name.as_str()), key) {
                again = true;
            }
        }
        let ghost rest = all.skip(i as int);
        proof {
            assert(rest.skip(1) =~= all.skip(i + 1));
            assert(rest[0] == libraries@[i as int].deep_view());
            if again {
                let k = choose|k: int|
                    i < k < libraries.len() && key_of((#[trigger] libraries@[k]).deep_view().name)
                        == key@;
                assert(rest.skip(1)[k - i - 1] == libraries@[k].deep_view());
            } else if declared(rest.skip(1), key@) {
                let k = choose|k: int|
                    0 <= k < rest.skip(1).len() && key_of((#[trigger] rest.skip(1)[k]).name)
                        == key@;
                assert(rest.skip(1)[k] == libraries@[k + i + 1].deep_view());
            }
        }
        let ghost before = kept.deep_view();
        if !again {
            kept.push(libraries[i]);
            proof {
                assert(kept.deep_view() =~= before.push(rest[0]));
                assert(kept.deep_view() + last_declared(all.skip(i + 1)) =~= before + (
                seq![rest[0]] + last_declared(all.skip(i + 1))));
            }
        }
    }
    proof {
        assert(all.skip(libraries.len() as int).len() == 0);
        assert(kept.deep_view() =~= last_declared(all));
    }
    kept
}

/// Classify one library into a record, or `None` if it has no artifact for the
/// target platform (a legacy native lacking a classifier for this OS).
///
/// # Errors
/// Returns an error if the coordinate is malformed, or if a legacy native has no
/// download for its classifier.
pub fn classify_library(library: &Library, ctx: &Ctx, libraries_dir: &str) -> (result: Result<
    Option<ArtifactRecord>,
    Error,
>)
    ensures
        outcome(result) == library_outcome(
            library.deep_view(),
            ctx.deep_view(),
            libraries_dir@,
        ),
{
    // A `natives` os->classifier map means extract, not classpath. Modern natives
    // carry the classifier in their `name` and have no map, so they fall through
    // to the plain-artifact path below.
    if library.natives.is_some() {
        return classify_legacy_native(library, ctx, libraries_dir);
    }
    let relative = match maven_coordinate_to_path(library.name.as_str()) {
        Ok(relative) => relative,
        Err(error) => {
            return Err(error);
        },
    };
    let local_path = join_path(libraries_dir, relative.as_str());
    let no_excludes: Vec<String> = Vec::new();
    proof {
        assert(no_excludes.deep_view() =~= Seq::<Seq<char>>::empty());
    }

    // An explicit artifact with a url.
    if let Some(artifact) = artifact_of(&library.downloads) {
        if let Some(url) = filled_text(&artifact.url) {
            return Ok(
                Some(
                    ArtifactRecord {
                        coordinate: library.name.clone(),
                        url: Some(url),
                        url_is_fallback: false,
                        sha1: normalize_sha1(&artifact.sha1),
                        size: artifact.size,
                        local_path,
                        role: Role::Classpath,
                        extract_exclude: no_excludes,
                    },
                ),
            );
        }
    }

    // A bare `name` and a `url` base.
    if let Some(base) = filled_text(&library.url) {
        let root = trim_end(base.as_str(), '/');
        return Ok(
            Some(
                ArtifactRecord {
                    coordinate: library.name.clone(),
                    url: Some(concat3(root.as_str(), "/", relative.as_str())),
                    url_is_fallback: false,
                    sha1: None,
                    size: None,
                    local_path,
                    role: Role::Classpath,
                    extract_exclude: no_excludes,
                },
            ),
        );
    }

    // An assume-local jar.
    let is_local = match &library.mmc_hint {
        Some(hint) => same_text(hint.as_str(), "local"),
        None => false,
    };
    if is_local {
        return match maven_filename(library.name.as_str()) {
            Ok(file) => Ok(
                Some(
                    ArtifactRecord {
                        coordinate: library.name.clone(),
                        url: None,
                        url_is_fallback: false,
                        sha1: None,
                        size: None,
                        local_path: join_path(libraries_dir, file.as_str()),
                        role: Role::Classpath,
                        extract_exclude: no_excludes,
                    },
                ),
            ),
            Err(error) => Err(error),
        };
    }

    // A bare `name` with nothing else.
    Ok(
        Some(
            ArtifactRecord {
                coordinate: library.name.clone(),
                url: Some(concat3(MOJANG_LIBRARIES_BASE, "/", relative.as_str())),
                url_is_fallback: true,
                sha1: None,
                size: None,
                local_path,
                role: Role::Classpath,
                extract_exclude: no_excludes,
            },
        ),
    )
}

/// Resolve a legacy native: pick the classifier for the target OS (token first,
/// then classic name), substitute `${arch}`, and look up its download.
fn classify_legacy_native(library: &Library, ctx: &Ctx, libraries_dir: &str) -> (result: Result<
    Option<ArtifactRecord>,
    Error,
>)
    requires
        library.natives is Some,
    ensures
        outcome(result) == native_outcome(
            library.deep_view(),
            library.deep_view().natives->0,
            ctx.deep_view(),
            libraries_dir@,
        ),
{
    let found = match &library.natives {
        Some(natives) => match natives.get(ctx.os_token.as_str()) {
            Some(template) => Some(template),
            None => natives.get(ctx.os_name.as_str()),
        },
        None => None,
    };
    let template = match found {
        Some(template) => template,
        // No native for this platform - nothing to extract.
        None => {
            return Ok(None);
        },
    };
    proof {
        reveal_strlit("${arch}");
    }
    // E.g. "natives-windows-${arch}" -> "natives-windows-64".
    let classifier = replace(template.as_str(), "${arch}", ctx.arch_number());
    let artifact = match classifier_artifact(&library.downloads, classifier.as_str()) {
        Some(artifact) => artifact,
        None => {
            return Err(Error::new(Cause::NoNativeDownload { classifier }));
        },
    };
    let coordinate = concat3(library.name.as_str(), ":", classifier.as_str());
    let relative = match maven_coordinate_to_path(coordinate.as_str()) {
        Ok(relative) => relative,
        Err(error) => {
            return Err(error);
        },
    };
    let extract_exclude = match &library.extract {
        Some(extract) => extract.exclude.replicate(),
        None => Vec::new(),
    };
    proof {
        if library.extract is None {
            assert(extract_exclude.deep_view() =~= Seq::<Seq<char>>::empty());
        }
    }
    Ok(
        Some(
            ArtifactRecord {
                coordinate,
                url: filled_text(&artifact.url),
                url_is_fallback: false,
                sha1: normalize_sha1(&artifact.sha1),
                size: artifact.size,
                local_path: join_path(libraries_dir, relative.as_str()),
                role: Role::NativeExtract,
                extract_exclude,
            },
        ),
    )
}

/// Classify the main jar to the conventional `versions/<ver>/<ver>.jar` layout,
/// with its url verbatim.
///
/// # Errors
/// Returns an error if the coordinate is malformed.
pub fn classify_main_jar(main_jar: &MainJar, instance_dir: &str) -> (result: Result<
    ArtifactRecord,
    Error,
>)
    ensures
        outcome(result) == main_jar_outcome(main_jar.deep_view(), instance_dir@),
{
    let version = match parse_coordinate(main_jar.name.as_str()) {
        Ok(coordinate) => coordinate.version,
        Err(error) => {
            return Err(error);
        },
    };
    let versions = join_path(instance_dir, "versions");
    let directory = join_path(versions.as_str(), version.as_str());
    let jar = version.concat(".jar");
    let (url, sha1, size) = match artifact_of(&main_jar.downloads) {
        Some(artifact) => (
            filled_text(&artifact.url),
            normalize_sha1(&artifact.sha1),
            artifact.size,
        ),
        None => (None, None, None),
    };
    let extract_exclude: Vec<String> = Vec::new();
    proof {
        assert(extract_exclude.deep_view() =~= Seq::<Seq<char>>::empty());
    }
    Ok(
        ArtifactRecord {
            coordinate: main_jar.name.clone(),
            url,
            url_is_fallback: false,
            sha1,
            size,
            local_path: join_path(directory.as_str(), jar.as_str()),
            role: Role::Classpath,
            extract_exclude,
        },
    )
}

/// Classify every library, in order, up to the first failure.
fn classify_libraries(
    libraries: &Vec<&Library>,
    ctx: &Ctx,
    libraries_dir: &str,
    doing: &str,
) -> (result: Result<Vec<ArtifactRecord>, Error>)
    ensures
        outcome(result) == libraries_outcome(
            libraries.deep_view(),
            ctx.deep_view(),
            libraries_dir@,
            doing@,
        ),
{
    let mut records: Vec<ArtifactRecord> = Vec::new();
    let ghost all = libraries.deep_view();
    proof {
        assert(records.deep_view() =~= Seq::<ArtifactRecordView>::empty());
    }
    for i in 0..libraries.len()
        invariant
            all == libraries.deep_view(),
            libraries_outcome(all.take(i as int), ctx.deep_view(), libraries_dir@, doing@) == Ok::<
                Seq<ArtifactRecordView>,
                ErrorView,
            >(records.deep_view()),
    {
        let ghost before = records.deep_view();
        proof {
            assert(all.take(i + 1).drop_last() =~= all.take(i as int));
            assert(all.take(i + 1).last() == libraries@[i as int].deep_view());
        }
        match classify_library(libraries[i], ctx, libraries_dir) {
            Err(error) => {
                let failed = error.within(doing.to_owned().concat(libraries[i].name.as_str()));
                proof {
                    first_failure_stays(
                        all,
                        i + 1,
                        ctx.deep_view(),
                        libraries_dir@,
                        doing@,
                        failed.deep_view(),
                    );
                }
                return Err(failed);
            },
            Ok(None) => {},
            Ok(Some(record)) => {
                records.push(record);
                proof {
                    assert(records.deep_view() =~= before.push(record.deep_view()));
                }
            },
        }
    }
    proof {
        assert(all.take(libraries.len() as int) =~= all);
    }
    Ok(records)
}

/// A failure on the way is the failure of the whole.
proof fn first_failure_stays(
    libraries: Seq<LibraryView>,
    n: int,
    ctx: CtxView,
    libraries_dir: Seq<char>,
    doing: Seq<char>,
    error: ErrorView,
)
    requires
        0 <= n <= libraries.len(),
        libraries_outcome(libraries.take(n), ctx, libraries_dir, doing) == Err::<
            Seq<ArtifactRecordView>,
            ErrorView,
        >(error),
    ensures
        libraries_outcome(libraries, ctx, libraries_dir, doing) == Err::<
            Seq<ArtifactRecordView>,
            ErrorView,
        >(error),
    decreases libraries.len() - n,
{
    if n == libraries.len() {
        assert(libraries.take(n) =~= libraries);
    } else {
        assert(libraries.take(n + 1).drop_last() =~= libraries.take(n));
        first_failure_stays(libraries, n + 1, ctx, libraries_dir, doing, error);
    }
}

/// Make the instance directory absolute (without requiring it to exist yet) so the
/// resolved paths are absolute too. `cwd` is the current directory, if it can be
/// read. An already absolute path stays as it is, so callers may pre-absolutize
/// and share it.
///
/// # Errors
/// Returns an error if the current directory is needed and cannot be read.
pub fn absolute_instance_dir(instance_dir: &str, cwd: Option<&str>) -> (result: Result<
    String,
    Error,
>)
    ensures
        outcome(result) == absolute_dir(instance_dir@, cwd.deep_view()),
{
    if is_absolute(instance_dir) {
        return Ok(instance_dir.to_owned());
    }
    match cwd {
        Some(cwd) => Ok(join_path(cwd, instance_dir)),
        None => Err(
            Error::new(Cause::Other { message: "determining the current directory".to_owned() }),
        ),
    }
}

/// Resolve a merged profile into the artifact records the IO stages consume.
///
/// Applies rule filtering and order-preserving last-wins dedup, then classifies
/// each survivor. Output order is: classpath/native libraries (component then
/// declared order), the main jar, then maven files.
///
/// # Errors
/// Returns an error if any coordinate is malformed (not
/// `group:artifact:version[:classifier][@extension]`), if a legacy native lacks a
/// download, or if the current directory is needed and cannot be read.
pub fn resolve(profile: &Profile, ctx: &Ctx, instance_dir: &str, cwd: Option<&str>) -> (result:
    Result<Vec<ArtifactRecord>, Error>)
    ensures
        outcome(result) == resolved(
            profile.deep_view(),
            ctx.deep_view(),
            instance_dir@,
            cwd.deep_view(),
        ),
{
    let instance_abs = match absolute_instance_dir(instance_dir, cwd) {
        Ok(absolute) => absolute,
        Err(error) => {
            return Err(error);
        },
    };
    let libraries_dir = join_path(instance_abs.as_str(), "libraries");

    // Keep only libraries the target platform allows, then drop duplicate
    // group:artifact keeping the highest-order (last) declaration.
    let kept = dedup_last_wins(allowed_libraries(&profile.libraries, ctx));
    let mut records = match classify_libraries(
        &kept,
        ctx,
        libraries_dir.as_str(),
        "resolving library ",
    ) {
        Ok(records) => records,
        Err(error) => {
            return Err(error);
        },
    };
    let ghost libraries = records.deep_view();

    // The main jar goes on the classpath at the conventional versions/ path.
    let ghost mut main_jar_part: Seq<ArtifactRecordView> = Seq::empty();
    if let Some(main_jar) = &profile.main_jar {
        match classify_main_jar(main_jar, instance_abs.as_str()) {
            Ok(record) => {
                proof {
                    main_jar_part = seq![record.deep_view()];
                }
                records.push(record);
                proof {
                    assert(records.deep_view() =~= libraries + main_jar_part);
                }
            },
            Err(error) => {
                return Err(
                    error.within("resolving main jar ".to_owned().concat(main_jar.name.as_str())),
                );
            },
        }
    }
    proof {
        assert(records.deep_view() =~= libraries + main_jar_part);
    }

    // Maven files are downloaded like libraries but never on the classpath.
    let maven_files = allowed_libraries(&profile.maven_files, ctx);
    let maven_records = match classify_libraries(
        &maven_files,
        ctx,
        libraries_dir.as_str(),
        "resolving maven file ",
    ) {
        Ok(records) => records,
        Err(error) => {
            return Err(error);
        },
    };
    append_off_classpath(&mut records, &maven_records);
    Ok(records)
}

/// Append the records of maven files.
fn append_off_classpath(records: &mut Vec<ArtifactRecord>, maven_records: &Vec<ArtifactRecord>)
    ensures
        final(records).deep_view() == old(records).deep_view()
            + maven_records.deep_view().map_values(
            |record: ArtifactRecordView| off_classpath(record),
        ),
{
    let ghost before = records.deep_view();
    let ghost all = maven_records.deep_view().map_values(
        |record: ArtifactRecordView| off_classpath(record),
    );
    proof {
        assert(before + all.take(0) =~= before);
    }
    for i in 0..maven_records.len()
        invariant
            all == maven_records.deep_view().map_values(
                |record: ArtifactRecordView| off_classpath(record),
            ),
            records.deep_view() == before + all.take(i as int),
    {
        let ghost so_far = records.deep_view();
        let mut record = maven_records[i].replicate();
        // Its assume-local-ness rides on `url`, not role, so flipping the role
        // here preserves it.
        if record.role == Role::Classpath {
            record.role = Role::MavenFile;
        }
        records.push(record);
        proof {
            assert(record.deep_view() == all[i as int]);
            assert(records.deep_view() =~= so_far.push(all[i as int]));
            assert(records.deep_view() =~= before + all.take(i + 1));
        }
    }
    proof {
        assert(all.take(maven_records.len() as int) =~= all);
    }
}

// ---------------------------------------------------------------------------
// Laws
// ---------------------------------------------------------------------------

/// Deduplication neither adds nor loses a `group:artifact`.
pub proof fn dedup_keeps_every_key(libraries: Seq<LibraryView>, key: Seq<char>)
    ensures
        declared(last_declared(libraries), key) <==> declared(libraries, key),
    decreases libraries.len(),
{
    if libraries.len() > 0 {
        let rest = libraries.skip(1);
        dedup_keeps_every_key(rest, key);
        let first = key_of(libraries[0].name);
        let kept = last_declared(rest);
        assert(declared(libraries, key) <==> (first == key || declared(rest, key))) by {
            if declared(libraries, key) {
                let i = choose|i: int|
                    0 <= i < libraries.len() && key_of((#[trigger] libraries[i]).name) == key;
                if i > 0 {
                    assert(rest[i - 1] == libraries[i]);
                }
            }
            if declared(rest, key) {
                let i = choose|i: int|
                    0 <= i < rest.len() && key_of((#[trigger] rest[i]).name) == key;
                assert(libraries[i + 1] == rest[i]);
            }
            if first == key {
                assert(key_of(libraries[0].name) == key);
            }
        }
        if !declared(rest, first) {
            let all = seq![libraries[0]] + kept;
            assert(declared(all, key) <==> (first == key || declared(kept, key))) by {
                if declared(all, key) {
                    let i = choose|i: int|
                        0 <= i < all.len() && key_of((#[trigger] all[i]).name) == key;
                    if i > 0 {
                        assert(kept[i - 1] == all[i]);
                    }
                }
                if declared(kept, key) {
                    let i = choose|i: int|
                        0 <= i < kept.len() && key_of((#[trigger] kept[i]).name) == key;
                    assert(all[i + 1] == kept[i]);
                }
                if first == key {
                    assert(key_of(all[0].name) == key);
                }
            }
        } else if first == key {
            assert(declared(rest, key));
        }
    }
}

/// After deduplication no two libraries share a `group:artifact`.
pub proof fn dedup_keys_are_distinct(libraries: Seq<LibraryView>, i: int, j: int)
    requires
        0 <= i < j < last_declared(libraries).len(),
    ensures
        key_of(last_declared(libraries)[i].name) != key_of(last_declared(libraries)[j].name),
    decreases libraries.len(),
{
    let rest = libraries.skip(1);
    let first = key_of(libraries[0].name);
    if declared(rest, first) {
        dedup_keys_are_distinct(rest, i, j);
    } else {
        let kept = last_declared(rest);
        assert(last_declared(libraries)[j] == kept[j - 1]);
        if i > 0 {
            assert(last_declared(libraries)[i] == kept[i - 1]);
            dedup_keys_are_distinct(rest, i - 1, j - 1);
        } else {
            dedup_keeps_every_key(rest, first);
            if key_of(kept[j - 1].name) == first {
                assert(declared(kept, first));
            }
        }
    }
}

/// A library that no later one replaces is kept.
pub proof fn dedup_keeps_the_last(libraries: Seq<LibraryView>, i: int)
    requires
        0 <= i < libraries.len(),
        !declared(libraries.skip(i + 1), key_of(libraries[i].name)),
    ensures
        last_declared(libraries).contains(libraries[i]),
    decreases libraries.len(),
{
    let rest = libraries.skip(1);
    let kept = last_declared(rest);
    if i == 0 {
        assert((seq![libraries[0]] + kept)[0] == libraries[0]);
    } else {
        assert(rest[i - 1] == libraries[i]);
        assert(rest.skip(i) =~= libraries.skip(i + 1));
        dedup_keeps_the_last(rest, i - 1);
        let k = choose|k: int| 0 <= k < kept.len() && kept[k] == libraries[i];
        if !declared(rest, key_of(libraries[0].name)) {
            assert((seq![libraries[0]] + kept)[k + 1] == libraries[i]);
        }
    }
}

/// Whether `part` is what stands in `whole` at the increasing positions `at`.
pub open spec fn picked(part: Seq<LibraryView>, whole: Seq<LibraryView>, at: Seq<int>) -> bool {
    &&& at.len() == part.len()
    &&& forall|k: int|
        0 <= k < at.len() ==> 0 <= #[trigger] at[k] < whole.len() && part[k] == whole[at[k]]
    &&& forall|k: int, l: int| 0 <= k < l < at.len() ==> #[trigger] at[k] < #[trigger] at[l]
}

/// Deduplication only drops libraries; those that stay keep their order.
pub proof fn dedup_preserves_order(libraries: Seq<LibraryView>) -> (at: Seq<int>)
    ensures
        picked(last_declared(libraries), libraries, at),
    decreases libraries.len(),
{
    if libraries.len() == 0 {
        Seq::empty()
    } else {
        let rest = libraries.skip(1);
        let inner = dedup_preserves_order(rest);
        let shifted = inner.map_values(|k: int| k + 1);
        assert forall|k: int| 0 <= k < shifted.len() implies 0 <= #[trigger] shifted[k]
            < libraries.len() && last_declared(rest)[k] == libraries[shifted[k]] && shifted[k]
            > 0 by {
            assert(shifted[k] == inner[k] + 1);
            assert(rest[inner[k]] == libraries[inner[k] + 1]);
        }
        assert forall|k: int, l: int| 0 <= k < l < shifted.len() implies #[trigger] shifted[k]
            < #[trigger] shifted[l] by {
            assert(inner[k] < inner[l]);
        }
        if declared(rest, key_of(libraries[0].name)) {
            shifted
        } else {
            let at = seq![0int] + shifted;
            let kept = seq![libraries[0]] + last_declared(rest);
            assert forall|k: int| 0 <= k < at.len() implies 0 <= #[trigger] at[k] < libraries.len()
                && kept[k] == libraries[at[k]] by {
                if k > 0 {
                    assert(at[k] == shifted[k - 1]);
                }
            }
            assert forall|k: int, l: int| 0 <= k < l < at.len() implies #[trigger] at[k]
                < #[trigger] at[l] by {
                assert(at[l] == shifted[l - 1]);
                if k > 0 {
                    assert(at[k] == shifted[k - 1]);
                }
            }
            at
        }
    }
}

/// Deduplicating twice is deduplicating once.
pub proof fn dedup_is_idempotent(libraries: Seq<LibraryView>)
    ensures
        last_declared(last_declared(libraries)) == last_declared(libraries),
    decreases libraries.len(),
{
    if libraries.len() > 0 {
        let rest = libraries.skip(1);
        let first = key_of(libraries[0].name);
        dedup_is_idempotent(rest);
        if !declared(rest, first) {
            let kept = last_declared(rest);
            let all = seq![libraries[0]] + kept;
            dedup_keeps_every_key(rest, first);
            assert(all.skip(1) =~= kept);
        }
    }
}

/// An explicit download url is used verbatim, whatever the name says.
pub proof fn explicit_url_is_verbatim(
    library: LibraryView,
    ctx: CtxView,
    libraries_dir: Seq<char>,
    url: Seq<char>,
)
    requires
        library.natives is None,
        maven_path(library.name) is Some,
        plain_artifact(library.downloads) matches Some(artifact) && artifact.url == Some(url),
        url.len() > 0,
    ensures
        library_outcome(library, ctx, libraries_dir) matches Ok(Some(record)) && record.url
            == Some(url) && !record.url_is_fallback,
{
}

/// A derived url and the path on disk end in the same relative path.
pub proof fn derived_url_matches_path(
    library: LibraryView,
    ctx: CtxView,
    libraries_dir: Seq<char>,
) -> (root: Seq<char>)
    requires
        library.natives is None,
        maven_path(library.name) is Some,
        plain_artifact(library.downloads) matches Some(artifact) ==> filled(artifact.url) is None,
        filled(library.url) is Some || library.mmc_hint != Some("local"@),
    ensures
        library_outcome(library, ctx, libraries_dir) matches Ok(Some(record)) && record.url
            == Some(root + "/"@ + maven_path(library.name)->0) && record.local_path == path_join(
            libraries_dir,
            maven_path(library.name)->0,
        ),
        filled(library.url) is Some ==> root == trimmed_end(library.url->0, '/'),
        filled(library.url) is None ==> root == MOJANG_LIBRARIES_BASE@,
{
    if filled(library.url) is Some {
        trimmed_end(library.url->0, '/')
    } else {
        MOJANG_LIBRARIES_BASE@
    }
}

/// A library without a url is assumed local exactly if it says so, and then it is
/// never given a url to fetch.
pub proof fn only_local_libraries_lack_a_url(
    library: LibraryView,
    ctx: CtxView,
    libraries_dir: Seq<char>,
)
    requires
        library.natives is None,
        maven_path(library.name) is Some,
    ensures
        library_outcome(library, ctx, libraries_dir) matches Ok(Some(record)) && (record.url is None
            <==> (library.mmc_hint == Some("local"@) && filled(library.url) is None && (
        plain_artifact(library.downloads) matches Some(artifact) ==> filled(artifact.url)
            is None))),
{
}

/// What holds of every record that one library resolves to.
pub open spec fn sound_library_record(record: ArtifactRecordView) -> bool {
    &&& record.role == Role::Classpath || record.role == Role::NativeExtract
    &&& record.sha1 matches Some(hash) ==> hash.len() > 0
    &&& record.url matches Some(url) ==> url.len() > 0
    &&& is_absolute_path(record.local_path)
}

/// A library resolves to a record on the classpath or to extract, never with an
/// empty hash or url, and at an absolute path.
pub proof fn library_record_is_sound(library: LibraryView, ctx: CtxView, libraries_dir: Seq<char>)
    requires
        is_absolute_path(libraries_dir),
    ensures
        library_outcome(library, ctx, libraries_dir) matches Ok(Some(record))
            ==> sound_library_record(record),
{
    reveal_strlit("/");
}

/// The records of a list of libraries are sound.
pub proof fn library_records_are_sound(
    libraries: Seq<LibraryView>,
    ctx: CtxView,
    libraries_dir: Seq<char>,
    doing: Seq<char>,
)
    requires
        is_absolute_path(libraries_dir),
    ensures
        libraries_outcome(libraries, ctx, libraries_dir, doing) matches Ok(records) ==> (forall|
            i: int,
        |
            0 <= i < records.len() ==> sound_library_record(#[trigger] records[i])),
    decreases libraries.len(),
{
    if libraries.len() > 0 {
        library_records_are_sound(libraries.drop_last(), ctx, libraries_dir, doing);
        library_record_is_sound(libraries.last(), ctx, libraries_dir);
    }
}

/// Every resolved record has an absolute path and one of the roles of the later
/// stages: nothing resolves to an asset or to the role of its own for entries
/// without a url.
pub proof fn resolved_records_are_sound(
    profile: ProfileView,
    ctx: CtxView,
    instance_dir: Seq<char>,
)
    requires
        is_absolute_path(instance_dir),
    ensures
        resolved_in(profile, ctx, instance_dir) matches Ok(records) ==> (forall|i: int|
            0 <= i < records.len() ==> is_absolute_path((#[trigger] records[i]).local_path)
                && records[i].role != Role::Asset && records[i].role != Role::NoUrl && (
            records[i].sha1 matches Some(hash) ==> hash.len() > 0)),
{
    let libraries_dir = path_join(instance_dir, "libraries"@);
    library_records_are_sound(
        last_declared(permitted(profile.libraries, ctx)),
        ctx,
        libraries_dir,
        "resolving library "@,
    );
    library_records_are_sound(
        permitted(profile.maven_files, ctx),
        ctx,
        libraries_dir,
        "resolving maven file "@,
    );
}

/// Maven files come last and stay off the classpath: what stands before them is
/// what the profile resolves to without them.
pub proof fn maven_files_stay_off_classpath(
    profile: ProfileView,
    ctx: CtxView,
    instance_dir: Seq<char>,
)
    ensures
        resolved_in(profile, ctx, instance_dir) matches Ok(records) ==> {
            &&& resolved_in(
                ProfileView { maven_files: Seq::empty(), ..profile },
                ctx,
                instance_dir,
            ) matches Ok(others)
            &&& others.is_prefix_of(records)
            &&& forall|i: int|
                others.len() <= i < records.len() ==> (#[trigger] records[i]).role
                    != Role::Classpath
        },
{
    let without = ProfileView { maven_files: Seq::empty(), ..profile };
    reveal(Seq::filter);
    assert(permitted(without.maven_files, ctx) =~= Seq::empty());
    if let Ok(records) = resolved_in(profile, ctx, instance_dir) {
        let others = resolved_in(without, ctx, instance_dir)->Ok_0;
        assert(others =~= records.take(others.len() as int));
    }
}

/// The main jar is the one record between the libraries and the maven files.
pub proof fn main_jar_follows_libraries(
    profile: ProfileView,
    ctx: CtxView,
    instance_dir: Seq<char>,
    main_jar: MainJarView,
)
    requires
        profile.main_jar == Some(main_jar),
    ensures
        resolved_in(profile, ctx, instance_dir) matches Ok(records) ==> {
            &&& resolved_in(
                ProfileView { main_jar: None, maven_files: Seq::empty(), ..profile },
                ctx,
                instance_dir,
            ) matches Ok(libraries)
            &&& main_jar_outcome(main_jar, instance_dir) matches Ok(jar)
            &&& libraries.push(jar).is_prefix_of(records)
        },
{
    let without = ProfileView { main_jar: None, maven_files: Seq::empty(), ..profile };
    reveal(Seq::filter);
    assert(permitted(without.maven_files, ctx) =~= Seq::empty());
    if let Ok(records) = resolved_in(profile, ctx, instance_dir) {
        let libraries = resolved_in(without, ctx, instance_dir)->Ok_0;
        let jar = main_jar_outcome(main_jar, instance_dir)->Ok_0;
        assert(libraries.push(jar) =~= records.take(libraries.len() as int + 1));
    }
}

/// Making a directory absolute a second time changes nothing, from wherever it is
/// done.
pub proof fn absolute_dir_is_idempotent(
    instance_dir: Seq<char>,
    cwd: Option<Seq<char>>,
    other_cwd: Option<Seq<char>>,
)
    requires
        cwd matches Some(dir) ==> is_absolute_path(dir),
    ensures
        absolute_dir(instance_dir, cwd) matches Ok(absolute) ==> is_absolute_path(absolute)
            && absolute_dir(absolute, other_cwd) == Ok::<Seq<char>, ErrorView>(absolute),
{
}

/// A hash that is declared is taken over, and an empty one counts as none.
pub open spec fn takes_over_hash(record: Option<Seq<char>>, declared: Option<Seq<char>>) -> bool {
    &&& declared matches Some(hash) ==> (hash.len() > 0 ==> record == declared)
    &&& declared matches Some(hash) ==> (hash.len() == 0 ==> record is None)
    &&& declared is None ==> record is None
}

/// The main jar's record carries the url, hash and size that its download declares, and
/// lies at the conventional place of its version, on the classpath.
pub proof fn main_jar_is_taken_over(
    main_jar: MainJarView,
    coordinate: CoordinateView,
    instance_dir: Seq<char>,
)
    requires
        coordinate_of(main_jar.name) == Some(coordinate),
    ensures
        main_jar_outcome(main_jar, instance_dir) matches Ok(record) && {
            &&& record.coordinate == main_jar.name
            &&& record.role == Role::Classpath
            &&& !record.url_is_fallback
            &&& record.extract_exclude.len() == 0
            &&& record.local_path == path_join(
                path_join(path_join(instance_dir, "versions"@), coordinate.version),
                coordinate.version + ".jar"@,
            )
            &&& main_jar.downloads matches Some(downloads) ==> (downloads.artifact matches Some(
                artifact,
            ) ==> takes_over_hash(record.sha1, artifact.sha1) && takes_over_hash(
                record.url,
                artifact.url,
            ) && record.size == artifact.size)
            &&& main_jar.downloads is None ==> record.url is None && record.sha1 is None
                && record.size is None
            &&& main_jar.downloads matches Some(downloads) ==> (downloads.artifact is None
                ==> record.url is None && record.sha1 is None && record.size is None)
        },
{
}

/// A declared hash of the main jar reaches its record letter for letter.
pub proof fn main_jar_keeps_its_hash(
    main_jar: MainJarView,
    instance_dir: Seq<char>,
    artifact: ArtifactView,
    hash: Seq<char>,
)
    requires
        coordinate_of(main_jar.name) is Some,
        main_jar.downloads matches Some(downloads) && downloads.artifact == Some(artifact),
        artifact.sha1 == Some(hash),
        hash.len() > 0,
    ensures
        main_jar_outcome(main_jar, instance_dir) matches Ok(record) && record.sha1 == Some(hash)
            && record.size == artifact.size,
{
}

/// A main jar or library whose name is no coordinate is a failure that names it.
pub proof fn malformed_names_fail(
    main_jar: MainJarView,
    library: LibraryView,
    ctx: CtxView,
    dir: Seq<char>,
)
    ensures
        coordinate_of(main_jar.name) is None ==> (main_jar_outcome(main_jar, dir) matches Err(error)
            && error.cause == (CauseView::InvalidCoordinate { name: main_jar.name })),
        library.natives is None && coordinate_of(library.name) is None ==> (library_outcome(
            library,
            ctx,
            dir,
        ) matches Err(error) && error.cause == (CauseView::InvalidCoordinate {
            name: library.name,
        })),
        library.natives is None && coordinate_of(library.name) is Some ==> (library_outcome(
            library,
            ctx,
            dir,
        ) matches Ok(record) && record is Some),
{
}

/// A library with an explicit download carries its url, hash and size, and lies at its
/// maven path, on the classpath.
pub proof fn explicit_download_is_taken_over(
    library: LibraryView,
    ctx: CtxView,
    libraries_dir: Seq<char>,
    artifact: ArtifactView,
)
    requires
        library.natives is None,
        maven_path(library.name) is Some,
        library.downloads matches Some(downloads) && downloads.artifact == Some(artifact),
        artifact.url matches Some(url) && url.len() > 0,
    ensures
        library_outcome(library, ctx, libraries_dir) matches Ok(Some(record)) && {
            &&& record.coordinate == library.name
            &&& record.url == artifact.url
            &&& !record.url_is_fallback
            &&& takes_over_hash(record.sha1, artifact.sha1)
            &&& record.size == artifact.size
            &&& record.local_path == path_join(libraries_dir, maven_path(library.name)->0)
            &&& record.role == Role::Classpath
            &&& record.extract_exclude.len() == 0
        },
{
}

/// A library without an explicit download has neither hash nor size. Its repository is
/// the one it names; without one it is local if it says so, and else on the default
/// server, which is marked as a fallback.
pub proof fn implicit_download_is_derived(
    library: LibraryView,
    ctx: CtxView,
    libraries_dir: Seq<char>,
    coordinate: CoordinateView,
)
    requires
        library.natives is None,
        coordinate_of(library.name) == Some(coordinate),
        library.downloads matches Some(downloads) ==> (downloads.artifact matches Some(artifact)
            ==> (artifact.url matches Some(url) ==> url.len() == 0)),
    ensures
        library_outcome(library, ctx, libraries_dir) matches Ok(Some(record)) && {
            let path = coordinate.layout();
            &&& record.coordinate == library.name
            &&& record.sha1 is None && record.size is None
            &&& record.role == Role::Classpath
            &&& record.extract_exclude.len() == 0
            &&& library.url matches Some(base) ==> (base.len() > 0 ==> {
                &&& record.url == Some(trimmed_end(base, '/') + "/"@ + path)
                &&& !record.url_is_fallback
                &&& record.local_path == path_join(libraries_dir, path)
            })
            &&& (library.url matches Some(base) ==> base.len() == 0) ==> {
                &&& library.mmc_hint == Some("local"@) ==> record.url is None
                    && !record.url_is_fallback && record.local_path == path_join(
                    libraries_dir,
                    coordinate.file(),
                )
                &&& library.mmc_hint != Some("local"@) ==> record.url == Some(
                    "https://libraries.minecraft.net"@ + "/"@ + path,
                ) && record.url_is_fallback && record.local_path == path_join(libraries_dir, path)
            }
        },
{
}

/// A legacy native is looked up by the token of the platform, and by its classic name only
/// where the token leads nowhere; a platform that neither names has nothing to extract.
pub proof fn token_comes_before_classic_name(
    library: LibraryView,
    natives: Seq<(Seq<char>, Seq<char>)>,
    ctx: CtxView,
    libraries_dir: Seq<char>,
)
    requires
        library.natives == Some(natives),
    ensures
        lookup(natives, ctx.os_token) is Some ==> native_template(natives, ctx) == lookup(
            natives,
            ctx.os_token,
        ),
        lookup(natives, ctx.os_token) is None ==> native_template(natives, ctx) == lookup(
            natives,
            ctx.os_name,
        ),
        lookup(natives, ctx.os_token) is None && lookup(natives, ctx.os_name) is None
            ==> library_outcome(library, ctx, libraries_dir) == Ok::<
            Option<ArtifactRecordView>,
            ErrorView,
        >(None),
{
}

/// A legacy native becomes the download of the classifier that its template names for the
/// bitness of the platform, to be extracted with the library's own exclusions.
pub proof fn native_takes_its_classifier(
    library: LibraryView,
    natives: Seq<(Seq<char>, Seq<char>)>,
    ctx: CtxView,
    libraries_dir: Seq<char>,
    template: Seq<char>,
    classifiers: Seq<(Seq<char>, ArtifactView)>,
    artifact: ArtifactView,
)
    requires
        library.natives == Some(natives),
        native_template(natives, ctx) == Some(template),
        library.downloads matches Some(downloads) && downloads.classifiers == Some(classifiers),
        lookup(classifiers, replace_each(template, "${arch}"@, ctx.bitness())) == Some(artifact),
        maven_path(
            library.name + ":"@ + replace_each(template, "${arch}"@, ctx.bitness()),
        ) is Some,
    ensures
        library_outcome(library, ctx, libraries_dir) matches Ok(Some(record)) && {
            let classifier = replace_each(template, "${arch}"@, ctx.bitness());
            &&& record.coordinate == library.name + ":"@ + classifier
            &&& takes_over_hash(record.url, artifact.url)
            &&& takes_over_hash(record.sha1, artifact.sha1)
            &&& record.size == artifact.size
            &&& !record.url_is_fallback
            &&& record.local_path == path_join(
                libraries_dir,
                maven_path(library.name + ":"@ + classifier)->0,
            )
            &&& record.role == Role::NativeExtract
            &&& library.extract matches Some(extract) ==> record.extract_exclude == extract.exclude
            &&& library.extract is None ==> record.extract_exclude.len() == 0
        },
{
}

/// A legacy native whose classifier has no download is a failure that names the
/// classifier.
pub proof fn native_without_download_fails(
    library: LibraryView,
    natives: Seq<(Seq<char>, Seq<char>)>,
    ctx: CtxView,
    libraries_dir: Seq<char>,
    template: Seq<char>,
)
    requires
        library.natives == Some(natives),
        native_template(natives, ctx) == Some(template),
        library.downloads matches Some(downloads) ==> (downloads.classifiers matches Some(
            classifiers,
        ) ==> lookup(classifiers, replace_each(template, "${arch}"@, ctx.bitness())) is None),
    ensures
        library_outcome(library, ctx, libraries_dir) matches Err(error) && error.cause == (
        CauseView::NoNativeDownload {
            classifier: replace_each(template, "${arch}"@, ctx.bitness()),
        }),
{
}

/// A library is kept exactly if its rules permit the platform, or if it has none; and
/// what is kept of two lists is what is kept of the first, then of the second.
pub proof fn permitted_by_their_rules(
    a: Seq<LibraryView>,
    b: Seq<LibraryView>,
    ctx: CtxView,
    library: LibraryView,
)
    ensures
        permitted(a + b, ctx) == permitted(a, ctx) + permitted(b, ctx),
        library.rules is None ==> permitted(seq![library], ctx) == seq![library],
        library.rules matches Some(rules) ==> permitted(seq![library], ctx) == (if permits(
            rules,
            ctx,
        ) {
            seq![library]
        } else {
            Seq::empty()
        }),
    decreases b.len(),
{
    reveal(Seq::filter);
    assert(seq![library].drop_last() =~= Seq::<LibraryView>::empty());
    assert(permitted(Seq::empty(), ctx) =~= Seq::<LibraryView>::empty());
    assert(Seq::<LibraryView>::empty().push(library) =~= seq![library]);
    if b.len() == 0 {
        assert(a + b =~= a);
        assert(permitted(a, ctx) + permitted(b, ctx) =~= permitted(a, ctx));
    } else {
        permitted_by_their_rules(a, b.drop_last(), ctx, library);
        assert((a + b).drop_last() =~= a + b.drop_last());
        assert((a + b).last() == b.last());
        assert(permitted(a + b, ctx) =~= permitted(a, ctx) + permitted(b, ctx));
    }
}

/// What one library contributes: its record, or nothing.
pub open spec fn contribution(
    library: LibraryView,
    ctx: CtxView,
    libraries_dir: Seq<char>,
) -> Seq<ArtifactRecordView> {
    match library_outcome(library, ctx, libraries_dir) {
        Ok(Some(record)) => seq![record],
        _ => Seq::empty(),
    }
}

/// A list of libraries succeeds exactly if each of them does, and then yields what each
/// contributes, in order.
pub proof fn every_library_contributes(
    libraries: Seq<LibraryView>,
    ctx: CtxView,
    libraries_dir: Seq<char>,
    doing: Seq<char>,
)
    ensures
        libraries_outcome(libraries, ctx, libraries_dir, doing) is Ok <==> (forall|i: int|
            0 <= i < libraries.len() ==> library_outcome(
                #[trigger] libraries[i],
                ctx,
                libraries_dir,
            ) is Ok),
        libraries_outcome(libraries, ctx, libraries_dir, doing) matches Ok(records) ==> records
            == chained(
            libraries.map_values(
                |library: LibraryView| contribution(library, ctx, libraries_dir),
            ),
        ),
    decreases libraries.len(),
{
    if libraries.len() > 0 {
        let before = libraries.drop_last();
        every_library_contributes(before, ctx, libraries_dir, doing);
        assert(forall|i: int| 0 <= i < before.len() ==> before[i] == #[trigger] libraries[i]);
        assert(libraries[libraries.len() - 1] == libraries.last());
        let parts = libraries.map_values(
            |library: LibraryView| contribution(library, ctx, libraries_dir),
        );
        assert(parts.drop_last() =~= before.map_values(
            |library: LibraryView| contribution(library, ctx, libraries_dir),
        ));
        if libraries_outcome(before, ctx, libraries_dir, doing) is Ok {
            assert forall|i: int| 0 <= i < before.len() implies library_outcome(
                #[trigger] libraries[i],
                ctx,
                libraries_dir,
            ) is Ok by {
                assert(library_outcome(before[i], ctx, libraries_dir) is Ok);
            }
            let records = libraries_outcome(before, ctx, libraries_dir, doing)->Ok_0;
            if let Ok(Some(record)) = library_outcome(libraries.last(), ctx, libraries_dir) {
                assert(records.push(record) =~= records + seq![record]);
            }
            assert(records + Seq::<ArtifactRecordView>::empty() =~= records);
        } else {
            let i = choose|i: int|
                0 <= i < before.len() && !(library_outcome(
                    #[trigger] before[i],
                    ctx,
                    libraries_dir,
                ) is Ok);
            assert(!(library_outcome(libraries[i], ctx, libraries_dir) is Ok));
        }
    } else {
        assert(libraries.map_values(
            |library: LibraryView| contribution(library, ctx, libraries_dir),
        ) =~= Seq::empty());
    }
}

/// The first library that fails is the failure of the list, told with its name.
pub proof fn first_failing_library_is_told(
    libraries: Seq<LibraryView>,
    ctx: CtxView,
    libraries_dir: Seq<char>,
    doing: Seq<char>,
    i: int,
    error: ErrorView,
)
    requires
        0 <= i < libraries.len(),
        library_outcome(libraries[i], ctx, libraries_dir) == Err::<
            Option<ArtifactRecordView>,
            ErrorView,
        >(error),
        forall|j: int|
            0 <= j < i ==> library_outcome(#[trigger] libraries[j], ctx, libraries_dir) is Ok,
    ensures
        libraries_outcome(libraries, ctx, libraries_dir, doing) == Err::<
            Seq<ArtifactRecordView>,
            ErrorView,
        >(ErrorView { cause: error.cause, contexts: error.contexts.push(doing + libraries[i].name) }),
{
    let head = libraries.take(i);
    every_library_contributes(head, ctx, libraries_dir, doing);
    assert(forall|j: int| 0 <= j < head.len() ==> head[j] == #[trigger] libraries[j]);
    assert(libraries.take(i + 1).drop_last() =~= head);
    assert(libraries.take(i + 1).last() == libraries[i]);
    assert forall|j: int| 0 <= j < head.len() implies library_outcome(
        #[trigger] head[j],
        ctx,
        libraries_dir,
    ) is Ok by {
        assert(library_outcome(libraries[j], ctx, libraries_dir) is Ok);
    }
    first_failure_stays(
        libraries,
        i + 1,
        ctx,
        libraries_dir,
        doing,
        error.within(doing + libraries[i].name),
    );
}

/// A maven file keeps everything of its record but the classpath role.
pub proof fn only_the_role_of_maven_files_changes(record: ArtifactRecordView)
    ensures
        ({
            let off = off_classpath(record);
            &&& (off.coordinate, off.url, off.sha1) == (record.coordinate, record.url, record.sha1)
            &&& (off.size, off.local_path) == (record.size, record.local_path)
            &&& off.url_is_fallback == record.url_is_fallback
            &&& off.extract_exclude == record.extract_exclude
            &&& record.role == Role::Classpath ==> off.role == Role::MavenFile
            &&& record.role != Role::Classpath ==> off.role == record.role
        }),
{
}

/// A profile resolves exactly if its libraries, its main jar and its maven files do, and
/// then to all of their records: first those of the libraries that the platform allows
/// and none replaces, then the main jar, then the maven files that the platform allows.
pub proof fn resolution_is_complete(
    profile: ProfileView,
    ctx: CtxView,
    instance_dir: Seq<char>,
    records: Seq<ArtifactRecordView>,
)
    requires
        resolved_in(profile, ctx, instance_dir) == Ok::<Seq<ArtifactRecordView>, ErrorView>(
            records,
        ),
    ensures
        ({
            let dir = path_join(instance_dir, "libraries"@);
            let libraries = chained(
                last_declared(permitted(profile.libraries, ctx)).map_values(
                    |library: LibraryView| contribution(library, ctx, dir),
                ),
            );
            let maven_files = chained(
                permitted(profile.maven_files, ctx).map_values(
                    |library: LibraryView| contribution(library, ctx, dir),
                ),
            );
            let jars: nat = if profile.main_jar is Some {
                1
            } else {
                0
            };
            &&& records.len() == libraries.len() + jars + maven_files.len()
            &&& records.take(libraries.len() as int) == libraries
            &&& profile.main_jar matches Some(jar) ==> main_jar_outcome(jar, instance_dir) == Ok::<
                ArtifactRecordView,
                ErrorView,
            >(records[libraries.len() as int])
            &&& forall|i: int|
                0 <= i < maven_files.len() ==> #[trigger] records[libraries.len() + jars + i]
                    == off_classpath(maven_files[i])
        }),
{
    let dir = path_join(instance_dir, "libraries"@);
    let kept = last_declared(permitted(profile.libraries, ctx));
    every_library_contributes(kept, ctx, dir, "resolving library "@);
    every_library_contributes(
        permitted(profile.maven_files, ctx),
        ctx,
        dir,
        "resolving maven file "@,
    );
    let libraries = libraries_outcome(kept, ctx, dir, "resolving library "@)->Ok_0;
    assert(records.take(libraries.len() as int) =~= libraries);
}

/// Where a library that is kept, the main jar or a maven file that is kept fails, the
/// whole resolution does.
pub proof fn resolution_fails_with_its_parts(
    profile: ProfileView,
    ctx: CtxView,
    instance_dir: Seq<char>,
)
    ensures
        ({
            let dir = path_join(instance_dir, "libraries"@);
            let libraries = last_declared(permitted(profile.libraries, ctx));
            let maven_files = permitted(profile.maven_files, ctx);
            resolved_in(profile, ctx, instance_dir) is Ok <==> {
                &&& forall|i: int|
                    0 <= i < libraries.len() ==> library_outcome(
                        #[trigger] libraries[i],
                        ctx,
                        dir,
                    ) is Ok
                &&& profile.main_jar matches Some(jar) ==> main_jar_outcome(jar, instance_dir) is Ok
                &&& forall|i: int|
                    0 <= i < maven_files.len() ==> library_outcome(
                        #[trigger] maven_files[i],
                        ctx,
                        dir,
                    ) is Ok
            }
        }),
{
    let dir = path_join(instance_dir, "libraries"@);
    let kept = last_declared(permitted(profile.libraries, ctx));
    every_library_contributes(kept, ctx, dir, "resolving library "@);
    every_library_contributes(
        permitted(profile.maven_files, ctx),
        ctx,
        dir,
        "resolving maven file "@,
    );
}

/// A library that the platform allows and that no later such library replaces has its
/// record among the resolved ones.
pub proof fn last_declaration_is_resolved(
    profile: ProfileView,
    ctx: CtxView,
    instance_dir: Seq<char>,
    i: int,
    records: Seq<ArtifactRecordView>,
    record: ArtifactRecordView,
)
    requires
        resolved_in(profile, ctx, instance_dir) == Ok::<Seq<ArtifactRecordView>, ErrorView>(
            records,
        ),
        0 <= i < permitted(profile.libraries, ctx).len(),
        !declared(
            permitted(profile.libraries, ctx).skip(i + 1),
            key_of(permitted(profile.libraries, ctx)[i].name),
        ),
        library_outcome(
            permitted(profile.libraries, ctx)[i],
            ctx,
            path_join(instance_dir, "libraries"@),
        ) == Ok::<Option<ArtifactRecordView>, ErrorView>(Some(record)),
    ensures
        records.contains(record),
{
    let dir = path_join(instance_dir, "libraries"@);
    let allowed_ones = permitted(profile.libraries, ctx);
    let kept = last_declared(allowed_ones);
    dedup_keeps_the_last(allowed_ones, i);
    let k = choose|k: int| 0 <= k < kept.len() && kept[k] == allowed_ones[i];
    resolution_is_complete(profile, ctx, instance_dir, records);
    let parts = kept.map_values(|library: LibraryView| contribution(library, ctx, dir));
    assert(parts[k] == seq![record]);
    assert(parts[k][0] == record);
    chained_holds_its_parts(parts, k, record);
    let n = choose|n: int| 0 <= n < chained(parts).len() && chained(parts)[n] == record;
    assert(records.take(chained(parts).len() as int)[n] == record);
    assert(records[n] == record);
}

/// A relative directory is taken from the current one, and an absolute one as it is.
pub proof fn directories_are_taken_from_the_current_one(instance_dir: Seq<char>, cwd: Seq<char>)
    ensures
        instance_dir.len() > 0 && instance_dir[0] == '/' ==> absolute_dir(instance_dir, None) == Ok::<
            Seq<char>,
            ErrorView,
        >(instance_dir),
        instance_dir.len() == 0 || instance_dir[0] != '/' ==> absolute_dir(instance_dir, Some(cwd))
            == Ok::<Seq<char>, ErrorView>(path_join(cwd, instance_dir)) && absolute_dir(
            instance_dir,
            None,
        ) is Err,
{
}

/// Resolving in a directory is resolving in that directory made absolute.
pub proof fn resolution_uses_the_absolute_directory(
    profile: ProfileView,
    ctx: CtxView,
    instance_dir: Seq<char>,
    cwd: Option<Seq<char>>,
)
    ensures
        absolute_dir(instance_dir, cwd) matches Ok(absolute) ==> resolved(
            profile,
            ctx,
            instance_dir,
            cwd,
        ) == resolved_in(profile, ctx, absolute),
        absolute_dir(instance_dir, cwd) is Err ==> resolved(profile, ctx, instance_dir, cwd) is Err,
{
}

/// A legacy native whose download is there, but whose coordinate is malformed, is a failure
/// that names the coordinate.
pub proof fn native_with_a_malformed_name_fails(
    library: LibraryView,
    natives: Seq<(Seq<char>, Seq<char>)>,
    ctx: CtxView,
    libraries_dir: Seq<char>,
    template: Seq<char>,
    classifiers: Seq<(Seq<char>, ArtifactView)>,
)
    requires
        library.natives == Some(natives),
        native_template(natives, ctx) == Some(template),
        library.downloads matches Some(downloads) && downloads.classifiers == Some(classifiers),
        lookup(classifiers, replace_each(template, "${arch}"@, ctx.bitness())) is Some,
        maven_path(
            library.name + ":"@ + replace_each(template, "${arch}"@, ctx.bitness()),
        ) is None,
    ensures
        library_outcome(library, ctx, libraries_dir) matches Err(error) && error.cause == (
        CauseView::InvalidCoordinate {
            name: library.name + ":"@ + replace_each(template, "${arch}"@, ctx.bitness()),
        }),
{
}

/// A failure of the resolution says what was being resolved: the first library that fails,
/// and behind the libraries the main jar, and behind it the first maven file.
pub proof fn failed_resolutions_tell_what_failed(
    profile: ProfileView,
    ctx: CtxView,
    instance_dir: Seq<char>,
    i: int,
    error: ErrorView,
)
    ensures
        ({
            let dir = path_join(instance_dir, "libraries"@);
            let libraries = last_declared(permitted(profile.libraries, ctx));
            let maven_files = permitted(profile.maven_files, ctx);
            let libraries_resolve = forall|j: int|
                0 <= j < libraries.len() ==> library_outcome(
                    #[trigger] libraries[j],
                    ctx,
                    dir,
                ) is Ok;
            &&& 0 <= i < libraries.len() && library_outcome(libraries[i], ctx, dir) == Err::<
                Option<ArtifactRecordView>,
                ErrorView,
            >(error) && (forall|j: int|
                0 <= j < i ==> library_outcome(#[trigger] libraries[j], ctx, dir) is Ok) ==> (
            resolved_in(profile, ctx, instance_dir) matches Err(told) && told.cause == error.cause
                && told.contexts == error.contexts.push("resolving library "@ + libraries[i].name))
            &&& libraries_resolve ==> (profile.main_jar matches Some(jar) ==> (main_jar_outcome(
                jar,
                instance_dir,
            ) == Err::<ArtifactRecordView, ErrorView>(error) ==> (resolved_in(
                profile,
                ctx,
                instance_dir,
            ) matches Err(told) && told.cause == error.cause && told.contexts
                == error.contexts.push("resolving main jar "@ + jar.name))))
            &&& libraries_resolve && (profile.main_jar matches Some(jar) ==> main_jar_outcome(
                jar,
                instance_dir,
            ) is Ok) && 0 <= i < maven_files.len() && library_outcome(maven_files[i], ctx, dir)
                == Err::<Option<ArtifactRecordView>, ErrorView>(error) && (forall|j: int|
                0 <= j < i ==> library_outcome(#[trigger] maven_files[j], ctx, dir) is Ok) ==> (
            resolved_in(profile, ctx, instance_dir) matches Err(told) && told.cause == error.cause
                && told.contexts == error.contexts.push(
                "resolving maven file "@ + maven_files[i].name,
            ))
        }),
{
    let dir = path_join(instance_dir, "libraries"@);
    let libraries = last_declared(permitted(profile.libraries, ctx));
    let maven_files = permitted(profile.maven_files, ctx);
    every_library_contributes(libraries, ctx, dir, "resolving library "@);
    if 0 <= i < libraries.len() && library_outcome(libraries[i], ctx, dir) == Err::<
        Option<ArtifactRecordView>,
        ErrorView,
    >(error) && (forall|j: int|
        0 <= j < i ==> library_outcome(#[trigger] libraries[j], ctx, dir) is Ok) {
        first_failing_library_is_told(libraries, ctx, dir, "resolving library "@, i, error);
    }
    if 0 <= i < maven_files.len() && library_outcome(maven_files[i], ctx, dir) == Err::<
        Option<ArtifactRecordView>,
        ErrorView,
    >(error) && (forall|j: int|
        0 <= j < i ==> library_outcome(#[trigger] maven_files[j], ctx, dir) is Ok) {
        first_failing_library_is_told(maven_files, ctx, dir, "resolving maven file "@, i, error);
    }
}

/// A relative directory cannot be placed without a current one, and the failure says so.
pub proof fn lost_directories_are_told(instance_dir: Seq<char>)
    requires
        instance_dir.len() == 0 || instance_dir[0] != '/',
    ensures
        absolute_dir(instance_dir, None) matches Err(error) && error.cause == (CauseView::Other {
            message: "determining the current directory"@,
        }),
{
}

} // verus!
