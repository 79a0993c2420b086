use prism_bootstrap::coordinate::{
    artifact_key, coordinate_version, maven_coordinate_to_path, maven_filename, parse_coordinate,
};
use prism_bootstrap::exit::{Cause, Error};
use prism_bootstrap::model::artifact::Role;
use prism_bootstrap::model::patch::{Artifact, Downloads, Extract, Library, MainJar, Os, Rule};
use prism_bootstrap::model::profile::Profile;
use prism_bootstrap::platform::{expand_platform, Platform};
use prism_bootstrap::resolve::{
    absolute_instance_dir, classify_library, classify_main_jar, dedup_last_wins, normalize_sha1,
    resolve,
};
use prism_bootstrap::string_map::StringMap;

fn library(name: &str) -> Library {
    Library { name: name.to_owned(), ..Library::default() }
}

fn artifact(url: &str, sha1: &str, size: u64) -> Artifact {
    Artifact { url: Some(url.to_owned()), sha1: Some(sha1.to_owned()), size: Some(size) }
}

fn with_artifact(name: &str, artifact: Artifact) -> Library {
    let downloads = Downloads { artifact: Some(artifact), classifiers: None };
    Library { downloads: Some(downloads), ..library(name) }
}

fn text_map(pairs: &[(&str, &str)]) -> StringMap<String> {
    let mut map = StringMap::new();
    for (key, value) in pairs {
        map.insert((*key).to_owned(), (*value).to_owned());
    }
    map
}

fn native(name: &str, natives: &[(&str, &str)], classifiers: &[(&str, Artifact)]) -> Library {
    let mut map = StringMap::new();
    for (key, value) in classifiers {
        map.insert((*key).to_owned(), value.clone());
    }
    Library {
        natives: Some(text_map(natives)),
        downloads: Some(Downloads { artifact: None, classifiers: Some(map) }),
        ..library(name)
    }
}

fn os_rule(action: &str, name: &str) -> Rule {
    Rule {
        action: action.to_owned(),
        os: Some(Os { name: Some(name.to_owned()), arch: None, version: None }),
        features: None,
    }
}

/// The parts of an instance that swaps LWJGL3 into 1.7.10, as far as resolution is
/// concerned.
fn variant_profile() -> Profile {
    let mut freebsd = with_artifact(
        "org.lwjgl:lwjgl-freetype-natives-freebsd:3.4.2-20260602.093430-9",
        artifact("https://nexus/lwjgl-freetype-natives-freebsd.jar", "ab", 1),
    );
    freebsd.rules = Some(vec![os_rule("allow", "freebsd")]);
    let mut jinput = native(
        "net.java.jinput:jinput-platform:2.0.5",
        &[
            ("linux", "natives-linux"),
            ("osx", "natives-osx"),
            ("windows", "natives-windows"),
        ],
        &[
            ("natives-linux", artifact("https://l/jinput-linux.jar", "cc", 3)),
            ("natives-osx", artifact("https://l/jinput-osx.jar", "cd", 3)),
            ("natives-windows", artifact("https://l/jinput-windows.jar", "ce", 3)),
        ],
    );
    jinput.extract = Some(Extract { exclude: vec!["META-INF/".to_owned()] });
    let mut twitch = native(
        "tv.twitch:twitch-platform:5.16",
        &[("linux", "natives-linux"), ("windows", "natives-windows-${arch}")],
        &[("natives-windows-64", artifact("https://l/twitch-64.jar", "dd", 4))],
    );
    twitch.rules = Some(vec![
        Rule { action: "allow".to_owned(), os: None, features: None },
        os_rule("disallow", "linux"),
    ]);
    let mut patches = library("com.github.GTNewHorizons:lwjgl3ify:3.0.23:forgePatches");
    patches.mmc_hint = Some("local".to_owned());
    let guava_old = with_artifact(
        "com.google.guava:guava:15.0",
        artifact("https://libraries.minecraft.net/guava-15.0.jar", "ee", 5),
    );
    let guava_new = Library {
        url: Some("https://maven.minecraftforge.net/".to_owned()),
        ..library("com.google.guava:guava:17.0")
    };
    Profile {
        libraries: vec![freebsd, guava_old, jinput, twitch, patches, guava_new],
        main_jar: Some(MainJar {
            name: "com.mojang:minecraft:1.7.10:client".to_owned(),
            downloads: Some(Downloads {
                artifact: Some(artifact("https://launcher/client.jar", "ff", 6)),
                classifiers: None,
            }),
        }),
        ..Profile::default()
    }
}

#[test]
fn coordinate_to_path_plain_and_classified() {
    assert_eq!(
        maven_coordinate_to_path("com.google.guava:guava:17.0").unwrap(),
        "com/google/guava/guava/17.0/guava-17.0.jar"
    );
    // The 4-segment classifier form (e.g. the client main jar coordinate).
    assert_eq!(
        maven_coordinate_to_path("com.mojang:minecraft:1.7.10:client").unwrap(),
        "com/mojang/minecraft/1.7.10/minecraft-1.7.10-client.jar"
    );
}

#[test]
fn coordinate_to_path_honors_extension_suffix() {
    assert_eq!(
        maven_coordinate_to_path("de.oceanlabs.mcp:mcp_config:1.16.5@zip").unwrap(),
        "de/oceanlabs/mcp/mcp_config/1.16.5/mcp_config-1.16.5.zip"
    );
    assert_eq!(
        maven_coordinate_to_path("net.minecraftforge:forge:1.16.5:universal@zip").unwrap(),
        "net/minecraftforge/forge/1.16.5/forge-1.16.5-universal.zip"
    );
}

#[test]
fn coordinate_to_path_rejects_malformed() {
    assert!(maven_coordinate_to_path("group:artifact").is_err());
}

#[test]
fn snapshot_url_is_kept_verbatim_not_derived_from_name() {
    let snapshot = with_artifact(
        "org.lwjgl:lwjgl:3.4.2-20260602.093430-9",
        artifact(
            "https://nexus/org/lwjgl/lwjgl/3.4.2-SNAPSHOT/lwjgl-3.4.2-20260602.093430-9.jar",
            "abc",
            10,
        ),
    );
    let ctx = expand_platform(Platform::Linux);
    let record = classify_library(&snapshot, &ctx, "/inst/libraries").unwrap().unwrap();

    assert_eq!(record.role, Role::Classpath);
    assert_eq!(
        record.url.as_deref(),
        Some("https://nexus/org/lwjgl/lwjgl/3.4.2-SNAPSHOT/lwjgl-3.4.2-20260602.093430-9.jar")
    );
    // local path derives from the (resolved-version) name, independently.
    assert!(record.local_path.ends_with(
        "org/lwjgl/lwjgl/3.4.2-20260602.093430-9/lwjgl-3.4.2-20260602.093430-9.jar"
    ));
    assert_eq!(record.sha1.as_deref(), Some("abc"));
    assert_eq!(record.size, Some(10));
    assert!(!record.url_is_fallback);
}

#[test]
fn bare_name_plus_url_base_derives_matching_url_and_path() {
    let bare = Library {
        url: Some("https://repo.example/maven/".to_owned()),
        ..library("org.example:lib:1.0")
    };
    let ctx = expand_platform(Platform::Linux);
    let record = classify_library(&bare, &ctx, "/inst/libraries").unwrap().unwrap();

    assert_eq!(record.role, Role::Classpath);
    assert_eq!(
        record.url.as_deref(),
        Some("https://repo.example/maven/org/example/lib/1.0/lib-1.0.jar")
    );
    assert!(record.local_path.ends_with("org/example/lib/1.0/lib-1.0.jar"));
}

#[test]
fn empty_sha1_becomes_none() {
    let lib = with_artifact(
        "lzma:lzma:0.0.1",
        artifact("https://libraries.minecraft.net/lzma/lzma/0.0.1/lzma-0.0.1.jar", "", 0),
    );
    let ctx = expand_platform(Platform::Linux);
    let record = classify_library(&lib, &ctx, "/inst/libraries").unwrap().unwrap();
    assert_eq!(record.role, Role::Classpath);
    assert_eq!(record.sha1, None);
}

#[test]
fn no_url_local_hint_is_classpath_assume_local() {
    let local = Library {
        mmc_hint: Some("local".to_owned()),
        ..library("com.github.GTNewHorizons:lwjgl3ify:3.0.23:forgePatches")
    };
    let ctx = expand_platform(Platform::Linux);
    let record = classify_library(&local, &ctx, "/inst/libraries").unwrap().unwrap();

    // On the classpath, but assume-local (no url to fetch).
    assert_eq!(record.role, Role::Classpath);
    assert_eq!(record.url, None);
    assert!(record.local_path.ends_with("libraries/lwjgl3ify-3.0.23-forgePatches.jar"));
}

#[test]
fn no_url_without_local_hint_defaults_to_mojang_libraries() {
    let bare = library("net.minecraft:launchwrapper:1.12");
    let ctx = expand_platform(Platform::Linux);
    let record = classify_library(&bare, &ctx, "/inst/libraries").unwrap().unwrap();
    assert_eq!(record.role, Role::Classpath);
    assert_eq!(
        record.url.as_deref(),
        Some("https://libraries.minecraft.net/net/minecraft/launchwrapper/1.12/launchwrapper-1.12.jar")
    );
    assert!(record.local_path.ends_with("net/minecraft/launchwrapper/1.12/launchwrapper-1.12.jar"));
    assert!(record.url_is_fallback);
}

#[test]
fn legacy_native_picks_classifier_with_arch_substituted() {
    // twitch-platform shape: windows classifier carries ${arch}.
    let twitch = native(
        "tv.twitch:twitch-platform:5.16",
        &[("windows", "natives-windows-${arch}")],
        &[
            (
                "natives-windows-32",
                artifact("https://example/twitch-platform-5.16-natives-windows-32.jar", "aa", 1),
            ),
            (
                "natives-windows-64",
                artifact("https://example/twitch-platform-5.16-natives-windows-64.jar", "bb", 2),
            ),
        ],
    );

    // windows-x86 -> arch_number 32 -> picks the -32 classifier.
    let ctx = expand_platform(Platform::WindowsX86);
    let record = classify_library(&twitch, &ctx, "/inst/libraries").unwrap().unwrap();
    assert_eq!(record.role, Role::NativeExtract);
    assert_eq!(
        record.url.as_deref(),
        Some("https://example/twitch-platform-5.16-natives-windows-32.jar")
    );
    assert!(record.local_path.ends_with(
        "tv/twitch/twitch-platform/5.16/twitch-platform-5.16-natives-windows-32.jar"
    ));

    // 64-bit windows -> the -64 classifier.
    let ctx64 = expand_platform(Platform::Windows);
    let record64 = classify_library(&twitch, &ctx64, "/inst/libraries").unwrap().unwrap();
    assert_eq!(record64.sha1.as_deref(), Some("bb"));

    // linux has no entry in the natives map -> skipped (None).
    let linux = expand_platform(Platform::Linux);
    assert!(classify_library(&twitch, &linux, "/inst/libraries").unwrap().is_none());
}

#[test]
fn dedup_keeps_last_declared_and_preserves_order() {
    let libs = [library("g:a:1.0"), library("g:b:1.0"), library("g:a:2.0")];
    let refs: Vec<&Library> = libs.iter().collect();
    let kept = dedup_last_wins(refs);
    let names: Vec<&str> = kept.iter().map(|l| l.name.as_str()).collect();
    // g:a deduped to its 2.0 (last) occurrence; b preserved before it.
    assert_eq!(names, ["g:b:1.0", "g:a:2.0"]);
    // Once is enough.
    let again: Vec<&str> = dedup_last_wins(kept).iter().map(|l| l.name.as_str()).collect();
    assert_eq!(again, ["g:b:1.0", "g:a:2.0"]);
}

/// End-to-end resolve of the LWJGL3 variant for a linux target.
#[test]
fn example_resolve_linux_roles_and_dedup() {
    let profile = variant_profile();
    let ctx = expand_platform(Platform::Linux);
    let records = resolve(&profile, &ctx, "example", Some("/work")).unwrap();

    // guava appears in two components (15.0, 17.0) -> deduped to one, the
    // higher-order forge 17.0.
    let guavas: Vec<&str> = records
        .iter()
        .filter(|r| r.coordinate.starts_with("com.google.guava:guava:"))
        .map(|r| r.coordinate.as_str())
        .collect();
    assert_eq!(guavas, ["com.google.guava:guava:17.0"]);

    // On linux exactly one legacy native extracts (jinput-platform); the twitch
    // natives are rule-excluded.
    let natives: Vec<&str> = records
        .iter()
        .filter(|r| r.role == Role::NativeExtract)
        .map(|r| r.coordinate.as_str())
        .collect();
    assert_eq!(natives.len(), 1);
    assert!(natives[0].starts_with("net.java.jinput:jinput-platform:2.0.5:natives-linux"));

    // The MMC-hint local forgePatches jar is the lone assume-local (url-less) entry -
    // and it is a Classpath record, so it lands on the emitted -cp.
    let assume_local: Vec<&str> = records
        .iter()
        .filter(|r| r.url.is_none())
        .map(|r| r.coordinate.as_str())
        .collect();
    assert_eq!(assume_local, ["com.github.GTNewHorizons:lwjgl3ify:3.0.23:forgePatches"]);
    let forge_patches = records
        .iter()
        .find(|r| r.coordinate == "com.github.GTNewHorizons:lwjgl3ify:3.0.23:forgePatches")
        .expect("forgePatches record present");
    assert_eq!(forge_patches.role, Role::Classpath);

    // The main jar resolves to the conventional versions/ layout.
    let main_jar = records
        .iter()
        .find(|r| r.coordinate == "com.mojang:minecraft:1.7.10:client")
        .expect("main jar record present");
    assert_eq!(main_jar.role, Role::Classpath);
    assert!(main_jar.local_path.ends_with("versions/1.7.10/1.7.10.jar"));
    assert_eq!(main_jar.local_path, "/work/example/versions/1.7.10/1.7.10.jar");
    // What is extracted carries its excludes along.
    let jinput = records.iter().find(|r| r.role == Role::NativeExtract).unwrap();
    assert_eq!(jinput.extract_exclude, ["META-INF/"]);
}

#[test]
fn classic_name_is_the_second_key_of_a_native() {
    let lib = native(
        "g:n:1",
        &[("osx", "natives-osx"), ("osx-arm64", "natives-osx-arm64")],
        &[
            ("natives-osx", artifact("u1", "", 0)),
            ("natives-osx-arm64", artifact("u2", "", 0)),
        ],
    );
    let arm = classify_library(&lib, &expand_platform(Platform::OsxArm64), "/l").unwrap().unwrap();
    assert_eq!(arm.coordinate, "g:n:1:natives-osx-arm64");
    let only = native("g:n:1", &[("osx", "natives-osx")], &[("natives-osx", artifact("", "", 0))]);
    let arm = classify_library(&only, &expand_platform(Platform::OsxArm64), "/l").unwrap().unwrap();
    assert_eq!(arm.coordinate, "g:n:1:natives-osx");
    // An empty url is none.
    assert_eq!(arm.url, None);
    assert_eq!(arm.local_path, "/l/g/n/1/n-1-natives-osx.jar");
}

#[test]
fn native_without_a_download_fails() {
    let lib = native("g:n:1", &[("linux", "natives-linux-${arch}")], &[]);
    let error = classify_library(&lib, &expand_platform(Platform::Linux), "/l").unwrap_err();
    match error.cause {
        Cause::NoNativeDownload { classifier } => assert_eq!(classifier, "natives-linux-64"),
        other => panic!("unexpected cause {other:?}"),
    }
}

#[test]
fn native_of_a_classified_coordinate_fails() {
    let lib = native("g:n:1:c", &[("linux", "x")], &[("x", artifact("u", "", 0))]);
    let error = classify_library(&lib, &expand_platform(Platform::Linux), "/l").unwrap_err();
    match error.cause {
        Cause::InvalidCoordinate { name } => assert_eq!(name, "g:n:1:c:x"),
        other => panic!("unexpected cause {other:?}"),
    }
}

#[test]
fn malformed_coordinates_are_named_with_context() {
    let check = |error: Error, name: &str, context: &str| {
        match &error.cause {
            Cause::InvalidCoordinate { name: bad } => assert_eq!(bad, name),
            other => panic!("unexpected cause {other:?}"),
        }
        assert_eq!(error.contexts, [context]);
    };
    let ctx = expand_platform(Platform::Linux);
    let mut profile = Profile { libraries: vec![library("a:b")], ..Profile::default() };
    check(resolve(&profile, &ctx, "/i", None).unwrap_err(), "a:b", "resolving library a:b");
    profile = Profile {
        main_jar: Some(MainJar { name: "jar".to_owned(), downloads: None }),
        ..Profile::default()
    };
    check(resolve(&profile, &ctx, "/i", None).unwrap_err(), "jar", "resolving main jar jar");
    profile = Profile { maven_files: vec![library("a:b:c:d:e")], ..Profile::default() };
    check(
        resolve(&profile, &ctx, "/i", None).unwrap_err(),
        "a:b:c:d:e",
        "resolving maven file a:b:c:d:e",
    );
}

#[test]
fn maven_files_come_last_and_off_the_classpath() {
    let mut local = library("g:local:1");
    local.mmc_hint = Some("local".to_owned());
    let mut elsewhere = library("g:w:1");
    elsewhere.rules = Some(vec![os_rule("allow", "windows")]);
    let profile = Profile {
        libraries: vec![library("g:a:1")],
        main_jar: Some(MainJar { name: "m:m:1".to_owned(), downloads: None }),
        maven_files: vec![library("g:file:1"), elsewhere, local],
        ..Profile::default()
    };
    let records = resolve(&profile, &expand_platform(Platform::Linux), "/i", None).unwrap();
    let rows: Vec<(&str, Role)> = records.iter().map(|r| (r.coordinate.as_str(), r.role)).collect();
    assert_eq!(
        rows,
        [
            ("g:a:1", Role::Classpath),
            ("m:m:1", Role::Classpath),
            ("g:file:1", Role::MavenFile),
            ("g:local:1", Role::MavenFile),
        ]
    );
    // Assume-local-ness rides on the url, not on the role.
    assert_eq!(records[3].url, None);
    assert_eq!(records[1].url, None);
    assert_eq!(records[1].local_path, "/i/versions/1/1.jar");
    assert_eq!(records[2].local_path, "/i/libraries/g/file/1/file-1.jar");
}

#[test]
fn excluded_libraries_replace_nothing() {
    let mut excluded = library("g:a:2");
    excluded.rules = Some(vec![os_rule("allow", "windows")]);
    let profile = Profile { libraries: vec![library("g:a:1"), excluded], ..Profile::default() };
    let linux = resolve(&profile, &expand_platform(Platform::Linux), "/i", None).unwrap();
    assert_eq!(linux.len(), 1);
    assert_eq!(linux[0].coordinate, "g:a:1");
    let windows = resolve(&profile, &expand_platform(Platform::Windows), "/i", None).unwrap();
    assert_eq!(windows.len(), 1);
    assert_eq!(windows[0].coordinate, "g:a:2");
}

#[test]
fn absolute_dir_does_not_need_the_current_one() {
    assert_eq!(absolute_instance_dir("/inst", None).unwrap(), "/inst");
    assert_eq!(absolute_instance_dir("inst", Some("/work")).unwrap(), "/work/inst");
    let again = absolute_instance_dir("/work/inst", Some("/elsewhere")).unwrap();
    assert_eq!(again, "/work/inst");
    let error = absolute_instance_dir("inst", None).unwrap_err();
    match error.cause {
        Cause::Other { message } => assert_eq!(message, "determining the current directory"),
        other => panic!("unexpected cause {other:?}"),
    }
    assert!(resolve(&Profile::default(), &expand_platform(Platform::Linux), "inst", None).is_err());
}

#[test]
fn keys_ignore_version_and_classifier() {
    assert_eq!(artifact_key("g:a:1"), "g:a");
    assert_eq!(artifact_key("g:a:1:c@zip"), "g:a");
    assert_eq!(artifact_key("g:a"), "g:a");
    assert_eq!(artifact_key("g"), "g");
    assert_eq!(artifact_key("::x"), ":");
    assert_eq!(artifact_key("g@h:a@b:1@zip"), "g@h:a@b");
}

#[test]
fn coordinates_are_parsed_into_their_segments() {
    let parsed = parse_coordinate("a.b:c:1:natives@zip").unwrap();
    assert_eq!(parsed.group, "a.b");
    assert_eq!(parsed.artifact, "c");
    assert_eq!(parsed.version, "1");
    assert_eq!(parsed.classifier.as_deref(), Some("natives"));
    assert_eq!(parsed.extension, "zip");
    assert_eq!(parsed.filename(), "c-1-natives.zip");
    assert_eq!(maven_filename("a.b:c:1").unwrap(), "c-1.jar");
    // The suffix is taken off before the colons count.
    assert_eq!(maven_coordinate_to_path("a:b:c@x:y").unwrap(), "a/b/c/b-c.x:y");
    assert!(parse_coordinate("a:b:c:d:e").is_err());
    assert!(parse_coordinate("").is_err());
    assert_eq!(coordinate_version("a:b:1:c").as_deref(), Some("1"));
    assert_eq!(coordinate_version("a:b"), None);
}

#[test]
fn main_jar_takes_its_download_verbatim() {
    let jar = MainJar {
        name: "com.mojang:minecraft:1.7.10:client".to_owned(),
        downloads: Some(Downloads {
            artifact: Some(artifact("https://launcher/client.jar", "", 6)),
            classifiers: None,
        }),
    };
    let record = classify_main_jar(&jar, "/i").unwrap();
    assert_eq!(record.url.as_deref(), Some("https://launcher/client.jar"));
    assert_eq!(record.sha1, None);
    assert_eq!(record.size, Some(6));
    assert_eq!(normalize_sha1(&Some("x".to_owned())).as_deref(), Some("x"));
    assert_eq!(normalize_sha1(&Some(String::new())), None);
    assert_eq!(normalize_sha1(&None), None);
}

#[test]
fn empty_explicit_url_falls_through() {
    let mut lib = with_artifact("g:a:1", artifact("", "abc", 3));
    lib.url = Some("https://r".to_owned());
    let ctx = expand_platform(Platform::Linux);
    let record = classify_library(&lib, &ctx, "/l").unwrap().unwrap();
    assert_eq!(record.url.as_deref(), Some("https://r/g/a/1/a-1.jar"));
    assert_eq!(record.sha1, None);
    // An empty base is none.
    lib.url = Some(String::new());
    let record = classify_library(&lib, &ctx, "/l").unwrap().unwrap();
    assert!(record.url_is_fallback);
}
