use prism_bootstrap::assemble::{
    assemble, build_classpath, build_game_args, build_subs, is_known_trait, preflight,
    resolve_arg_entries, substitute, version_name, Config, JvmAssembly, Subs,
};
use prism_bootstrap::exit::{exit_code_for, Cause, Error, ExitCode, FatalError};
use prism_bootstrap::merge::merge;
use prism_bootstrap::model::artifact::{ArtifactRecord, Role};
use prism_bootstrap::model::patch::{
    Agent, ArgEntry, ArgValue, Arguments, Artifact, AssetIndexRef, Dependency, Downloads, Library,
    Logging, LoggingFile, MainJar, Os, Patch, Rule,
};
use prism_bootstrap::model::profile::{GameArgs, Profile};
use prism_bootstrap::platform::{expand_platform, Platform};
use prism_bootstrap::resolve::resolve;
use prism_bootstrap::string_map::StringMap;

/// A minimal config pointing at a fake JDK.
fn test_config() -> Config {
    Config {
        java: "/jdk/bin/java".to_owned(),
        xms: "512m".to_owned(),
        xmx: "6144m".to_owned(),
        jvm_args: Vec::new(),
        username: "CI".to_owned(),
        uuid: "00000000-0000-0000-0000-000000000000".to_owned(),
        access_token: "0".to_owned(),
        user_type: "legacy".to_owned(),
        game_dir: "/inst/.minecraft".to_owned(),
        headless: false,
    }
}

fn subs_with(pairs: &[(&str, &str)]) -> Subs {
    let mut subs = StringMap::new();
    for (key, value) in pairs {
        subs.insert((*key).to_owned(), (*value).to_owned());
    }
    subs
}

fn texts(items: &[&str]) -> Vec<String> {
    items.iter().map(|s| (*s).to_owned()).collect()
}

fn library(name: &str) -> Library {
    Library { name: name.to_owned(), ..Library::default() }
}

fn plain(token: &str) -> ArgEntry {
    ArgEntry::Plain(token.to_owned())
}

fn os_rules(name: &str) -> Vec<Rule> {
    vec![Rule {
        action: "allow".to_owned(),
        os: Some(Os { name: Some(name.to_owned()), arch: None, version: None }),
        features: None,
    }]
}

/// The merged profile of an instance that swaps LWJGL3 into 1.7.10: legacy args, the
/// launcher supplies the classpath, a tweaker and a trait.
fn variant_profile() -> Profile {
    let mut classifiers = StringMap::new();
    for name in ["natives-linux", "natives-osx", "natives-windows"] {
        classifiers.insert(
            name.to_owned(),
            Artifact { url: Some(format!("https://l/{name}.jar")), sha1: None, size: None },
        );
    }
    let jinput = Library {
        natives: Some(subs_with(&[
            ("linux", "natives-linux"),
            ("osx", "natives-osx"),
            ("windows", "natives-windows"),
        ])),
        downloads: Some(Downloads { artifact: None, classifiers: Some(classifiers) }),
        ..library("net.java.jinput:jinput-platform:2.0.5")
    };
    let minecraft = Patch {
        uid: "net.minecraft".to_owned(),
        version: Some("1.7.10".to_owned()),
        main_class: Some("net.minecraft.client.main.Main".to_owned()),
        main_jar: Some(MainJar {
            name: "com.mojang:minecraft:1.7.10:client".to_owned(),
            downloads: None,
        }),
        asset_index: Some(AssetIndexRef { id: "1.7.10".to_owned(), ..AssetIndexRef::default() }),
        minecraft_arguments: Some(
            "--username ${auth_player_name} --version ${version_name} --gameDir \
             ${game_directory} --assetsDir ${assets_root} --assetIndex ${assets_index_name} \
             --uuid ${auth_uuid} --accessToken ${auth_access_token} --userProperties \
             ${user_properties} --userType ${user_type}"
                .to_owned(),
        ),
        libraries: vec![library("com.google.guava:guava:15.0"), jinput],
        ..Patch::default()
    };
    let forge_patches = Patch {
        uid: "me.eigenraven.lwjgl3ify.forgepatches".to_owned(),
        plus_jvm_args: texts(&[
            "-Dfile.encoding=UTF-8",
            "--add-opens",
            "java.base/java.io=ALL-UNNAMED",
        ]),
        plus_libraries: vec![Library {
            mmc_hint: Some("local".to_owned()),
            ..library("com.github.GTNewHorizons:lwjgl3ify:3.0.23:forgePatches")
        }],
        ..Patch::default()
    };
    let forge = Patch {
        uid: "net.minecraftforge".to_owned(),
        plus_tweakers: texts(&["cpw.mods.fml.common.launcher.FMLTweaker"]),
        libraries: vec![library("com.google.guava:guava:17.0")],
        ..Patch::default()
    };
    let launch_args = Patch {
        uid: "me.eigenraven.lwjgl3ify.launchargs".to_owned(),
        main_class: Some(
            "com.gtnewhorizons.retrofuturabootstrap.MainStartOnFirstThread".to_owned(),
        ),
        plus_traits: texts(&["FirstThreadOnMacOS"]),
        ..Patch::default()
    };
    merge(&[minecraft, forge_patches, forge, launch_args])
}

fn argv_for(platform: Platform, config: &Config) -> Vec<String> {
    let profile = variant_profile();
    let ctx = expand_platform(platform);
    let records = resolve(&profile, &ctx, "/inst", None).unwrap();
    assemble(&profile, &ctx, &records, "/inst", config).unwrap()
}

fn main_profile() -> Profile {
    Profile { main_class: Some("Main".to_owned()), ..Profile::default() }
}

fn assemble_bare(profile: &Profile, platform: Platform) -> Result<Vec<String>, Error> {
    assemble(profile, &expand_platform(platform), &[], "/inst", &test_config())
}

#[test]
fn substitute_replaces_known_and_keeps_unknown() {
    let subs = subs_with(&[("classpath", "a:b"), ("version_name", "1.7.10")]);
    assert_eq!(substitute("${classpath}", &subs), "a:b");
    assert_eq!(substitute("-cp=${classpath}", &subs), "-cp=a:b");
    assert_eq!(substitute("--version ${version_name}", &subs), "--version 1.7.10");
    // Unknown placeholder is left intact.
    assert_eq!(substitute("${unknown}", &subs), "${unknown}");
    // Unterminated opener is emitted verbatim.
    assert_eq!(substitute("a ${oops", &subs), "a ${oops");
}

#[test]
fn modern_jvm_arg_value_list_is_flattened_and_rule_gated() {
    let subs = subs_with(&[("classpath", "cp")]);
    let ctx = expand_platform(Platform::Linux);
    // A plain `-cp ${classpath}` pair, a list value, and an osx-only entry that the
    // linux ctx must drop.
    let entries = vec![
        plain("-cp"),
        plain("${classpath}"),
        ArgEntry::Conditional {
            rules: vec![Rule { action: "allow".to_owned(), os: None, features: None }],
            value: ArgValue::Many(texts(&["-Da=b", "-Dc=d"])),
        },
        ArgEntry::Conditional {
            rules: os_rules("osx"),
            value: ArgValue::Single("-XstartOnFirstThread".to_owned()),
        },
    ];
    let resolved = resolve_arg_entries(&entries, &ctx, &subs);
    assert_eq!(resolved, ["-cp", "cp", "-Da=b", "-Dc=d"]);
}

#[test]
fn legacy_assembly_supplies_cp_and_appends_tweakclass() {
    let argv = argv_for(Platform::Linux, &test_config());

    assert_eq!(argv[0], "/jdk/bin/java");
    // Heap injected by the tool.
    assert!(argv.iter().any(|arg| arg == "-Xms512m"));
    assert!(argv.iter().any(|arg| arg == "-Xmx6144m"));
    // Legacy path: we supplied `-cp` (it was not templated by jvm args).
    let cp_index = argv.iter().position(|arg| arg == "-cp").expect("-cp present");
    let classpath = &argv[cp_index + 1];
    // Main jar last on the classpath, joined with ':' for a linux target.
    assert!(classpath.contains(':'));
    assert!(classpath.ends_with("versions/1.7.10/1.7.10.jar"));
    // Main class follows the classpath.
    assert_eq!(
        argv[cp_index + 2],
        "com.gtnewhorizons.retrofuturabootstrap.MainStartOnFirstThread"
    );
    // +jvmArgs block present, verbatim and before the heap.
    assert!(argv.iter().any(|arg| arg == "-Dfile.encoding=UTF-8"));
    // Dummy auth + tweaker in the game args.
    assert!(argv.windows(2).any(|pair| pair == ["--username", "CI"]));
    assert!(argv
        .windows(2)
        .any(|pair| pair == ["--tweakClass", "cpw.mods.fml.common.launcher.FMLTweaker"]));
    // There is one extract (jinput), so the library path must be present.
    assert!(argv.iter().any(|arg| arg.starts_with("-Djava.library.path=")));

    // The MMC-hint:local forgePatches jar is assume-local (no url) but still belongs on
    // the classpath, flat under libraries/.
    assert!(
        classpath.contains("libraries/lwjgl3ify-3.0.23-forgePatches.jar"),
        "forgePatches (no-url local) must still be on the classpath: {classpath}"
    );
}

#[test]
fn whole_legacy_command_is_as_expected() {
    let expected = [
        "/jdk/bin/java",
        "-Dfile.encoding=UTF-8",
        "--add-opens",
        "java.base/java.io=ALL-UNNAMED",
        "-Xms512m",
        "-Xmx6144m",
        "-Djava.library.path=/inst/natives",
        "-cp",
        "/inst/libraries/lwjgl3ify-3.0.23-forgePatches.jar:\
         /inst/libraries/com/google/guava/guava/17.0/guava-17.0.jar:\
         /inst/versions/1.7.10/1.7.10.jar",
        "com.gtnewhorizons.retrofuturabootstrap.MainStartOnFirstThread",
        "--username",
        "CI",
        "--version",
        "1.7.10",
        "--gameDir",
        "/inst/.minecraft",
        "--assetsDir",
        "/inst/assets",
        "--assetIndex",
        "1.7.10",
        "--uuid",
        "00000000-0000-0000-0000-000000000000",
        "--accessToken",
        "0",
        "--userProperties",
        "{}",
        "--userType",
        "legacy",
        "--tweakClass",
        "cpw.mods.fml.common.launcher.FMLTweaker",
    ];
    assert_eq!(argv_for(Platform::Linux, &test_config()), expected);
}

#[test]
fn extra_jvm_args_follow_xmx_in_order() {
    let mut config = test_config();
    config.jvm_args = texts(&["-XX:+UseG1GC", "-Dfoo=bar"]);
    let argv = argv_for(Platform::Linux, &config);

    // The two extra args sit directly after `-Xmx`, preserving their order.
    let xmx_index = argv.iter().position(|arg| arg == "-Xmx6144m").unwrap();
    assert_eq!(&argv[xmx_index + 1..xmx_index + 3], ["-XX:+UseG1GC", "-Dfoo=bar"]);
}

#[test]
fn windows_target_joins_classpath_with_semicolon() {
    let argv = argv_for(Platform::Windows, &test_config());
    let cp_index = argv.iter().position(|arg| arg == "-cp").unwrap();
    // `;`-joined classpath even on a (linux) host - target separator.
    assert!(argv[cp_index + 1].contains(';'));
}

#[test]
fn first_thread_trait_adds_flag_only_on_osx() {
    let osx = argv_for(Platform::Osx, &test_config());
    assert!(osx.iter().any(|arg| arg == "-XstartOnFirstThread"));
    let linux = argv_for(Platform::Linux, &test_config());
    assert!(!linux.iter().any(|arg| arg == "-XstartOnFirstThread"));
}

#[test]
fn headless_pins_lwjgl_extract_dir() {
    let mut config = test_config();
    config.headless = true;
    let argv = argv_for(Platform::Linux, &config);
    assert!(argv
        .iter()
        .any(|arg| arg.starts_with("-Dorg.lwjgl.system.SharedLibraryExtractDirectory=")));
    assert!(argv.contains(
        &"-Dorg.lwjgl.system.SharedLibraryExtractDirectory=/inst/lwjgl-natives".to_owned()
    ));
}

#[test]
fn logging_config_arg_points_at_the_asset_store_path() {
    let profile = Profile {
        logging: Some(Logging {
            argument: Some("-Dlog4j.configurationFile=${path}".to_owned()),
            file: Some(LoggingFile { id: "client-1.7.xml".to_owned(), ..LoggingFile::default() }),
            config_type: Some("log4j2-xml".to_owned()),
        }),
        ..main_profile()
    };
    let argv = assemble_bare(&profile, Platform::Linux).unwrap();
    assert!(
        argv.iter()
            .any(|arg| arg == "-Dlog4j.configurationFile=/inst/assets/log_configs/client-1.7.xml"),
        "expected the substituted log4j arg, got: {argv:?}"
    );
}

#[test]
fn no_logging_config_emits_no_log4j_arg() {
    let argv = assemble_bare(&main_profile(), Platform::Linux).unwrap();
    assert!(!argv.iter().any(|arg| arg.contains("log4j.configurationFile")));
    // A config without a file or without an argument does not either.
    let halves = [
        Logging { argument: Some("-Dlog4j.configurationFile=${path}".to_owned()), ..Logging::default() },
        Logging { file: Some(LoggingFile::default()), ..Logging::default() },
    ];
    for logging in halves {
        let profile = Profile { logging: Some(logging), ..main_profile() };
        let argv = assemble_bare(&profile, Platform::Linux).unwrap();
        assert_eq!(argv, ["/jdk/bin/java", "-Xms512m", "-Xmx6144m", "-cp", "", "Main"]);
    }
}

#[test]
fn preflight_rejects_missing_main_class() {
    let mut profile = Profile::default();
    assert!(preflight(&profile, &[]).is_err());
    profile.main_class = Some("Main".to_owned());
    assert!(preflight(&profile, &[]).is_ok());
}

#[test]
fn empty_main_class_is_none() {
    let profile = Profile { main_class: Some(String::new()), ..Profile::default() };
    let error = preflight(&profile, &[]).unwrap_err();
    assert_eq!(exit_code_for(&error), ExitCode::BadMainClass);
    let error = assemble_bare(&profile, Platform::Linux).unwrap_err();
    assert_eq!(exit_code_for(&error), ExitCode::BadMainClass);
    let error = assemble_bare(&Profile::default(), Platform::Linux).unwrap_err();
    assert_eq!(exit_code_for(&error), ExitCode::BadMainClass);
}

fn reason(error: Error) -> String {
    assert_eq!(exit_code_for(&error), ExitCode::UnsatisfiedDeps);
    match error.cause {
        Cause::Fatal { error: FatalError::UnsatisfiedDeps { reason } } => reason,
        other => panic!("unexpected cause {other:?}"),
    }
}

#[test]
fn preflight_names_the_first_unmet_dependency() {
    let dep = |uid: &str, equals: Option<&str>| Dependency {
        uid: uid.to_owned(),
        equals: equals.map(str::to_owned),
        suggests: None,
    };
    let component = |uid: &str, version: Option<&str>| Patch {
        uid: uid.to_owned(),
        version: version.map(str::to_owned),
        ..Patch::default()
    };
    let components = [component("a", Some("1")), component("b", None), component("a", Some("2"))];

    let mut profile = Profile { requires: vec![dep("a", Some("1"))], ..main_profile() };
    assert!(preflight(&profile, &components).is_ok());
    profile.requires = vec![dep("a", None), dep("b", None)];
    assert!(preflight(&profile, &components).is_ok());

    profile.requires = vec![dep("a", None), dep("z", None)];
    assert_eq!(
        reason(preflight(&profile, &components).unwrap_err()),
        "required component z is not present"
    );
    // The first component with the uid counts.
    profile.requires = vec![dep("a", Some("2"))];
    assert_eq!(
        reason(preflight(&profile, &components).unwrap_err()),
        "component a is version 1, but 2 is required"
    );
    profile.requires = vec![dep("b", Some("2"))];
    assert_eq!(
        reason(preflight(&profile, &components).unwrap_err()),
        "component b is version <unset>, but 2 is required"
    );
    profile.requires = vec![];
    profile.conflicts = vec![dep("z", None), dep("b", None)];
    assert_eq!(
        reason(preflight(&profile, &components).unwrap_err()),
        "conflicting component b is present"
    );
    // Requirements come first.
    profile.requires = vec![dep("z", None)];
    assert_eq!(
        reason(preflight(&profile, &components).unwrap_err()),
        "required component z is not present"
    );
}

#[test]
fn substitution_goes_from_the_left() {
    let subs = subs_with(&[("a", "1"), ("b", "${a}"), ("${a", "x")]);
    assert_eq!(substitute("${a}${b}${c}", &subs), "1${a}${c}");
    assert_eq!(substitute("$${a}}", &subs), "$1}");
    assert_eq!(substitute("${${a}", &subs), "x");
    assert_eq!(substitute("${}", &subs), "${}");
    assert_eq!(substitute("", &subs), "");
    assert_eq!(substitute("${c} ${a} ${", &subs), "${c} 1 ${");
    // Without any values every token stays.
    assert_eq!(substitute("x ${a} ${b", &StringMap::new()), "x ${a} ${b");
}

#[test]
fn templated_classpath_is_not_added_again() {
    let modern = |jvm: Vec<ArgEntry>| Profile {
        game_args: GameArgs::Modern { game: vec![plain("--demo")], jvm },
        ..main_profile()
    };
    let profile = modern(vec![
        plain("-Djava.library.path=${natives_directory}"),
        plain("-cp"),
        plain("${classpath}"),
    ]);
    let ctx = expand_platform(Platform::Linux);
    let native = ArtifactRecord {
        coordinate: "g:n:1:natives-linux".to_owned(),
        url: None,
        url_is_fallback: false,
        sha1: None,
        size: None,
        local_path: "/inst/libraries/n.jar".to_owned(),
        role: Role::NativeExtract,
        extract_exclude: Vec::new(),
    };
    let lib = ArtifactRecord {
        role: Role::Classpath,
        local_path: "/inst/libraries/a.jar".to_owned(),
        ..native.clone()
    };
    let records = [native, lib];
    let argv = assemble(&profile, &ctx, &records, "/inst", &test_config()).unwrap();
    assert_eq!(
        argv,
        [
            "/jdk/bin/java",
            "-Djava.library.path=/inst/natives",
            "-cp",
            "/inst/libraries/a.jar",
            "-Xms512m",
            "-Xmx6144m",
            "Main",
            "--demo",
        ]
    );
    // A placeholder alone is enough.
    let argv = assemble(
        &modern(vec![plain("-Dpath=${classpath}")]),
        &ctx,
        &records,
        "/inst",
        &test_config(),
    )
    .unwrap();
    assert!(!argv.contains(&"-cp".to_owned()));
    assert_eq!(argv[1], "-Dpath=/inst/libraries/a.jar");
    // An entry for another platform templates nothing.
    let argv = assemble(
        &modern(vec![ArgEntry::Conditional {
            rules: os_rules("osx"),
            value: ArgValue::Single("-cp".to_owned()),
        }]),
        &ctx,
        &records,
        "/inst",
        &test_config(),
    )
    .unwrap();
    assert!(argv.windows(2).any(|pair| pair == ["-cp", "/inst/libraries/a.jar"]));
    assert!(argv.contains(&"-Djava.library.path=/inst/natives".to_owned()));
}

#[test]
fn flags_are_noted_once_seen() {
    let mut jvm = JvmAssembly::new();
    jvm.note_flags("-Dx=-cp");
    assert!(!jvm.classpath_templated && !jvm.library_path_set);
    jvm.note_flags("-classpath");
    jvm.note_flags("-Djava.library.path=");
    jvm.note_flags("other");
    assert!(jvm.classpath_templated && jvm.library_path_set);
}

#[test]
fn agents_become_javaagent_arguments() {
    let mut profile = Profile {
        agents: vec![
            Agent { name: "g:agent:1".to_owned() },
            Agent { name: "g:agent:1@zip=a=b".to_owned() },
        ],
        ..main_profile()
    };
    let argv = assemble_bare(&profile, Platform::Linux).unwrap();
    assert_eq!(argv[1], "-javaagent:/inst/libraries/g/agent/1/agent-1.jar");
    assert_eq!(argv[2], "-javaagent:/inst/libraries/g/agent/1/agent-1.zip=a=b");

    profile.agents = vec![Agent { name: "bad=x".to_owned() }];
    let error = assemble_bare(&profile, Platform::Linux).unwrap_err();
    match error.cause {
        Cause::InvalidCoordinate { name } => assert_eq!(name, "bad"),
        other => panic!("unexpected cause {other:?}"),
    }
}

#[test]
fn placeholders_have_their_values() {
    let profile = Profile {
        main_jar: Some(MainJar { name: "com.mojang:minecraft:1.7.10:client".to_owned(), downloads: None }),
        asset_index: Some(AssetIndexRef { id: "idx".to_owned(), ..AssetIndexRef::default() }),
        ..main_profile()
    };
    let ctx = expand_platform(Platform::Windows);
    let subs = build_subs(&profile, &ctx, "/inst", &test_config(), "a;b");
    let expected = [
        ("auth_player_name", "CI"),
        ("version_name", "1.7.10"),
        ("game_directory", "/inst/.minecraft"),
        ("assets_root", "/inst/assets"),
        ("game_assets", "/inst/assets/virtual/idx"),
        ("assets_index_name", "idx"),
        ("auth_uuid", "00000000-0000-0000-0000-000000000000"),
        ("auth_access_token", "0"),
        ("user_properties", "{}"),
        ("user_type", "legacy"),
        ("classpath", "a;b"),
        ("classpath_separator", ";"),
        ("natives_directory", "/inst/natives"),
        ("library_directory", "/inst/libraries"),
        ("launcher_name", "prism-bootstrap"),
        ("launcher_version", "0.1.0"),
    ];
    assert_eq!(subs.len(), expected.len());
    for (key, value) in expected {
        assert_eq!(subs.get(key).map(String::as_str), Some(value), "{key}");
    }
}

#[test]
fn version_falls_back_to_the_asset_index() {
    let mut profile = Profile::default();
    assert_eq!(version_name(&profile), "unknown");
    profile.asset_index = Some(AssetIndexRef { id: "1.20".to_owned(), ..AssetIndexRef::default() });
    assert_eq!(version_name(&profile), "1.20");
    profile.main_jar = Some(MainJar { name: "a:b".to_owned(), downloads: None });
    assert_eq!(version_name(&profile), "1.20");
    profile.main_jar = Some(MainJar { name: "a:b:c:d".to_owned(), downloads: None });
    assert_eq!(version_name(&profile), "c");
    // The asset index of a profile without one is named after the version.
    profile.asset_index = None;
    let ctx = expand_platform(Platform::Linux);
    let subs = build_subs(&profile, &ctx, "/i", &test_config(), "");
    assert_eq!(subs.get("assets_index_name").map(String::as_str), Some("c"));
}

#[test]
fn legacy_arguments_are_split_at_any_white_space() {
    let profile = Profile {
        game_args: GameArgs::Legacy("  --a\t${x}\n--b  c ".to_owned()),
        tweakers: texts(&["T1", "T2"]),
        ..Profile::default()
    };
    let subs = subs_with(&[("x", "with space")]);
    assert_eq!(
        build_game_args(&profile, &expand_platform(Platform::Linux), &subs),
        ["--a", "with space", "--b", "c", "--tweakClass", "T1", "--tweakClass", "T2"]
    );
}

#[test]
fn only_classpath_records_are_joined() {
    let record = |path: &str, role: Role| ArtifactRecord {
        coordinate: path.to_owned(),
        url: None,
        url_is_fallback: false,
        sha1: None,
        size: None,
        local_path: path.to_owned(),
        role,
        extract_exclude: Vec::new(),
    };
    let records = [
        record("a", Role::Classpath),
        record("b", Role::MavenFile),
        record("c", Role::NativeExtract),
        record("d", Role::Classpath),
        record("e", Role::Asset),
    ];
    assert_eq!(build_classpath(&records, &expand_platform(Platform::Linux)), "a:d");
    assert_eq!(build_classpath(&[], &expand_platform(Platform::Linux)), "");
}

#[test]
fn modern_arguments_of_a_patch_reach_the_command() {
    let patch = Patch {
        main_class: Some("Knot".to_owned()),
        arguments: Some(Arguments {
            game: vec![plain("--version"), plain("${version_name}")],
            jvm: vec![plain("-cp"), plain("${classpath}")],
        }),
        ..Patch::default()
    };
    let profile = merge(&[patch]);
    let argv = assemble_bare(&profile, Platform::Linux).unwrap();
    assert_eq!(
        argv,
        ["/jdk/bin/java", "-cp", "", "-Xms512m", "-Xmx6144m", "Knot", "--version", "unknown"]
    );
}

#[test]
fn unknown_traits_are_ignored() {
    for name in ["FirstThreadOnMacOS", "noapplet", "legacyServices", "legacyLaunch", "texturepacks"] {
        assert!(is_known_trait(name), "{name}");
    }
    assert!(is_known_trait("no-texturepacks"));
    assert!(!is_known_trait("feature:is_quick_play_singleplayer"));
    let profile = Profile { traits: texts(&["noapplet", "whatever"]), ..main_profile() };
    let argv = assemble_bare(&profile, Platform::Osx).unwrap();
    assert_eq!(argv, ["/jdk/bin/java", "-Xms512m", "-Xmx6144m", "-cp", "", "Main"]);
}
