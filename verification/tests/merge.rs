use prism_bootstrap::load::{component, require_patches, Component};
use prism_bootstrap::merge::{apply_game_args, merge, merge_patch, remove_library};
use prism_bootstrap::model::pack::PackComponent;
use prism_bootstrap::model::patch::{
    Agent, ArgEntry, ArgValue, Arguments, AssetIndexRef, Dependency, JavaVersion, Library,
    LibraryRef, Logging, MainJar, Patch, Rule,
};
use prism_bootstrap::model::profile::{GameArgs, Profile};

fn library(name: &str) -> Library {
    Library { name: name.to_owned(), ..Library::default() }
}

fn patch(uid: &str, order: i64) -> Patch {
    Patch { uid: uid.to_owned(), order, ..Patch::default() }
}

fn texts(items: &[&str]) -> Vec<String> {
    items.iter().map(|s| (*s).to_owned()).collect()
}

fn names(profile: &Profile) -> Vec<&str> {
    profile.libraries.iter().map(|l| l.name.as_str()).collect()
}

#[test]
fn main_class_is_last_in_array_order_not_by_order_field() {
    let mut patches = vec![patch("a", 100), patch("b", -2), patch("c", 5)];
    patches[0].main_class = Some("First".to_owned());
    patches[1].main_class = Some("Middle".to_owned());
    patches[2].main_class = Some("Last".to_owned());

    let profile = merge(&patches);
    assert_eq!(profile.main_class.as_deref(), Some("Last"));
}

#[test]
fn libraries_accumulate_in_component_then_declared_order() {
    let mut patches = vec![patch("a", 1), patch("b", 2)];
    patches[0].libraries = vec![library("g:one:1"), library("g:two:1")];
    patches[1].plus_libraries = vec![library("g:three:1")];

    assert_eq!(names(&merge(&patches)), ["g:one:1", "g:two:1", "g:three:1"]);
}

#[test]
fn minus_libraries_removes_by_group_artifact_ignoring_version() {
    let mut patches = vec![patch("a", 1), patch("b", 2)];
    patches[0].libraries = vec![library("g:a:1.0"), library("g:b:2.0")];
    // Reference a different version to confirm version is ignored.
    patches[1].minus_libraries = vec![LibraryRef::Bare("g:a:9.9".to_owned())];

    assert_eq!(names(&merge(&patches)), ["g:b:2.0"]);
}

#[test]
fn minus_libraries_accepts_object_reference_form() {
    let mut patches = vec![patch("a", 1), patch("b", 2)];
    patches[0].libraries = vec![library("g:a:1.0")];
    patches[1].minus_libraries = vec![LibraryRef::Entry { name: "g:a".to_owned() }];

    assert!(merge(&patches).libraries.is_empty());
}

#[test]
fn legacy_argument_form_parses_and_is_recorded() {
    let mut patches = vec![patch("a", 1)];
    patches[0].minecraft_arguments = Some("--foo ${bar}".to_owned());

    match merge(&patches).game_args {
        GameArgs::Legacy(args) => assert_eq!(args, "--foo ${bar}"),
        other => panic!("expected legacy form, got {other:?}"),
    }
}

#[test]
fn modern_argument_form_parses_with_conditional_entries() {
    let mut patches = vec![patch("a", 1)];
    patches[0].arguments = Some(Arguments {
        game: vec![
            ArgEntry::Plain("--demo".to_owned()),
            ArgEntry::Conditional {
                rules: vec![Rule { action: "allow".to_owned(), os: None, features: None }],
                value: ArgValue::Single("x".to_owned()),
            },
        ],
        jvm: vec![
            ArgEntry::Plain("-cp".to_owned()),
            ArgEntry::Plain("${classpath}".to_owned()),
            ArgEntry::Conditional {
                rules: vec![],
                value: ArgValue::Many(texts(&["-Da=b", "-Dc=d"])),
            },
        ],
    });

    match merge(&patches).game_args {
        GameArgs::Modern { game, jvm } => {
            assert_eq!(game.len(), 2);
            assert!(matches!(&game[0], ArgEntry::Plain(s) if s == "--demo"));
            assert!(matches!(&game[1], ArgEntry::Conditional { .. }));
            // jvm tokens stay as authored, including the placeholder pair.
            assert!(matches!(&jvm[0], ArgEntry::Plain(s) if s == "-cp"));
            assert!(matches!(&jvm[1], ArgEntry::Plain(s) if s == "${classpath}"));
        }
        other => panic!("expected modern form, got {other:?}"),
    }
}

#[test]
fn plus_jvm_args_stay_tokenized_verbatim() {
    let mut patches = vec![patch("a", 1)];
    patches[0].plus_jvm_args = texts(&["--add-opens", "java.base/java.io=ALL-UNNAMED"]);

    // Two separate elements - never re-split or re-joined.
    assert_eq!(merge(&patches).jvm_args, ["--add-opens", "java.base/java.io=ALL-UNNAMED"]);
}

/// End-to-end fold of an instance that swaps LWJGL3 into 1.7.10.
#[test]
fn example_files_fold_matches_expected_profile() {
    let mut lwjgl = patch("org.lwjgl3", -1);
    lwjgl.libraries = vec![
        library("org.lwjgl:lwjgl-freetype-natives-freebsd:3.4.2-20260602.093430-9"),
        library("org.lwjgl:lwjgl:3.4.2-20260602.093430-9"),
    ];
    let mut minecraft = patch("net.minecraft", -2);
    minecraft.main_class = Some("net.minecraft.client.main.Main".to_owned());
    minecraft.main_jar =
        Some(MainJar { name: "com.mojang:minecraft:1.7.10:client".to_owned(), downloads: None });
    minecraft.asset_index =
        Some(AssetIndexRef { id: "1.7.10".to_owned(), ..AssetIndexRef::default() });
    minecraft.minecraft_arguments = Some("--username ${auth_player_name}".to_owned());
    minecraft.compatible_java_majors = vec![17, 21, 25, 26];
    minecraft.libraries = vec![library("com.google.guava:guava:15.0")];
    let mut forge_patches = patch("me.eigenraven.lwjgl3ify.forgepatches", 3);
    forge_patches.plus_jvm_args = texts(&[
        "-Dfile.encoding=UTF-8",
        "--add-opens",
        "java.base/java.io=ALL-UNNAMED",
    ]);
    forge_patches.plus_libraries =
        vec![library("com.github.GTNewHorizons:lwjgl3ify:3.0.23:forgePatches")];
    let mut forge = patch("net.minecraftforge", 5);
    forge.main_class = Some("com.gtnewhorizons.retrofuturabootstrap.Main".to_owned());
    forge.plus_tweakers = texts(&["cpw.mods.fml.common.launcher.FMLTweaker"]);
    forge.libraries = vec![
        library("net.minecraft:launchwrapper:1.12"),
        library("com.google.guava:guava:17.0"),
    ];
    let mut launch_args = patch("me.eigenraven.lwjgl3ify.launchargs", 100);
    launch_args.main_class =
        Some("com.gtnewhorizons.retrofuturabootstrap.MainStartOnFirstThread".to_owned());
    launch_args.plus_traits = texts(&["FirstThreadOnMacOS"]);

    let components: Vec<Component> = [lwjgl, minecraft, forge_patches, forge, launch_args]
        .into_iter()
        .map(|patch| {
            let listed = PackComponent { uid: patch.uid.clone(), ..PackComponent::default() };
            component(&listed, "example", Some(patch))
        })
        .collect();
    let patches = require_patches(&components).expect("a complete instance should load");

    // Loaded in manifest array order (NOT sorted by the `order` field): org.lwjgl3
    // before net.minecraft.
    let order: Vec<&str> = patches.iter().map(|p| p.uid.as_str()).collect();
    assert_eq!(
        order,
        [
            "org.lwjgl3",
            "net.minecraft",
            "me.eigenraven.lwjgl3ify.forgepatches",
            "net.minecraftforge",
            "me.eigenraven.lwjgl3ify.launchargs",
        ]
    );

    let profile = merge(&patches);

    // main class: last-wins from launchargs (order 100).
    assert_eq!(
        profile.main_class.as_deref(),
        Some("com.gtnewhorizons.retrofuturabootstrap.MainStartOnFirstThread")
    );

    // Library count == sum of every component's libraries + +libraries.
    let expected_len: usize =
        patches.iter().map(|p| p.libraries.len() + p.plus_libraries.len()).sum();
    assert_eq!(profile.libraries.len(), expected_len);
    // First lib is org.lwjgl3's first (array order); last is forge's guava 17.0.
    assert_eq!(
        profile.libraries.first().unwrap().name,
        "org.lwjgl:lwjgl-freetype-natives-freebsd:3.4.2-20260602.093430-9"
    );
    assert_eq!(profile.libraries.last().unwrap().name, "com.google.guava:guava:17.0");

    // Single tweaker from forge; trait from launchargs.
    assert_eq!(profile.tweakers, ["cpw.mods.fml.common.launcher.FMLTweaker"]);
    assert_eq!(profile.traits, ["FirstThreadOnMacOS"]);

    // Legacy arg form, from net.minecraft.
    assert!(matches!(profile.game_args, GameArgs::Legacy(_)));

    // +jvmArgs block from forgepatches, pre-tokenized.
    assert_eq!(profile.jvm_args.first().map(String::as_str), Some("-Dfile.encoding=UTF-8"));
    assert!(profile.jvm_args.iter().any(|a| a == "--add-opens"));

    // Java-major hints collected from net.minecraft.
    assert_eq!(profile.compatible_java_majors, [17, 21, 25, 26]);

    // asset index set by the Minecraft component.
    assert_eq!(profile.asset_index.as_ref().map(|a| a.id.as_str()), Some("1.7.10"));
}

#[test]
fn nothing_merges_to_the_empty_profile() {
    let profile = merge(&[]);
    assert!(profile.libraries.is_empty());
    assert_eq!(profile.main_class, None);
    assert!(matches!(profile.game_args, GameArgs::Absent));
}

#[test]
fn merging_in_two_steps_is_merging_in_one() {
    let mut a = patch("a", 0);
    a.libraries = vec![library("g:x:1"), library("g:y:1")];
    a.main_class = Some("A".to_owned());
    let mut b = patch("b", 0);
    b.libraries = vec![library("g:z:1")];
    b.minus_libraries = vec![LibraryRef::Bare("g:x".to_owned())];
    let whole = merge(&[a.clone(), b.clone()]);
    let mut stepwise = merge(&[a]);
    merge_patch(&mut stepwise, &b);
    assert_eq!(names(&whole), names(&stepwise));
    assert_eq!(names(&whole), ["g:y:1", "g:z:1"]);
    assert_eq!(whole.main_class, stepwise.main_class);
}

#[test]
fn removal_covers_the_own_additions_of_a_component() {
    let mut a = patch("a", 0);
    a.libraries = vec![library("g:x:1")];
    a.plus_libraries = vec![library("g:x:2"), library("g:y:1")];
    a.minus_libraries = vec![LibraryRef::Bare("g:x".to_owned())];
    // A later component may add it again.
    let mut b = patch("b", 0);
    b.libraries = vec![library("g:x:3")];
    assert_eq!(names(&merge(&[a, b])), ["g:y:1", "g:x:3"]);
}

#[test]
fn removing_keeps_the_order_of_the_rest() {
    let mut libraries = vec![library("g:a:1"), library("g:b:1"), library("g:a:2"), library("g:c")];
    remove_library(&mut libraries, "g:a:7:x");
    let left: Vec<&str> = libraries.iter().map(|l| l.name.as_str()).collect();
    assert_eq!(left, ["g:b:1", "g:c"]);
}

#[test]
fn majors_are_collected_once_and_in_order() {
    let mut a = patch("a", 0);
    a.compatible_java_majors = vec![17, 8, 17];
    a.java_version = Some(JavaVersion { major_version: Some(21), component: None });
    let mut b = patch("b", 0);
    b.compatible_java_majors = vec![8, 25];
    b.java_version = Some(JavaVersion { major_version: Some(17), component: None });
    let mut c = patch("c", 0);
    c.java_version = Some(JavaVersion { major_version: None, component: Some("jre".to_owned()) });
    assert_eq!(merge(&[a, b, c]).compatible_java_majors, [17, 8, 21, 25]);
}

#[test]
fn last_wins_fields_survive_components_that_do_not_set_them() {
    let mut a = patch("a", 0);
    a.main_jar = Some(MainJar { name: "m:m:1".to_owned(), downloads: None });
    a.logging = Some(Logging { argument: Some("-x".to_owned()), ..Logging::default() });
    a.asset_index = Some(AssetIndexRef { id: "1".to_owned(), ..AssetIndexRef::default() });
    let mut b = patch("b", 0);
    b.asset_index = Some(AssetIndexRef { id: "2".to_owned(), ..AssetIndexRef::default() });
    let profile = merge(&[a, b, patch("c", 0)]);
    assert_eq!(profile.main_jar.unwrap().name, "m:m:1");
    assert_eq!(profile.logging.unwrap().argument.as_deref(), Some("-x"));
    assert_eq!(profile.asset_index.unwrap().id, "2");
}

#[test]
fn argument_forms_replace_each_other() {
    let legacy = Patch { minecraft_arguments: Some("--l".to_owned()), ..patch("l", 0) };
    let modern = Patch {
        arguments: Some(Arguments { game: vec![ArgEntry::Plain("m".to_owned())], jvm: vec![] }),
        ..patch("m", 0)
    };
    // Modern entries accumulate over modern ones.
    match merge(&[modern.clone(), modern.clone()]).game_args {
        GameArgs::Modern { game, jvm } => assert_eq!((game.len(), jvm.len()), (2, 0)),
        other => panic!("expected modern form, got {other:?}"),
    }
    // A legacy string in between starts over.
    match merge(&[modern.clone(), legacy.clone(), modern.clone()]).game_args {
        GameArgs::Modern { game, .. } => assert_eq!(game.len(), 1),
        other => panic!("expected modern form, got {other:?}"),
    }
    match merge(&[modern.clone(), legacy.clone()]).game_args {
        GameArgs::Legacy(text) => assert_eq!(text, "--l"),
        other => panic!("expected legacy form, got {other:?}"),
    }
    // A component that sets both forms sets the modern one, and only its own entries.
    let both = Patch { minecraft_arguments: Some("--l".to_owned()), ..modern.clone() };
    let mut args = GameArgs::Modern { game: vec![ArgEntry::Plain("old".to_owned())], jvm: vec![] };
    apply_game_args(&mut args, &both);
    match args {
        GameArgs::Modern { game, .. } => {
            assert_eq!(game.len(), 1);
            assert!(matches!(&game[0], ArgEntry::Plain(s) if s == "m"));
        }
        other => panic!("expected modern form, got {other:?}"),
    }
}

#[test]
fn lists_accumulate_across_components() {
    let dep = |uid: &str| Dependency { uid: uid.to_owned(), ..Dependency::default() };
    let mut a = patch("a", 0);
    a.maven_files = vec![library("g:f:1")];
    a.plus_agents = vec![Agent { name: "g:agent:1".to_owned() }];
    a.requires = vec![dep("r1")];
    a.conflicts = vec![dep("c1")];
    let mut b = patch("b", 0);
    b.maven_files = vec![library("g:f:1")];
    b.plus_agents = vec![Agent { name: "g:agent:2".to_owned() }];
    b.requires = vec![dep("r2")];
    let profile = merge(&[a, b]);
    assert_eq!(profile.maven_files.len(), 2);
    let agents: Vec<&str> = profile.agents.iter().map(|a| a.name.as_str()).collect();
    assert_eq!(agents, ["g:agent:1", "g:agent:2"]);
    let requires: Vec<&str> = profile.requires.iter().map(|d| d.uid.as_str()).collect();
    assert_eq!(requires, ["r1", "r2"]);
    assert_eq!(profile.conflicts.len(), 1);
}
