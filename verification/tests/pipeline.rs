use prism_bootstrap::cli::{
    argv_path, assemble_config, download_options, native_options, Args,
};
use prism_bootstrap::exit::{exit_code_for, Error, ExitCode, FatalError};
use prism_bootstrap::model::artifact::{ArtifactRecord, Role};
use prism_bootstrap::model::patch::{AssetIndexRef, Logging};
use prism_bootstrap::model::profile::{GameArgs, Profile};
use prism_bootstrap::pipeline::{
    count_roles, game_arg_form, next_stage, run_facts, stage_failure, RunFacts, Stage,
};
use prism_bootstrap::platform::Platform;

fn args() -> Args {
    Args {
        instance_dir: "inst".to_owned(),
        platform: Some(Platform::Linux),
        jobs: 16,
        skip_verify: false,
        dry_run: false,
        headless: true,
        keep_natives: vec!["k".to_owned()],
        skip_natives: vec!["s".to_owned()],
        xms: "512m".to_owned(),
        xmx: "6144m".to_owned(),
        jvm_args: vec!["-Dx=y".to_owned()],
        java: None,
        username: "CI".to_owned(),
        uuid: "0".to_owned(),
        access_token: "1".to_owned(),
        user_type: "msa".to_owned(),
        game_dir: None,
        emit: None,
        meta_url: None,
    }
}

/// All stages of a run, in order.
fn stages(facts: RunFacts) -> Vec<Stage> {
    let mut all = vec![Stage::Load];
    while *all.last().unwrap() != Stage::Finished {
        let next = next_stage(facts, *all.last().unwrap());
        all.push(next);
    }
    all
}

#[test]
fn full_run_has_all_stages() {
    let profile = Profile {
        asset_index: Some(AssetIndexRef::default()),
        logging: Some(Logging::default()),
        ..Profile::default()
    };
    assert_eq!(
        stages(run_facts(&args(), &profile)),
        [
            Stage::Load,
            Stage::Components,
            Stage::Merge,
            Stage::Preflight,
            Stage::Resolve,
            Stage::Libraries,
            Stage::Assets,
            Stage::LogConfig,
            Stage::Natives,
            Stage::Java,
            Stage::Assemble,
            Stage::Emit,
            Stage::Finished,
        ]
    );
}

#[test]
fn run_without_a_platform_stops_after_the_merge() {
    let mut args = args();
    args.platform = None;
    assert_eq!(
        stages(run_facts(&args, &Profile::default())),
        [Stage::Load, Stage::Components, Stage::Merge, Stage::Finished]
    );
}

#[test]
fn dry_run_extracts_nothing() {
    let mut args = args();
    args.dry_run = true;
    assert_eq!(
        stages(run_facts(&args, &Profile::default())),
        [
            Stage::Load,
            Stage::Components,
            Stage::Merge,
            Stage::Preflight,
            Stage::Resolve,
            Stage::Libraries,
            Stage::Java,
            Stage::Assemble,
            Stage::Emit,
            Stage::Finished,
        ]
    );
}

#[test]
fn failures_are_told_by_stage() {
    let told = |stage: Stage| {
        let error = stage_failure(stage, Error::fatal(FatalError::NoMainClass));
        assert_eq!(exit_code_for(&error), ExitCode::BadMainClass);
        error.contexts
    };
    assert_eq!(told(Stage::Components), ["resolving components"]);
    assert_eq!(told(Stage::Preflight), ["preflight checks"]);
    assert_eq!(told(Stage::Resolve), ["resolving artifacts for the target platform"]);
    assert_eq!(told(Stage::Java), ["selecting a JDK"]);
    assert_eq!(told(Stage::Assemble), ["assembling the launch command"]);
    assert_eq!(told(Stage::Emit), ["emitting the launch command"]);
    assert!(told(Stage::Libraries).is_empty());
}

#[test]
fn config_applies_the_game_dir_default() {
    let config = assemble_config(&args(), "/inst", "/jdk/java".to_owned());
    assert_eq!(config.java, "/jdk/java");
    assert_eq!(config.game_dir, "/inst/.minecraft");
    assert_eq!(config.jvm_args, ["-Dx=y"]);
    assert_eq!((config.xms.as_str(), config.xmx.as_str()), ("512m", "6144m"));
    assert_eq!((config.username.as_str(), config.uuid.as_str()), ("CI", "0"));
    assert_eq!((config.access_token.as_str(), config.user_type.as_str()), ("1", "msa"));
    assert!(config.headless);
    let mut args = args();
    args.game_dir = Some("/games".to_owned());
    assert_eq!(assemble_config(&args, "/inst", String::new()).game_dir, "/games");
}

#[test]
fn options_follow_from_the_arguments() {
    let mut args = args();
    assert_eq!(argv_path(&args, "/inst"), "/inst/launch.argv");
    args.emit = Some("out.argv".to_owned());
    assert_eq!(argv_path(&args, "/inst"), "out.argv");
    let options = download_options(&args);
    assert!(options.verify && !options.dry_run);
    assert_eq!(options.jobs, 16);
    args.skip_verify = true;
    args.dry_run = true;
    let options = download_options(&args);
    assert!(!options.verify && options.dry_run);
    let natives = native_options(&args);
    assert!(natives.headless);
    assert_eq!((natives.keep, natives.skip), (vec!["k".to_owned()], vec!["s".to_owned()]));
}

#[test]
fn roles_are_counted() {
    let record = |role: Role, url: Option<&str>| ArtifactRecord {
        coordinate: String::new(),
        url: url.map(str::to_owned),
        url_is_fallback: false,
        sha1: None,
        size: None,
        local_path: String::new(),
        role,
        extract_exclude: Vec::new(),
    };
    let counts = count_roles(&[
        record(Role::Classpath, Some("u")),
        record(Role::Classpath, None),
        record(Role::MavenFile, None),
        record(Role::NativeExtract, Some("u")),
        record(Role::Asset, Some("u")),
    ]);
    assert_eq!((counts.classpath, counts.natives, counts.maven), (2, 1, 1));
    assert_eq!(counts.assume_local, 2);
}

#[test]
fn argument_forms_have_names() {
    let mut profile = Profile::default();
    assert_eq!(game_arg_form(&profile), "none");
    profile.game_args = GameArgs::Legacy(String::new());
    assert_eq!(game_arg_form(&profile), "legacy (minecraftArguments)");
    profile.game_args = GameArgs::Modern { game: vec![], jvm: vec![] };
    assert_eq!(game_arg_form(&profile), "modern (arguments)");
}
