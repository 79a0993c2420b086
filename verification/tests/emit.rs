use prism_bootstrap::emit::{
    alsoft_text, argv_text, command_line, emitted_files, env_text, lock_entries, lock_path,
    role_name, TextFile,
};
use prism_bootstrap::model::artifact::{ArtifactRecord, Role};

fn record(coordinate: &str) -> ArtifactRecord {
    ArtifactRecord {
        coordinate: coordinate.to_owned(),
        url: Some("https://example/lib.jar".to_owned()),
        url_is_fallback: false,
        sha1: Some("abc".to_owned()),
        size: Some(1),
        local_path: "/inst/libraries/lib.jar".to_owned(),
        role: Role::Classpath,
        extract_exclude: Vec::new(),
    }
}

/// The path and text of each file.
fn written_to(files: &[TextFile]) -> Vec<(&str, &str)> {
    files.iter().map(|file| (file.path.as_str(), file.text.as_str())).collect()
}

#[test]
fn emit_writes_argv_one_token_per_line() {
    let argv = vec!["/jdk/bin/java".to_owned(), "-Xmx1g".to_owned(), "Main".to_owned()];
    let written = argv_text(&argv);
    assert_eq!(written, "/jdk/bin/java\n-Xmx1g\nMain\n");
    // It reads back as the tokens.
    let lines: Vec<&str> = written.lines().collect();
    assert_eq!(lines, argv);
    // The same command as one line.
    assert_eq!(command_line(&argv), "/jdk/bin/java -Xmx1g Main");
    // resolution.lock goes beside it; launch.env is not written (not headless).
    let argv_path = "/tmp/e/launch.argv";
    let files = emitted_files(&argv, argv_path, false);
    assert_eq!(written_to(&files), [(argv_path, "/jdk/bin/java\n-Xmx1g\nMain\n")]);
    assert_eq!(lock_path(argv_path), "/tmp/e/resolution.lock");
    assert_eq!(lock_entries(&[record("g:a:1")])[0].coordinate, "g:a:1");
}

#[test]
fn headless_writes_env_file() {
    let env = env_text();
    assert!(env.contains("LIBGL_ALWAYS_SOFTWARE=1"));
    assert!(env.contains("GALLIUM_DRIVER=llvmpipe"));
    assert_eq!(env, "LIBGL_ALWAYS_SOFTWARE=1\nGALLIUM_DRIVER=llvmpipe\nALSOFT_DRIVERS=null\n");
    assert_eq!(alsoft_text(), "[general]\ndrivers = null\n");

    let argv_path = "/tmp/e/launch.argv";
    let files = emitted_files(&vec!["java".to_owned()], argv_path, true);
    assert_eq!(
        written_to(&files),
        [
            (argv_path, "java\n"),
            ("/tmp/e/launch.env", env.as_str()),
            ("/tmp/e/alsoft.conf", "[general]\ndrivers = null\n"),
        ]
    );
    let names: Vec<&str> = files.iter().map(|file| file.name.as_str()).collect();
    assert_eq!(names, ["launch.argv", "launch.env", "alsoft.conf"]);
}

#[test]
fn outputs_stand_beside_any_argv_path() {
    for (argv_path, env_path) in [
        ("launch.argv", "launch.env"),
        ("./out.argv", "./launch.env"),
        ("/out.argv", "/launch.env"),
        ("/inst//./out.argv", "/inst/launch.env"),
        ("inst/deep/out.argv/", "inst/deep/launch.env"),
        ("/", "./launch.env"),
    ] {
        let files = emitted_files(&Vec::new(), argv_path, true);
        assert_eq!(files[0].path, argv_path);
        assert_eq!(files[1].path, env_path);
        assert_eq!(lock_path(argv_path), env_path.replace("launch.env", "resolution.lock"));
    }
}

#[test]
fn empty_argv_is_one_empty_line() {
    assert_eq!(argv_text(&Vec::new()), "\n");
    assert_eq!(command_line(&Vec::new()), "");
}

#[test]
fn lock_rows_follow_the_records() {
    let mut second = record("g:b:1");
    second.url = None;
    second.sha1 = None;
    second.role = Role::NativeExtract;
    let rows = lock_entries(&[record("g:a:1"), second]);
    assert_eq!(rows.len(), 2);
    assert_eq!(rows[0].coordinate, "g:a:1");
    assert_eq!(rows[0].url.as_deref(), Some("https://example/lib.jar"));
    assert_eq!(rows[0].sha1.as_deref(), Some("abc"));
    assert_eq!(rows[0].local_path, "/inst/libraries/lib.jar");
    assert_eq!(rows[0].role, "classpath");
    assert_eq!((rows[1].url.as_deref(), rows[1].role.as_str()), (None, "native-extract"));
}

#[test]
fn roles_have_stable_names() {
    assert_eq!(role_name(Role::Classpath), "classpath");
    assert_eq!(role_name(Role::MavenFile), "maven-file");
    assert_eq!(role_name(Role::NativeExtract), "native-extract");
    assert_eq!(role_name(Role::Asset), "asset");
    assert_eq!(role_name(Role::NoUrl), "no-url");
}
