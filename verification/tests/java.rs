use prism_bootstrap::exit::{exit_code_for, Cause, Error, ExitCode};
use prism_bootstrap::java::{
    is_compatible, java_candidates, keep_existing, parse_java_major, probed_major, select_java,
    working_javas, ExplicitJava,
};

fn message(error: &Error) -> String {
    match &error.cause {
        Cause::Other { message } => message.clone(),
        other => panic!("unexpected cause {other:?}"),
    }
}

#[test]
fn parses_modern_dotted_version() {
    let out = "openjdk version \"21.0.1\" 2023-10-17\nOpenJDK Runtime Environment";
    assert_eq!(parse_java_major(out), Some(21));
}

#[test]
fn parses_modern_single_component_version() {
    let out = "openjdk version \"25\" 2025-09-16";
    assert_eq!(parse_java_major(out), Some(25));
}

#[test]
fn parses_legacy_one_dot_eight() {
    let out = "java version \"1.8.0_392\"\nJava(TM) SE Runtime Environment";
    assert_eq!(parse_java_major(out), Some(8));
}

#[test]
fn parses_early_access_suffix() {
    let out = "openjdk version \"26-ea\" 2026-03-17";
    assert_eq!(parse_java_major(out), Some(26));
}

#[test]
fn rejects_output_without_a_version_line() {
    assert_eq!(parse_java_major("no version here"), None);
}

#[test]
fn version_may_stand_on_a_later_line() {
    let out = "Picked up JAVA_TOOL_OPTIONS: -Xmx1g\r\nopenjdk version \"17.0.9\" 2023\r\n";
    assert_eq!(parse_java_major(out), Some(17));
}

#[test]
fn unterminated_quote_ends_with_the_line() {
    assert_eq!(parse_java_major("version \"21\r\nmore"), Some(21));
    // A carriage return that ends no line is part of the text.
    assert_eq!(parse_java_major("version \"21\r"), None);
    assert_eq!(parse_java_major("version \"21"), Some(21));
}

#[test]
fn version_that_is_no_number_is_rejected() {
    assert_eq!(parse_java_major("version \"abc\""), None);
    assert_eq!(parse_java_major("version \"\""), None);
    assert_eq!(parse_java_major("version \"1\""), None);
    assert_eq!(parse_java_major("version \"4294967296\""), None);
    assert_eq!(parse_java_major("version \"4294967295\""), Some(4294967295));
    // The first line that names a version decides.
    assert_eq!(parse_java_major("version \"abc\"\nversion \"21\""), None);
}

#[test]
fn probing_failure_shows_the_trimmed_output() {
    assert_eq!(probed_major("version \"21\"").unwrap(), 21);
    let error = probed_major(" \n no version here\t\n").unwrap_err();
    assert_eq!(message(&error), "could not parse a java major version from: no version here");
}

#[test]
fn java_home_comes_before_path() {
    let dirs = vec!["/usr/bin".to_owned(), "/opt/jdk/bin".to_owned()];
    assert_eq!(
        java_candidates(Some("/home/jdk"), &dirs),
        ["/home/jdk/bin/java", "/usr/bin/java", "/opt/jdk/bin/java"]
    );
    assert_eq!(java_candidates(None, &dirs), ["/usr/bin/java", "/opt/jdk/bin/java"]);
}

#[test]
fn existing_candidates_are_kept_once() {
    let candidates: Vec<String> =
        ["/a/java", "/b/java", "/a/java", "/c/java"].iter().map(|s| (*s).to_owned()).collect();
    assert_eq!(
        keep_existing(&candidates, &vec![true, false, true, true]),
        ["/a/java", "/c/java"]
    );
    assert_eq!(
        keep_existing(&candidates, &vec![false, true, true, false]),
        ["/b/java", "/a/java"]
    );
}

#[test]
fn first_compatible_java_is_selected() {
    let probed = vec![
        ("/8/java".to_owned(), 8),
        ("/21/java".to_owned(), 21),
        ("/17/java".to_owned(), 17),
    ];
    assert_eq!(select_java(None, 3, &probed, &vec![17, 21]).unwrap(), "/21/java");
    // No hints accept any working java.
    assert_eq!(select_java(None, 3, &probed, &vec![]).unwrap(), "/8/java");
}

#[test]
fn no_compatible_java_names_what_was_found() {
    let probed = vec![("/8/java".to_owned(), 8), ("/11/java".to_owned(), 11)];
    let error = select_java(None, 2, &probed, &vec![17, 21]).unwrap_err();
    assert_eq!(
        message(&error),
        "no JDK on PATH satisfies compatibleJavaMajors [17, 21] (found majors: [8, 11]) - pass \
         --java <path> to a matching JDK"
    );
    assert_eq!(exit_code_for(&error), ExitCode::IoError);
    let none = select_java(None, 1, &vec![], &vec![]).unwrap_err();
    assert_eq!(
        message(&none),
        "no JDK on PATH satisfies compatibleJavaMajors [] (found majors: []) - pass --java <path> \
         to a matching JDK"
    );
}

#[test]
fn no_candidate_is_its_own_failure() {
    let error = select_java(None, 0, &vec![], &vec![17]).unwrap_err();
    assert_eq!(message(&error), "no `java` found on PATH - install a JDK or pass --java <path>");
}

#[test]
fn explicit_java_is_used_verbatim() {
    let explicit = ExplicitJava { path: "jdk/java".to_owned(), probed: Ok(8) };
    // Whatever its major, and whatever is on PATH.
    assert_eq!(select_java(Some(explicit), 0, &vec![], &vec![17]).unwrap(), "jdk/java");
    assert!(!is_compatible(8, &vec![17]));
    assert!(is_compatible(8, &vec![]));
    assert!(is_compatible(17, &vec![8, 17]));
}

#[test]
fn explicit_java_that_cannot_be_probed_fails() {
    let cause = Cause::Other { message: "not found".to_owned() };
    let explicit = ExplicitJava { path: "/x/java".to_owned(), probed: Err(Error::new(cause)) };
    let error = select_java(Some(explicit), 0, &vec![], &vec![]).unwrap_err();
    assert_eq!(message(&error), "not found");
    assert_eq!(error.contexts, ["probing the --java binary at /x/java"]);
}

#[test]
fn one_place_written_twice_is_probed_once() {
    let candidates: Vec<String> = ["/usr/bin/java", "/usr//bin/java", "/usr/bin/./java", "/bin/java"]
        .iter()
        .map(|path| (*path).to_owned())
        .collect();
    let kept = keep_existing(&candidates, &vec![true, true, true, true]);
    assert_eq!(kept, ["/usr/bin/java", "/bin/java"]);
    let kept = keep_existing(&candidates, &vec![false, true, true, false]);
    assert_eq!(kept, ["/usr//bin/java"]);
}

#[test]
fn broken_candidates_do_not_abort_the_search() {
    let broken = || Err(Error::new(Cause::Other { message: "broken".to_owned() }));
    let probed = vec![
        ("/broken/java".to_owned(), broken()),
        ("/8/java".to_owned(), Ok(8)),
        ("/gone/java".to_owned(), broken()),
        ("/21/java".to_owned(), Ok(21)),
    ];
    let found = working_javas(probed);
    assert_eq!(found, [("/8/java".to_owned(), 8), ("/21/java".to_owned(), 21)]);
    assert_eq!(select_java(None, 4, &found, &vec![17, 21]).unwrap(), "/21/java");
    assert_eq!(select_java(None, 4, &found, &vec![]).unwrap(), "/8/java");
    assert!(working_javas(vec![("/broken/java".to_owned(), broken())]).is_empty());
    assert!(working_javas(Vec::new()).is_empty());
}
