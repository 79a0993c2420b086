use prism_bootstrap::digest::sha1_hex;
use prism_bootstrap::download::{
    accept_body, after_attempt, after_check, assert_local, backoff, content_is_valid,
    download_failure_reason, give_up, note_joined, part_path, plain_request, plan_download,
    status_failure, verify_against, verify_bytes, AttemptError, DownloadAction, DownloadOptions,
    FetchStep, Joined, VerifyError, MAX_ATTEMPTS,
};
use prism_bootstrap::exit::{exit_code_for, Cause, Error, ExitCode, FatalError};
use prism_bootstrap::model::artifact::{ArtifactRecord, Role};

const ABC: &str = "a9993e364706816aba3e25717850c26c9cd0d89d";

fn record(role: Role, path: &str, sha1: Option<&str>, size: Option<u64>) -> ArtifactRecord {
    ArtifactRecord {
        coordinate: "g:a:1".to_owned(),
        url: Some("http://127.0.0.1:0/never".to_owned()),
        url_is_fallback: false,
        sha1: sha1.map(str::to_owned),
        size,
        local_path: path.to_owned(),
        role,
        extract_exclude: Vec::new(),
    }
}

fn options(verify: bool, dry_run: bool) -> DownloadOptions {
    DownloadOptions { jobs: 4, verify, dry_run }
}

#[test]
fn sha1_hex_known_vector() {
    assert_eq!(sha1_hex(b"abc"), "a9993e364706816aba3e25717850c26c9cd0d89d");
}

#[test]
fn verify_passes_size_and_sha1() {
    let rec = record(Role::Classpath, "", Some("a9993e364706816aba3e25717850c26c9cd0d89d"), Some(3));
    assert!(verify_bytes(b"abc", &rec, true).is_ok());
}

#[test]
fn verify_rejects_wrong_sha1_and_size() {
    let bad_hash = record(Role::Classpath, "", Some("deadbeef"), None);
    assert!(verify_bytes(b"abc", &bad_hash, true).is_err());
    let bad_size = record(Role::Classpath, "", None, Some(99));
    assert!(verify_bytes(b"abc", &bad_size, true).is_err());
}

#[test]
fn verify_skips_when_disabled_or_hash_absent() {
    // --no-verify: a wrong hash is not checked.
    let wrong = record(Role::Classpath, "", Some("deadbeef"), Some(99));
    assert!(verify_bytes(b"abc", &wrong, false).is_ok());
    // missing hash + zero size -> nothing to check.
    let empty = record(Role::Classpath, "", None, Some(0));
    assert!(verify_bytes(b"abc", &empty, true).is_ok());
    // So is an empty hash.
    let blank = record(Role::Classpath, "", Some(""), None);
    assert!(verify_bytes(b"abc", &blank, true).is_ok());
}

#[test]
fn missing_assume_local_is_fatal_on_a_real_run() {
    // A url-less (assume-local) classpath lib that isn't on disk is fatal on a real run
    // - keyed on the absent url, not a special role.
    let mut rec = record(Role::Classpath, "/no/such/lib.jar", None, None);
    rec.url = None;
    let error = assert_local(&rec, false, false).unwrap_err();
    assert_eq!(exit_code_for(&error), ExitCode::MissingLocalLib);
    match error.cause {
        Cause::Fatal { error: FatalError::MissingLocalLib { coordinate, path } } => {
            assert_eq!(coordinate, "g:a:1");
            assert_eq!(path, "/no/such/lib.jar");
        }
        other => panic!("unexpected cause {other:?}"),
    }
    assert!(assert_local(&rec, false, true).is_ok());
}

#[test]
fn missing_assume_local_only_warns_on_dry_run() {
    // A dry run must still succeed (preview).
    let mut rec = record(Role::Classpath, "/no/such/lib.jar", None, None);
    rec.url = None;
    assert!(assert_local(&rec, true, false).is_ok());
}

#[test]
fn fallback_url_failure_spells_out_the_whole_chain() {
    let mut rec = record(Role::Classpath, "/inst/libraries/lw.jar", None, None);
    rec.url_is_fallback = true;
    let reason = download_failure_reason(&rec, "HTTP 404 Not Found".to_owned());
    assert!(reason.contains("has no specified download url"), "got: {reason}");
    assert!(reason.contains("/inst/libraries/lw.jar"), "got: {reason}");
    assert!(reason.contains("Mojang"), "got: {reason}");
    assert!(reason.contains("HTTP 404 Not Found"), "got: {reason}");
    assert_eq!(
        reason,
        "has no specified download url, is not present locally at /inst/libraries/lw.jar, and was \
         not found at Mojang's library server: HTTP 404 Not Found"
    );
}

#[test]
fn explicit_url_failure_keeps_the_underlying_reason_verbatim() {
    let rec = record(Role::Classpath, "/inst/libraries/lib.jar", None, None);
    assert_eq!(
        download_failure_reason(&rec, "HTTP 500 Server Error".to_owned()),
        "HTTP 500 Server Error"
    );
}

#[test]
fn dry_run_does_no_network_for_normal_artifacts() {
    let rec = record(Role::Classpath, "/tmp/never.jar", None, None);
    let action = plan_download(&rec, &options(true, true), false).unwrap();
    assert!(matches!(action, DownloadAction::Nothing));
}

#[test]
fn plan_depends_on_what_is_there() {
    let rec = record(Role::Classpath, "/x.jar", Some(ABC), None);
    match plan_download(&rec, &options(true, false), false).unwrap() {
        DownloadAction::Fetch { url } => assert_eq!(url, "http://127.0.0.1:0/never"),
        other => panic!("unexpected action {other:?}"),
    }
    let present = plan_download(&rec, &options(true, false), true).unwrap();
    assert!(matches!(present, DownloadAction::CheckFile));
    let trusted = plan_download(&rec, &options(false, false), true).unwrap();
    assert!(matches!(trusted, DownloadAction::Nothing));

    let mut local = rec.clone();
    local.url = None;
    let there = plan_download(&local, &options(true, false), true).unwrap();
    assert!(matches!(there, DownloadAction::Nothing));
    assert!(plan_download(&local, &options(true, false), false).is_err());
    assert!(plan_download(&local, &options(true, true), false).is_ok());
}

#[test]
fn present_file_is_fetched_again_if_it_does_not_verify() {
    let rec = record(Role::Classpath, "/x.jar", Some(ABC), None);
    assert!(content_is_valid(&rec, Some(b"abc")));
    assert!(!content_is_valid(&rec, Some(b"abd")));
    assert!(!content_is_valid(&rec, None));
    assert!(matches!(after_check(&rec, true), DownloadAction::Nothing));
    assert!(matches!(after_check(&rec, false), DownloadAction::Fetch { .. }));
}

#[test]
fn hash_case_does_not_matter() {
    let rec = record(Role::Classpath, "", Some("A9993E364706816ABA3E25717850C26C9CD0D89D"), None);
    assert!(verify_bytes(b"abc", &rec, true).is_ok());
    assert!(verify_against(0, "a9993E364706816aba3e25717850c26c9cd0d89d", &rec, true).is_ok());
}

#[test]
fn mismatches_are_told_in_words() {
    let bad_size = record(Role::Classpath, "", Some("deadbeef"), Some(99));
    let error = verify_bytes(b"abc", &bad_size, true).unwrap_err();
    assert!(matches!(error, VerifyError::SizeMismatch { expected: 99, actual: 3 }));
    assert_eq!(error.message(), "size mismatch: expected 99 bytes, got 3");
    let bad_hash = record(Role::Classpath, "", Some("deadbeef"), Some(3));
    let error = verify_bytes(b"abc", &bad_hash, true).unwrap_err();
    assert_eq!(error.message(), format!("sha1 mismatch: expected deadbeef, got {ABC}"));
}

#[test]
fn statuses_are_classified() {
    assert!(status_failure(200, "200 OK").is_none());
    assert!(status_failure(299, "299").is_none());
    for (status, retryable) in
        [(199, false), (301, false), (404, false), (408, true), (429, true), (500, true), (599, true), (600, false)]
    {
        let failure = status_failure(status, "text").unwrap();
        assert_eq!(failure.retryable, retryable, "{status}");
    }
    let failure = status_failure(404, "404 Not Found").unwrap();
    assert_eq!(failure.message, "HTTP 404 Not Found");
}

#[test]
fn transport_errors_are_worth_retrying() {
    let request = AttemptError::of_request("refused");
    assert!(request.retryable);
    assert_eq!(request.message, "request error: refused");
    let read = AttemptError::of_read("reset");
    assert!(read.retryable);
    assert_eq!(read.message, "read error: reset");
}

#[test]
fn bad_body_is_worth_retrying() {
    let rec = record(Role::Classpath, "", Some(ABC), None);
    assert_eq!(accept_body(b"abc".to_vec(), &rec, true).unwrap(), b"abc");
    let error = accept_body(b"x".to_vec(), &rec, true).unwrap_err();
    assert!(error.retryable);
    assert!(error.message.starts_with("sha1 mismatch: "));
    assert_eq!(accept_body(b"x".to_vec(), &rec, false).unwrap(), b"x");
}

#[test]
fn attempts_back_off_and_end() {
    let failed = || Err(AttemptError::retryable("no".to_owned()));
    let mut waits = Vec::new();
    let mut attempt = 1;
    loop {
        match after_attempt(attempt, failed()) {
            FetchStep::Retry { attempt: next, wait_ms } => {
                waits.push(wait_ms);
                attempt = next;
            }
            FetchStep::GiveUp { message } => {
                assert_eq!(message, "no");
                break;
            }
            other => panic!("unexpected step {other:?}"),
        }
    }
    assert_eq!(attempt, MAX_ATTEMPTS);
    assert_eq!(waits, [250, 500, 1000]);
}

#[test]
fn lasting_failure_is_not_retried() {
    let lasting = Err(AttemptError { retryable: false, message: "HTTP 404".to_owned() });
    match after_attempt(1, lasting) {
        FetchStep::GiveUp { message } => assert_eq!(message, "HTTP 404"),
        other => panic!("unexpected step {other:?}"),
    }
    match after_attempt(4, Ok(vec![7])) {
        FetchStep::Done { bytes } => assert_eq!(bytes, [7]),
        other => panic!("unexpected step {other:?}"),
    }
}

#[test]
fn backoff_doubles_each_time() {
    assert_eq!(backoff(1), 250);
    assert_eq!(backoff(2), 500);
    assert_eq!(backoff(3), 1000);
    assert_eq!(backoff(32), 250 * (1 << 31));
}

#[test]
fn giving_up_is_a_download_failure() {
    let rec = record(Role::Classpath, "/x.jar", None, None);
    let error = give_up(&rec, "HTTP 500".to_owned());
    assert_eq!(exit_code_for(&error), ExitCode::DownloadFailed);
    match error.cause {
        Cause::Fatal { error: FatalError::DownloadFailed { coordinate, reason } } => {
            assert_eq!((coordinate.as_str(), reason.as_str()), ("g:a:1", "HTTP 500"));
        }
        other => panic!("unexpected cause {other:?}"),
    }
}

#[test]
fn parts_lie_beside_their_targets() {
    assert_eq!(part_path("/a/lib.jar"), "/a/lib.jar.part");
}

#[test]
fn plain_request_accepts_any_body() {
    let rec = plain_request("https://m/x.json", "x 1");
    assert_eq!(rec.coordinate, "x 1");
    assert_eq!(rec.url.as_deref(), Some("https://m/x.json"));
    assert_eq!(accept_body(b"anything".to_vec(), &rec, true).unwrap(), b"anything");
}

#[test]
fn first_failure_of_a_batch_counts() {
    let failure = |message: &str| Joined::Finished {
        result: Err(Error::new(Cause::Other { message: message.to_owned() })),
    };
    let (first, abort) = note_joined(None, Joined::Finished { result: Ok(()) });
    assert!(first.is_none() && !abort);
    let (first, abort) = note_joined(first, failure("one"));
    assert!(abort);
    let (first, abort) = note_joined(first, failure("two"));
    assert!(!abort);
    let (first, abort) = note_joined(first, Joined::Cancelled);
    assert!(!abort);
    match first.unwrap().cause {
        Cause::Other { message } => assert_eq!(message, "one"),
        other => panic!("unexpected cause {other:?}"),
    }
    let (first, abort) = note_joined(None, Joined::Cancelled);
    assert!(first.is_none() && !abort);
    let (first, abort) = note_joined(None, Joined::Panicked { message: "boom".to_owned() });
    assert!(abort);
    assert_eq!(first.unwrap().contexts, ["download task panicked"]);
}

#[test]
fn at_least_one_download_runs() {
    assert_eq!(DownloadOptions { jobs: 0, verify: true, dry_run: false }.job_limit(), 1);
    assert_eq!(DownloadOptions { jobs: 16, verify: true, dry_run: false }.job_limit(), 16);
}
