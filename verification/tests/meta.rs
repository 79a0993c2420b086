use prism_bootstrap::exit::{exit_code_for, Cause, Error, ExitCode, FatalError};
use prism_bootstrap::load::Component;
use prism_bootstrap::meta::{
    count_gaps, meta_url_for, patch_from_parsed, start_resolution, MetaAnswer, MetaStep,
};
use prism_bootstrap::model::patch::Patch;

fn local(uid: &str, main_class: &str) -> Component {
    Component::Local(Box::new(Patch {
        uid: uid.to_owned(),
        main_class: Some(main_class.to_owned()),
        ..Patch::default()
    }))
}

fn missing(uid: &str, version: Option<&str>) -> Component {
    Component::Missing {
        uid: uid.to_owned(),
        version: version.map(str::to_owned),
        patch_path: format!("/inst/patches/{uid}.json"),
    }
}

/// Resolve components against recorded answers by url; an unknown url is a 404.
fn run(
    components: Vec<Component>,
    recorded: &[(&str, &str)],
    meta_url: Option<&str>,
) -> Result<Vec<Patch>, Error> {
    let mut state = start_resolution(components, meta_url.map(str::to_owned))?;
    loop {
        match state.step()? {
            MetaStep::Done => return Ok(state.patches),
            MetaStep::Moved => {}
            MetaStep::Fetch { request } => {
                let found = recorded.iter().find(|(url, _)| *url == request.url);
                let answer = match found {
                    Some((_, body)) => parse(body),
                    None => MetaAnswer::Unreachable {
                        words: format!("HTTP 404 (no recorded response for {})", request.url),
                    },
                };
                state.supply(answer)?;
            }
        }
    }
}

/// Read the uid and main class of a version file.
fn parse(body: &str) -> MetaAnswer {
    match serde_json::from_str::<serde_json::Value>(body) {
        Ok(value) => {
            let text = |name: &str| value[name].as_str().map(str::to_owned);
            let patch = Patch {
                uid: text("uid").unwrap_or_default(),
                version: text("version"),
                main_class: text("mainClass"),
                ..Patch::default()
            };
            MetaAnswer::Parsed { patch: Box::new(patch) }
        }
        Err(error) => MetaAnswer::Malformed { words: error.to_string() },
    }
}

#[test]
fn meta_url_for_joins_with_and_without_trailing_slash() {
    let expected = "https://meta/v1/net.minecraft/1.7.10.json";
    assert_eq!(meta_url_for("https://meta/v1/", "net.minecraft", "1.7.10"), expected);
    assert_eq!(meta_url_for("https://meta/v1", "net.minecraft", "1.7.10"), expected);
}

#[test]
fn patch_from_bytes_parses_a_version_file() {
    let json = r#"{"uid":"net.fabricmc.fabric-loader","version":"0.19.3",
        "order":10,"mainClass":"net.fabricmc.loader.impl.launch.knot.KnotClient"}"#;
    let parsed = match parse(json) {
        MetaAnswer::Parsed { patch } => Ok(*patch),
        other => panic!("unexpected answer {other:?}"),
    };
    let patch = patch_from_parsed(parsed, "net.fabricmc.fabric-loader", "0.19.3").unwrap();
    assert_eq!(patch.uid, "net.fabricmc.fabric-loader");
    assert_eq!(
        patch.main_class.as_deref(),
        Some("net.fabricmc.loader.impl.launch.knot.KnotClient")
    );
}

#[test]
fn patch_from_bytes_rejects_bad_json() {
    let words = match parse("not json") {
        MetaAnswer::Malformed { words } => words,
        other => panic!("unexpected answer {other:?}"),
    };
    let error = patch_from_parsed(Err(words), "x", "1").unwrap_err();
    assert_eq!(exit_code_for(&error), ExitCode::MetaResolveFailed);
    match error.cause {
        Cause::Fatal { error: FatalError::MetaResolveFailed { uid, version, reason } } => {
            assert_eq!((uid.as_str(), version.as_str()), ("x", "1"));
            assert!(reason.starts_with("the meta version file is not valid component JSON: "));
        }
        other => panic!("unexpected cause {other:?}"),
    }
}

#[test]
fn passes_through_when_all_local_without_meta_url() {
    let components = vec![local("a", "A.Main"), local("b", "B.Main")];
    assert_eq!(count_gaps(&components), 0);
    let patches = run(components, &[], None).unwrap();
    let mains: Vec<_> = patches.iter().map(|p| p.main_class.as_deref().unwrap()).collect();
    assert_eq!(mains, ["A.Main", "B.Main"]);
}

#[test]
fn gap_without_meta_url_is_missing_component() {
    let components = vec![local("a", "A.Main"), missing("b", Some("1.0"))];
    let error = run(components, &[], None).unwrap_err();
    assert_eq!(exit_code_for(&error), ExitCode::MissingComponent);
}

#[test]
fn gap_with_no_pinned_version_is_missing_component() {
    let components = vec![missing("b", None)];
    let error = run(components, &[], Some("https://meta/v1")).unwrap_err();
    assert_eq!(exit_code_for(&error), ExitCode::MissingComponent);
}

#[test]
fn unreachable_meta_url_is_meta_resolve_failed() {
    let components = vec![missing("b", Some("1.0"))];
    let error = run(components, &[], Some("https://meta/v1")).unwrap_err();
    assert_eq!(exit_code_for(&error), ExitCode::MetaResolveFailed);
}

#[test]
fn resolves_gap_and_slots_it_in_array_order() {
    // [Local(a), Missing(b), Local(c)] -> b fetched from meta, slotted between.
    let url = meta_url_for("https://meta/v1", "b", "1.0");
    let body = r#"{"uid":"b","version":"1.0","mainClass":"B.Main"}"#;
    let components = vec![local("a", "A.Main"), missing("b", Some("1.0")), local("c", "C.Main")];
    assert_eq!(count_gaps(&components), 1);
    let patches = run(components, &[(url.as_str(), body)], Some("https://meta/v1")).unwrap();

    let uids: Vec<_> = patches.iter().map(|p| p.uid.as_str()).collect();
    assert_eq!(uids, ["a", "b", "c"], "order is preserved by array index");
    assert_eq!(patches[1].main_class.as_deref(), Some("B.Main"), "the gap was filled from meta");
}

#[test]
fn first_gap_is_the_one_that_is_reported() {
    let components = vec![local("a", "A"), missing("b", None), missing("c", Some("2"))];
    let error = run(components, &[], None).unwrap_err();
    match error.cause {
        Cause::Fatal { error: FatalError::MissingComponent { uid, version, patch_path } } => {
            assert_eq!(uid, "b");
            assert_eq!(version, None);
            assert_eq!(patch_path, "/inst/patches/b.json");
        }
        other => panic!("unexpected cause {other:?}"),
    }
}

#[test]
fn unpinned_gap_fails_only_when_it_is_reached() {
    let url = meta_url_for("https://meta/v1", "b", "1.0");
    let components = vec![missing("b", Some("1.0")), missing("c", None)];
    let body = r#"{"uid":"b"}"#;
    let error = run(components, &[(url.as_str(), body)], Some("https://meta/v1//")).unwrap_err();
    match error.cause {
        Cause::Fatal { error: FatalError::MissingComponent { uid, .. } } => assert_eq!(uid, "c"),
        other => panic!("unexpected cause {other:?}"),
    }
}

#[test]
fn request_names_url_and_component() {
    let mut state =
        start_resolution(vec![missing("b", Some("1.0"))], Some("https://m/".to_owned())).unwrap();
    match state.step().unwrap() {
        MetaStep::Fetch { request } => {
            assert_eq!(request.url, "https://m/b/1.0.json");
            assert_eq!(request.label, "b 1.0");
        }
        other => panic!("unexpected step {other:?}"),
    }
}

#[test]
fn unreachable_reason_is_kept_verbatim() {
    let mut state =
        start_resolution(vec![missing("b", Some("1.0"))], Some("https://m".to_owned())).unwrap();
    let answer = MetaAnswer::Unreachable { words: "HTTP 404 Not Found".to_owned() };
    let error = state.supply(answer).unwrap_err();
    match error.cause {
        Cause::Fatal { error: FatalError::MetaResolveFailed { uid, version, reason } } => {
            assert_eq!((uid.as_str(), version.as_str()), ("b", "1.0"));
            assert_eq!(reason, "HTTP 404 Not Found");
        }
        other => panic!("unexpected cause {other:?}"),
    }
}
