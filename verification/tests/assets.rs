use prism_bootstrap::assets::{
    build_object_records, log_config_is_stale, log_config_path, patch_console_layout, patch_given,
    plan_virtual_tree, request_index, request_log_config, AssetIndex, AssetObject, PATTERN_LAYOUT,
};
use prism_bootstrap::exit::Cause;
use prism_bootstrap::model::artifact::Role;
use prism_bootstrap::model::patch::{AssetIndexRef, Logging, LoggingFile};
use prism_bootstrap::string_map::StringMap;

fn index(objects: &[(&str, &str, u64)]) -> AssetIndex {
    let mut map = StringMap::new();
    for (name, hash, size) in objects {
        map.insert((*name).to_owned(), AssetObject { hash: (*hash).to_owned(), size: *size });
    }
    AssetIndex { objects: map, is_virtual: false, map_to_resources: false }
}

#[test]
fn detects_virtual_and_map_to_resources() {
    assert!(AssetIndex { is_virtual: true, ..index(&[]) }.needs_virtual_tree());
    assert!(AssetIndex { map_to_resources: true, ..index(&[]) }.needs_virtual_tree());
    assert!(!index(&[]).needs_virtual_tree());
}

#[test]
fn object_record_url_and_path_use_hash_prefix() {
    let index = index(&[(
        "minecraft/lang/en_US.lang",
        "abcd1234ef567890abcd1234ef567890abcd1234",
        42,
    )]);
    assert!(index.hashes_are_sound());
    let records = build_object_records(&index, "/inst/assets");
    assert_eq!(records.len(), 1);
    let record = &records[0];
    assert_eq!(record.role, Role::Asset);
    assert_eq!(record.size, Some(42));
    assert_eq!(
        record.url.as_deref(),
        Some("https://resources.download.minecraft.net/ab/abcd1234ef567890abcd1234ef567890abcd1234")
    );
    assert!(record.local_path.ends_with("objects/ab/abcd1234ef567890abcd1234ef567890abcd1234"));
    assert_eq!(record.coordinate, "asset:abcd1234ef567890abcd1234ef567890abcd1234");
    assert_eq!(record.sha1.as_deref(), Some("abcd1234ef567890abcd1234ef567890abcd1234"));
}

#[test]
fn patch_console_layout_swaps_xmllayout_keeping_the_mitigation() {
    // A client-1.7.xml-shaped config: the console XMLLayout becomes a PatternLayout,
    // while the JNDI RegexFilter survives verbatim.
    let original = r#"<Configuration status="WARN">
    <Appenders>
        <Console name="SysOut" target="SYSTEM_OUT">
            <XMLLayout />
        </Console>
    </Appenders>
    <Loggers><Root level="info"><filters>
        <RegexFilter regex="(?s).*\$\{[^}]*\}.*" onMatch="DENY" onMismatch="NEUTRAL" />
    </filters></Root></Loggers>
</Configuration>"#;

    let patched = patch_console_layout(original).expect("XMLLayout present -> patched");
    assert!(patched.contains("<PatternLayout"));
    assert!(!patched.contains("XMLLayout"));
    // The mitigation filter is left untouched.
    assert!(patched.contains(r"(?s).*\$\{[^}]*\}.*"));
    assert_eq!(patched, original.replace("<XMLLayout />", PATTERN_LAYOUT));
}

#[test]
fn patch_console_layout_is_a_noop_without_xmllayout() {
    // A config that already logs plain text needs no patch.
    let plain = r#"<Console name="SysOut"><PatternLayout pattern="%msg%n" /></Console>"#;
    assert!(patch_console_layout(plain).is_none());
}

#[test]
fn every_self_closing_layout_is_swapped() {
    let patched = patch_console_layout("a<XMLLayout/>b<XMLLayout \n\t/>c<XMLLayout>d").unwrap();
    assert_eq!(patched, format!("a{PATTERN_LAYOUT}b{PATTERN_LAYOUT}c<XMLLayout>d"));
    // A paired layout is left as it is.
    assert!(patch_console_layout("<XMLLayout></XMLLayout>").is_none());
}

#[test]
fn patch_follows_the_verdict() {
    let text = || Some("x".to_owned());
    assert_eq!(patch_given(Some(true), text()).as_deref(), Some("x"));
    assert_eq!(patch_given(Some(false), text()), None);
    assert_eq!(patch_given(None, text()), None);
}

#[test]
fn virtual_tree_links_objects_to_readable_names() {
    let hash = "abcd1234ef567890abcd1234ef567890abcd1234";
    let index = AssetIndex { is_virtual: true, ..index(&[("lang/en.txt", hash, 5)]) };
    let links = plan_virtual_tree(&index, "/inst/assets", "legacy");
    assert_eq!(links.len(), 1);
    assert_eq!(links[0].source, format!("/inst/assets/objects/ab/{hash}"));
    assert_eq!(links[0].target, "/inst/assets/virtual/legacy/lang/en.txt");
    // It leads to where the object is downloaded to.
    assert_eq!(links[0].source, build_object_records(&index, "/inst/assets")[0].local_path);
}

#[test]
fn malformed_hashes_are_skipped() {
    let index = index(&[("a", "", 1), ("b", "x", 2), ("c", "xy", 3), ("d", "\u{e9}", 4)]);
    assert!(index.hashes_are_sound());
    let records = build_object_records(&index, "/a");
    let paths: Vec<&str> = records.iter().map(|r| r.local_path.as_str()).collect();
    // A character of two bytes is a prefix of its own.
    assert_eq!(paths, ["/a/objects/xy/xy", "/a/objects/\u{e9}/\u{e9}"]);
    assert_eq!(plan_virtual_tree(&index, "/a", "i").len(), 2);
}

#[test]
fn hashes_that_cannot_be_cut_are_told() {
    assert!(!index(&[("a", "x\u{e9}", 1)]).hashes_are_sound());
    assert!(!index(&[("a", "\u{20ac}", 1)]).hashes_are_sound());
    assert!(index(&[("a", "\u{e9}\u{20ac}", 1)]).hashes_are_sound());
    assert!(index(&[]).hashes_are_sound());
}

#[test]
fn index_is_requested_unless_on_a_dry_run() {
    let mut asset_index = AssetIndexRef {
        id: "1.7.10".to_owned(),
        url: Some("https://m/1.7.10.json".to_owned()),
        sha1: Some(String::new()),
        size: Some(72996),
        ..AssetIndexRef::default()
    };
    let record = request_index(&asset_index, "/inst", false).unwrap().unwrap();
    assert_eq!(record.coordinate, "assetIndex:1.7.10");
    assert_eq!(record.url.as_deref(), Some("https://m/1.7.10.json"));
    assert_eq!(record.sha1, None);
    assert_eq!(record.size, Some(72996));
    assert_eq!(record.local_path, "/inst/assets/indexes/1.7.10.json");
    assert!(request_index(&asset_index, "/inst", true).unwrap().is_none());

    // A missing url fails even on a dry run.
    asset_index.url = None;
    let error = request_index(&asset_index, "/inst", true).unwrap_err();
    match error.cause {
        Cause::Other { message } => {
            assert_eq!(message, "asset index 1.7.10 has no download url");
        }
        other => panic!("unexpected cause {other:?}"),
    }
}

#[test]
fn log_config_is_requested_where_the_command_looks_for_it() {
    let mut logging = Logging {
        argument: None,
        file: Some(LoggingFile {
            id: "client-1.7.xml".to_owned(),
            sha1: Some("50c9".to_owned()),
            size: Some(966),
            url: Some("https://launcher/client-1.7.xml".to_owned()),
        }),
        config_type: None,
    };
    let record = request_log_config(&logging, "/inst", false).unwrap();
    assert_eq!(record.coordinate, "logConfig:client-1.7.xml");
    assert_eq!(record.local_path, log_config_path("/inst", "client-1.7.xml"));
    assert_eq!(record.local_path, "/inst/assets/log_configs/client-1.7.xml");
    assert_eq!(record.sha1.as_deref(), Some("50c9"));
    assert_eq!(record.size, Some(966));
    assert!(request_log_config(&logging, "/inst", true).is_none());
    logging.file.as_mut().unwrap().url = Some(String::new());
    assert!(request_log_config(&logging, "/inst", false).is_none());
    logging.file = None;
    assert!(request_log_config(&logging, "/inst", false).is_none());
}

#[test]
fn patched_config_is_not_fetched_again() {
    assert!(log_config_is_stale(None));
    let original = "<Console><XMLLayout /></Console>";
    assert!(log_config_is_stale(Some(original)));
    let patched = patch_console_layout(original).unwrap();
    assert!(!log_config_is_stale(Some(&patched)));
}
