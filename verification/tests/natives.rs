use std::io::{Cursor, Write};

use prism_bootstrap::model::artifact::{ArtifactRecord, Role};
use prism_bootstrap::natives::{
    coordinate_matches, entry_destination, extract_natives, is_enclosed, natives_to_extract,
    should_extract, unpack_entry, unpack_jar, NativeOptions,
};

fn texts(items: &[&str]) -> Vec<String> {
    items.iter().map(|s| (*s).to_owned()).collect()
}

fn options(headless: bool, keep: &[&str], skip: &[&str]) -> NativeOptions {
    NativeOptions { headless, keep: texts(keep), skip: texts(skip) }
}

/// Build a jar with the given (name, contents) entries.
fn make_jar(entries: &[(&str, &[u8])]) -> Vec<u8> {
    let mut writer = zip::ZipWriter::new(Cursor::new(Vec::new()));
    let opts: zip::write::FileOptions<'_, ()> = zip::write::FileOptions::default();
    for (name, content) in entries {
        writer.start_file(*name, opts).unwrap();
        writer.write_all(content).unwrap();
    }
    writer.finish().unwrap().into_inner()
}

fn record(coordinate: &str, role: Role, exclude: &[&str]) -> ArtifactRecord {
    ArtifactRecord {
        coordinate: coordinate.to_owned(),
        url: None,
        url_is_fallback: false,
        sha1: None,
        size: None,
        local_path: format!("/inst/{coordinate}.jar"),
        role,
        extract_exclude: texts(exclude),
    }
}

#[test]
fn headless_skips_jinput_but_keep_overrides() {
    let jinput = "net.java.jinput:jinput-platform:2.0.5:natives-linux";
    let lwjgl = "org.lwjgl.lwjgl:lwjgl-platform:2.9.4:natives-linux";

    // Non-headless: everything extracts.
    assert!(should_extract(jinput, &options(false, &[], &[])));
    // Headless: jinput skipped, lwjgl (not an input device) still extracts.
    assert!(!should_extract(jinput, &options(true, &[], &[])));
    assert!(should_extract(lwjgl, &options(true, &[], &[])));
    // --keep-natives jinput re-includes it even headless.
    assert!(should_extract(jinput, &options(true, &["jinput"], &[])));
    // --skip-natives wins over default-extract.
    assert!(!should_extract(lwjgl, &options(false, &[], &["lwjgl-platform"])));
    // --keep wins over --skip.
    assert!(should_extract(jinput, &options(true, &["jinput"], &["jinput"])));
}

#[test]
fn extract_jar_honors_exclude_and_writes_libs() {
    let jar = make_jar(&[
        ("liblwjgl.so", b"ELF-lwjgl"),
        ("libopenal.so", b"ELF-openal"),
        ("META-INF/MANIFEST.MF", b"Manifest-Version: 1.0"),
    ]);
    let unpacked = unpack_jar(&jar, "native.jar", "/x/natives", &texts(&["META-INF/"]));

    assert!(unpacked.failure.is_none());
    let paths: Vec<&str> = unpacked.files.iter().map(|f| f.path.as_str()).collect();
    // Excluded prefix must not be written.
    assert_eq!(paths, ["/x/natives/liblwjgl.so", "/x/natives/libopenal.so"]);
    assert_eq!(unpacked.files[0].content, b"ELF-lwjgl");
    assert_eq!(unpacked.files[1].content, b"ELF-openal");
}

#[test]
fn extract_natives_empty_set_is_clean() {
    // Only a classpath record -> nothing legacy to extract.
    let records = [record("g:a:1", Role::Classpath, &[])];
    let jars = vec![Err("not read".to_owned())];
    let result = extract_natives(&records, &jars, "/x/natives", &options(false, &[], &[]));
    assert_eq!(result.extracted, 0);
    assert!(result.files.is_empty());
    assert!(result.failure.is_none());
}

#[test]
fn extract_natives_runs_for_legacy_record() {
    let jar = make_jar(&[("libjinput-linux64.so", b"ELF"), ("META-INF/x", b"y")]);
    let records = [record(
        "net.java.jinput:jinput-platform:2.0.5:natives-linux",
        Role::NativeExtract,
        &["META-INF/"],
    )];
    let jars = vec![Ok(jar)];

    // Non-headless: extracted.
    let result = extract_natives(&records, &jars, "/x/natives", &options(false, &[], &[]));
    assert_eq!(result.extracted, 1);
    assert_eq!(result.files.len(), 1);
    assert_eq!(result.files[0].path, "/x/natives/libjinput-linux64.so");

    // Headless: the jinput native is skipped.
    let skipped = extract_natives(&records, &jars, "/x/natives", &options(true, &[], &[]));
    assert_eq!(skipped.extracted, 0);
    assert!(skipped.files.is_empty());
}

#[test]
fn coordinate_patterns_are_substrings() {
    assert!(coordinate_matches("net.java.jinput:x:1", &texts(&["lwjgl", "jinput"])));
    assert!(!coordinate_matches("net.java.jinput:x:1", &texts(&["lwjgl"])));
    assert!(!coordinate_matches("a", &[].to_vec()));
    assert!(coordinate_matches("a", &texts(&[""])));
}

#[test]
fn only_wanted_natives_are_picked_in_order() {
    let records = [
        record("b:lwjgl:1", Role::NativeExtract, &[]),
        record("c:plain:1", Role::Classpath, &[]),
        record("d:ois:1", Role::NativeExtract, &[]),
        record("a:openal:1", Role::NativeExtract, &[]),
    ];
    let picked = natives_to_extract(&records, &options(true, &[], &[]));
    let names: Vec<&str> = picked.iter().map(|r| r.coordinate.as_str()).collect();
    assert_eq!(names, ["b:lwjgl:1", "a:openal:1"]);
}

#[test]
fn enclosed_names_agree_with_the_zip_crate() {
    let names = [
        "a", "a/b", "./a", "a/./b", "a//b", "a/../b", "a/b/../../c", "..", "../a", "a/../../b",
        "/a", "/", ".", "a/..", "a/../..", "a/b/..", "...", "a\0b", "a/.../b", "x/../y/../z",
    ];
    for name in names {
        let jar = make_jar(&[(name, b"x")]);
        let mut archive = zip::ZipArchive::new(Cursor::new(jar)).unwrap();
        let entry = archive.by_index(0).unwrap();
        assert_eq!(entry.name(), name);
        assert_eq!(is_enclosed(name), entry.enclosed_name().is_some(), "{name:?}");
        if let Some(path) = entry.enclosed_name() {
            assert_eq!(path.to_str(), Some(name));
        }
    }
}

#[test]
fn directories_and_unsafe_names_are_skipped() {
    let none: Vec<String> = Vec::new();
    assert_eq!(entry_destination("dir/", "/n", &none), None);
    assert_eq!(entry_destination("dir\\", "/n", &none), None);
    assert_eq!(entry_destination("../evil.so", "/n", &none), None);
    assert_eq!(entry_destination("/evil.so", "/n", &none), None);
    assert_eq!(entry_destination("a/../b.so", "/n", &none).as_deref(), Some("/n/a/../b.so"));
    assert_eq!(entry_destination("lib/x.so", "/n", &texts(&["li"])), None);
    assert_eq!(entry_destination("lib/x.so", "/n/", &none).as_deref(), Some("/n/lib/x.so"));
}

#[test]
fn bytes_that_are_no_jar_fail_with_context() {
    let unpacked = unpack_jar(b"not a zip", "/j.jar", "/n", &Vec::new());
    assert!(unpacked.files.is_empty());
    let failure = unpacked.failure.unwrap();
    assert_eq!(failure.contexts, ["reading native jar /j.jar"]);
}

#[test]
fn failing_entry_ends_the_jar_early() {
    let none: Vec<String> = Vec::new();
    let fine = unpack_entry(Ok("a.so".to_owned()), Ok(vec![1, 2]), "/n", &none).unwrap().unwrap();
    assert_eq!((fine.path.as_str(), fine.content), ("/n/a.so", vec![1, 2]));
    let broken = unpack_entry(Ok("a.so".to_owned()), Err("bad crc".to_owned()), "/n", &none);
    assert_eq!(broken.unwrap_err().contexts, ["writing /n/a.so"]);
    // The content of an entry that is skipped does not matter.
    let skipped = unpack_entry(Ok("d/".to_owned()), Err("bad crc".to_owned()), "/n", &none);
    assert!(skipped.unwrap().is_none());
    let nameless = unpack_entry(Err("gone".to_owned()), Ok(vec![]), "/n", &none);
    assert!(nameless.unwrap_err().contexts.is_empty());
}

#[test]
fn jar_that_cannot_be_read_stops_the_extraction() {
    let good = make_jar(&[("a.so", b"A")]);
    let records = [
        record("g:one:1", Role::NativeExtract, &[]),
        record("g:two:1", Role::NativeExtract, &[]),
        record("g:three:1", Role::NativeExtract, &[]),
    ];
    let jars = vec![Ok(good.clone()), Err("no such file".to_owned()), Ok(good)];
    let result = extract_natives(&records, &jars, "/n", &options(false, &[], &[]));
    assert_eq!(result.extracted, 1);
    assert_eq!(result.files.len(), 1);
    assert_eq!(
        result.failure.unwrap().contexts,
        ["opening native jar /inst/g:two:1.jar", "extracting native g:two:1"]
    );
}

#[test]
fn compressed_entries_are_unpacked() {
    let content = vec![b'x'; 5000];
    let mut writer = zip::ZipWriter::new(Cursor::new(Vec::new()));
    let opts: zip::write::FileOptions<'_, ()> = zip::write::FileOptions::default()
        .compression_method(zip::CompressionMethod::Deflated);
    writer.start_file("big.so", opts).unwrap();
    writer.write_all(&content).unwrap();
    let jar = writer.finish().unwrap().into_inner();
    assert!(jar.len() < content.len());
    let unpacked = unpack_jar(&jar, "j", "/n", &Vec::new());
    assert_eq!(unpacked.files[0].content, content);
}
