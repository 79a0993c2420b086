use prism_bootstrap::number::{decimal_text, parse_u32};
use prism_bootstrap::paths::{is_absolute, join_path, parent, same_path};
use prism_bootstrap::string_map::StringMap;
use prism_bootstrap::text::{
    contains, join, lines, replace, split, split_once, split_whitespace, starts_with, trim,
    trim_end, Separator,
};

const SAMPLES: [&str; 14] = [
    "", "a", "a:b", ":", "::", "a::b", "a\nb\n", "a\r\nb", "\n", "\r\n", "  a  b ", "aaa",
    "${x}${", "h\u{e9}llo w\u{f6}rld",
];

#[test]
fn white_space_is_that_of_std() {
    for code in 0..=0x10ffff_u32 {
        if let Some(c) = char::from_u32(code) {
            assert_eq!(Separator::Whitespace.separates(c), c.is_whitespace(), "{code:x}");
        }
    }
}

#[test]
fn splitting_is_that_of_std() {
    for s in SAMPLES {
        assert_eq!(split(s, Separator::Is(':')), s.split(':').collect::<Vec<_>>());
        assert_eq!(split_whitespace(s), s.split_whitespace().collect::<Vec<_>>());
        assert_eq!(lines(s), s.lines().collect::<Vec<_>>());
        let parts = split_once(s, ':');
        let parts = parts.as_ref().map(|(a, b)| (a.as_str(), b.as_str()));
        assert_eq!(parts, s.split_once(':'));
        assert_eq!(
            split(s, Separator::VersionPart),
            s.split(['.', '_', '-']).collect::<Vec<_>>()
        );
    }
    assert_eq!(split("1.8.0_392-b1", Separator::VersionPart), ["1", "8", "0", "392", "b1"]);
}

#[test]
fn searching_and_replacing_are_those_of_std() {
    for s in SAMPLES {
        for pat in ["a", "aa", "${", "\n", ":", "xyz"] {
            assert_eq!(contains(s, pat), s.contains(pat));
            assert_eq!(starts_with(s, pat), s.starts_with(pat));
            assert_eq!(replace(s, pat, "<>"), s.replace(pat, "<>"));
        }
        assert!(contains(s, "") && starts_with(s, ""));
        assert_eq!(trim(s), s.trim());
        assert_eq!(trim_end(s, ':'), s.trim_end_matches(':'));
    }
    assert_eq!(trim("\u{a0} x y\u{3000}\n"), "x y");
}

#[test]
fn joining_is_that_of_std() {
    for parts in [vec![], vec!["a"], vec!["a", "b"], vec!["", "", "c"]] {
        let owned: Vec<String> = parts.iter().map(|s| (*s).to_owned()).collect();
        assert_eq!(join(&owned, ", "), parts.join(", "));
    }
}

#[test]
fn numbers_are_written_and_read_as_by_std() {
    for n in [0, 7, 10, 42, 99, 100, 4294967295, u64::MAX] {
        assert_eq!(decimal_text(n), n.to_string());
    }
    for s in ["0", "7", "007", "+5", "", "+", "-1", "1a", " 1", "4294967295", "4294967296", "++1"] {
        assert_eq!(parse_u32(s), s.parse::<u32>().ok(), "{s:?}");
    }
}

#[test]
fn paths_are_joined_as_by_std() {
    for base in ["/a", "/a/", "a", "", "/"] {
        for relative in ["b", "/b", "", "b/c", "b/"] {
            let expected = std::path::Path::new(base).join(relative);
            assert_eq!(join_path(base, relative), expected.to_str().unwrap(), "{base} {relative}");
        }
        assert_eq!(is_absolute(base), std::path::Path::new(base).is_absolute());
    }
}

#[test]
fn maps_keep_one_value_per_key() {
    let mut map = StringMap::new();
    map.insert("b".to_owned(), 1_u32);
    map.insert("a".to_owned(), 2);
    map.insert("b".to_owned(), 3);
    assert_eq!(map.len(), 2);
    assert_eq!(map.get("b"), Some(&3));
    assert_eq!(map.get("a"), Some(&2));
    assert_eq!(map.get("c"), None);
    // Entries are walked in the order of their first insertion.
    assert_eq!((map.key_at(0), *map.value_at(0)), ("b", 3));
    assert_eq!((map.key_at(1), *map.value_at(1)), ("a", 2));
    let copy = map.clone();
    assert_eq!(copy.get("b"), Some(&3));
    let pairs = vec![("x".to_owned(), 1_u32), ("x".to_owned(), 2)];
    let of_pairs = StringMap::of_pairs(&pairs);
    assert_eq!((of_pairs.len(), of_pairs.get("x")), (1, Some(&2)));
}

#[test]
fn path_equality_is_that_of_std() {
    let paths = [
        "", "/", "//", ".", "./", "./a", "a", "a/", "a/.", "a/./b", "a//b", "a/b", "/a/b", "/a/./b",
        "//a//b/", "a/../b", "..", "./.", "/.", "/./a/b", ".a", "a/.b",
    ];
    for a in paths {
        for b in paths {
            let same = std::path::Path::new(a) == std::path::Path::new(b);
            assert_eq!(same_path(a, b), same, "{a:?} {b:?}");
        }
    }
}

#[test]
fn parent_is_that_of_std() {
    let parts = ["", "/", ".", "..", "a", ".b", "\u{e9}"];
    let mut paths = vec![String::new()];
    for _ in 0..5 {
        let longer: Vec<String> =
            paths.iter().flat_map(|path| parts.map(|part| format!("{path}{part}"))).collect();
        paths = longer;
    }
    for path in &paths {
        let directory = std::path::Path::new(path).parent().map(|p| p.to_str().unwrap());
        assert_eq!(parent(path).as_deref(), directory, "{path:?}");
    }
    assert_eq!(parent("/inst/launch.argv").as_deref(), Some("/inst"));
}
