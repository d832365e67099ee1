use ethersync::file_map::FileMap;
use ethersync::ignore::{is_ignored, is_walked, no_match, Candidate, WalkEntry};
use ethersync::path::{is_below_something, join, same_path, split_components, Component};
use ethersync::random_edit::{edit_from_draw, random_delta};
use ethersync::text;
use ethersync::types::{TextDelta, TextOp};
use ethersync::uri;
use ethersync::uri::UriProblem;
use std::path::{Path, PathBuf};

const PATHS: [&str; 20] = [
    "", "/", "//", "a", "/a", "a/", "a//b", "/a/b", "./a", "a/./b", ".", "./", "..", "../a", "/..",
    "a/..", "/./a", ".a", "a.", "\u{fc}/\u{1f955}",
];

fn std_components(path: &str) -> Vec<Component> {
    Path::new(path)
        .components()
        .map(|component| match component {
            std::path::Component::RootDir => Component::RootDir,
            std::path::Component::CurDir => Component::CurDir,
            std::path::Component::ParentDir => Component::ParentDir,
            std::path::Component::Normal(name) => {
                Component::Normal(name.to_str().unwrap().to_string())
            }
            std::path::Component::Prefix(_) => unreachable!(),
        })
        .collect()
}

#[test]
fn paths_are_taken_apart_as_std_does() {
    for path in PATHS {
        assert_eq!(split_components(path), std_components(path), "{path}");
        assert_eq!(is_below_something(path), Path::new(path).parent().is_some(), "{path}");
    }
}

#[test]
fn paths_are_compared_as_std_does() {
    for a in PATHS {
        for b in PATHS {
            assert_eq!(same_path(a, b), Path::new(a) == Path::new(b), "{a} {b}");
        }
    }
    assert!(same_path("/base/a", "/base//a/."));
    assert!(!same_path("/base/a", "/base/b"));
}

#[test]
fn relative_paths_are_joined_as_std_does() {
    for dir in PATHS {
        for name in ["a", "a/b", "..", "."] {
            assert_eq!(PathBuf::from(join(dir, name)).into_os_string(), Path::new(dir).join(name));
        }
    }
}

fn entry(path: &str, is_file: bool) -> WalkEntry {
    WalkEntry { path: path.to_string(), is_file }
}

#[test]
fn what_a_walk_does_not_find_is_ignored() {
    let walk = vec![entry("/base", false), entry("/base/./a", true), entry("/base/dir", false)];
    assert!(!is_ignored(&walk, "/base/a"));
    assert!(is_ignored(&walk, "/base/dir"));
    assert!(is_ignored(&walk, "/base/b"));
    assert!(is_ignored(&vec![], "/base/a"));
}

#[test]
fn paths_are_looked_for_as_the_platform_compares_them() {
    let paths = ["/b/a", "/b\\a", "C:\\b/a", "c:\\b\\a", "//b/a", "/b//a/"];
    for found in paths {
        for sought in paths {
            let walk = vec![entry(found, true)];
            let same = Path::new(found) == Path::new(sought);
            assert_eq!(is_ignored(&walk, sought), !same, "{found} {sought}");
        }
    }
}

#[test]
fn only_a_file_at_the_path_matches() {
    let candidate = |is_file, is_same_path| Candidate { is_file, is_same_path };
    assert!(no_match(&vec![]));
    assert!(no_match(&vec![candidate(true, false), candidate(false, true)]));
    assert!(!no_match(&vec![candidate(false, false), candidate(true, true)]));
}

#[test]
fn internal_directories_are_not_walked() {
    assert!(!is_walked(".git"));
    assert!(!is_walked(".ethersync"));
    assert!(is_walked(".gitignore"));
    assert!(is_walked("src"));
    assert!(is_walked(""));
}

#[test]
fn uris_and_file_paths_correspond() {
    assert_eq!(uri::uri_for_file_path("/base", "a/b"), "file:///base/a/b");
    assert_eq!(uri::absolute_path_for_file_path("/base", "a/b"), "/base/a/b");
    assert_eq!(uri::relative_file_path("/base", "file:///base/a/b"), Ok("a/b".to_string()));
    assert_eq!(uri::relative_file_path("/base", "/base/a/b"), Ok("a/b".to_string()));
    assert_eq!(uri::relative_file_path("", "/a"), Ok("a".to_string()));
    assert_eq!(uri::relative_file_path("/base", "base/a"), Err(UriProblem::NotAbsolute));
    assert_eq!(uri::relative_file_path("/base", "/basement/a"), Err(UriProblem::NoSlash));
    assert_eq!(uri::relative_file_path("/base", "/a"), Err(UriProblem::OutsideBaseDir));
    assert_eq!(uri::strip_scheme("file://file://x"), "file://x");
}

#[test]
fn texts_are_split() {
    assert_eq!(text::split("", '/'), vec![""]);
    assert_eq!(text::split("/a//\u{fc}/", '/'), vec!["", "a", "", "\u{fc}", ""]);
    assert_eq!(text::strip_prefix("\u{fc}bc", "\u{fc}"), Some("bc"));
    assert_eq!(text::strip_prefix("bc", "bcd"), None);
    assert_eq!(text::concat("a", "\u{1f955}"), "a\u{1f955}");
    assert!(text::starts_with("/a", '/') && !text::starts_with("", '/'));
    assert!(text::same("a", "a") && !text::same("a", "b"));
}

#[test]
fn file_maps_hold_one_value_per_path() {
    let mut map: FileMap<u8> = FileMap::new();
    map.insert("a".to_string(), 1);
    map.insert("b".to_string(), 2);
    map.insert("a".to_string(), 3);
    assert!(map.contains_key("a") && map.contains_key("b") && !map.contains_key("c"));
    assert_eq!(map.remove("a"), Some(3));
    assert_eq!(map.remove("a"), None);
    assert_eq!(map.remove("b"), Some(2));
}

fn ops(position: usize, text: &str, deleted: usize) -> TextDelta {
    TextDelta {
        ops: vec![
            TextOp::Retain(position),
            TextOp::Insert(text.to_string()),
            TextOp::Delete(deleted),
        ],
    }
}

#[test]
fn draws_become_edits() {
    assert_eq!(
        edit_from_draw(10, &vec![0, 1, 2, 3], 4, 2),
        ops(4, "d\u{fc}\u{1f955}\u{1f49a}", 2)
    );
    assert_eq!(edit_from_draw(10, &vec![4, 4, 0, 4], 0, 9), ops(0, "\n\nd\n", 3));
    assert_eq!(edit_from_draw(10, &vec![0, 0, 0, 0], 10, 0), ops(10, "dddd", 0));
    assert_eq!(edit_from_draw(0, &vec![0, 0, 0, 0], 0, 0), ops(0, "dddd", 0));
}

#[test]
fn random_edits_stay_within_the_text() {
    let text = "0123456789".repeat(10);
    let mut ends = 0;
    let mut inserted: Vec<String> = vec![];
    for _ in 0..300 {
        let delta = random_delta(&text);
        match &delta.ops[..] {
            [TextOp::Retain(position), TextOp::Insert(text), TextOp::Delete(deleted)] => {
                assert!(position + deleted <= 100);
                assert!(*deleted == 0 || position + deleted < 100);
                assert!(*deleted <= 3);
                assert_eq!(text.chars().count(), 4);
                if *position == 100 {
                    ends += 1;
                }
                inserted.push(text.clone());
            }
            _ => panic!("no edit"),
        }
    }
    assert!(ends < 300);
    assert!(inserted.iter().any(|text| *text != inserted[0]));
}
