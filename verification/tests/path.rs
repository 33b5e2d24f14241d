use pipesys::path::{as_relative_path, file_name, join, parent_of, PathError};
use std::path::{Path, PathBuf};

#[test]
fn test_as_relative_path_with_absolute_input() {
    // Even if `path` is absolute, we make it relative to `parent`
    let parent = "/tmp";
    let path = "/tmp/foo/bar";
    let expected = "/tmp/tmp/foo/bar";

    let result = as_relative_path(parent, path).unwrap();
    assert_eq!(PathBuf::from(result), PathBuf::from(expected));
}

#[test]
fn test_as_relative_path_with_relative_parent() {
    // Even if `path` is absolute, we make it relative to `parent`
    let parent = "tmp";
    let path = "/and/then";
    let expected = "tmp/and/then";

    let result = as_relative_path(parent, path).unwrap();
    assert_eq!(PathBuf::from(result), PathBuf::from(expected));
}

#[test]
fn test_as_relative_path_would_escape() {
    // Even if `path` is absolute, we make it relative to `parent`
    let parent = "/anything";
    let path = "/uh-oh/../../../../help";

    assert!(as_relative_path(parent, path).is_err());
}

#[test]
fn as_relative_path_gives_exact_text() {
    assert_eq!(as_relative_path("/tmp", "/tmp/foo/bar").unwrap(), "/tmp/tmp/foo/bar");
    assert_eq!(as_relative_path("tmp", "/and/then").unwrap(), "tmp/and/then");
    assert_eq!(as_relative_path("/srv/", "etc/passwd").unwrap(), "/srv/etc/passwd");
    assert_eq!(as_relative_path("", "/a").unwrap(), "a");
    assert_eq!(as_relative_path("/p", "//a//b/./").unwrap(), "/p/a//b");
    assert_eq!(as_relative_path("/p", "a//b/./").unwrap(), "/p/a//b/./");
    assert_eq!(as_relative_path("/p", "/").unwrap(), "/p/");
    assert_eq!(as_relative_path("/p", "").unwrap(), "/p/");
    assert_eq!(as_relative_path("/p", "/./.").unwrap(), "/p/");
}

#[test]
fn as_relative_path_refuses_every_parent_reference() {
    for path in ["..", "../a", "a/..", "a/../b", "/..", "/a/../b", "./..", "a//..//b"] {
        assert_eq!(as_relative_path("/p", path), Err(PathError::ParentReference), "{path}");
    }
    for path in ["...", "a..", "..a", "a/..b/c", "a/b../c", ". ."] {
        assert!(as_relative_path("/p", path).is_ok(), "{path}");
    }
}

fn sample_paths() -> Vec<&'static str> {
    vec![
        "", "/", "//", "///", ".", "./", "/.", "/./", "./.", "a", "/a", "a/", "/a/", "//a", "a//",
        "a/b", "/a/b", "a//b", "/a//b/", "a/./b", "/a/./b/.", "./a", "./a/b", "/./a", "/././a/.",
        ".a", "a.", "/.a", "/a./", "...", "/...", "a/.../b", "é/ü", "/é//ü/", "/a/b/c/d/e",
        "a/b/./", "a/b/.//", "/a/b//./.", "/ ", " /a",
    ]
}

#[test]
fn as_relative_path_agrees_with_std() {
    for parent in ["", "/", "/tmp", "/tmp/", "tmp", "tmp//", ".", "./x", "/é"] {
        for path in sample_paths() {
            let given = Path::new(path);
            let relative = given.strip_prefix("/").unwrap_or(given);
            let expected = Path::new(parent).join(relative);
            let ours = as_relative_path(parent, path).unwrap();
            assert_eq!(ours.as_str(), expected.to_str().unwrap(), "{parent:?} {path:?}");
        }
    }
}

#[test]
fn join_agrees_with_std() {
    for base in ["", "/", "/tmp", "/tmp/", "tmp", "tmp//", ".", "./x", "/é"] {
        for path in sample_paths() {
            let expected = Path::new(base).join(path);
            assert_eq!(join(base, path).as_str(), expected.to_str().unwrap(), "{base:?} {path:?}");
        }
    }
}

#[test]
fn sanitized_path_stays_under_its_parent() {
    for parent in ["/tmp", "tmp/", "/"] {
        for path in sample_paths() {
            let link = PathBuf::from(as_relative_path(parent, path).unwrap());
            assert!(link.starts_with(parent), "{parent:?} {path:?}");
            let below = link.strip_prefix(parent).unwrap();
            assert!(below.components().all(|c| matches!(c, std::path::Component::Normal(_))));
        }
    }
}

fn more_paths() -> Vec<&'static str> {
    let mut paths = sample_paths();
    paths.extend([
        "..", "../", "/..", "a/..", "../a", "a/../b", "./..", "../.", "./a/..", "/a/b/../",
        "./", ".//", "././", "./.a", ".//a", "./a//", "/./", "//.", "a/.", "a/./", "a/b/c",
        "a/b/c/", "/a/b/c//./", "./a/b/.", ". /a", "a/ ", "/proc/12/fd/3", "tmp/marker",
    ]);
    paths
}

#[test]
fn parent_of_agrees_with_std() {
    for path in more_paths() {
        let expected = Path::new(path).parent().map(|p| p.to_str().unwrap().to_string());
        assert_eq!(parent_of(path), expected, "{path:?}");
    }
}

#[test]
fn file_name_agrees_with_std() {
    for path in more_paths() {
        let expected = Path::new(path).file_name().map(|p| p.to_str().unwrap().to_string());
        assert_eq!(file_name(path), expected, "{path:?}");
    }
}

#[test]
fn parent_of_gives_exact_text() {
    assert_eq!(parent_of("/tmp/links/a/b"), Some("/tmp/links/a".to_string()));
    assert_eq!(parent_of("/tmp"), Some("/".to_string()));
    assert_eq!(parent_of("tmp"), Some("".to_string()));
    assert_eq!(parent_of("/"), None);
    assert_eq!(parent_of(""), None);
    assert_eq!(file_name("/run/ready.marker"), Some("ready.marker".to_string()));
    assert_eq!(file_name("/run/.."), None);
    assert_eq!(file_name("/"), None);
}

/// Every text of at most `max` characters over a separator, a dot and a letter.
fn small_paths(max: usize) -> Vec<String> {
    let mut all = vec![String::new()];
    let mut last = vec![String::new()];
    for _ in 0..max {
        let mut next = Vec::new();
        for text in &last {
            for c in ['/', '.', 'a'] {
                let mut longer = text.clone();
                longer.push(c);
                next.push(longer);
            }
        }
        all.extend(next.iter().cloned());
        last = next;
    }
    all
}

fn has_parent_reference(path: &str) -> bool {
    Path::new(path).components().any(|c| c.as_os_str() == "..")
}

#[test]
fn every_small_path_is_sanitized_as_std_does() {
    for path in small_paths(7) {
        for parent in ["", "/", "/p", "p/", ".", "./p", "p//"] {
            let ours = as_relative_path(parent, &path);
            if has_parent_reference(&path) {
                assert_eq!(ours, Err(PathError::ParentReference), "{parent:?} {path:?}");
            } else {
                let given = Path::new(&path);
                let relative = given.strip_prefix("/").unwrap_or(given);
                assert!(!relative.starts_with(".."));
                let expected = Path::new(parent).join(relative);
                assert_eq!(ours.unwrap(), expected.to_str().unwrap(), "{parent:?} {path:?}");
            }
        }
    }
}

#[test]
fn every_small_path_has_the_parent_and_name_of_std() {
    for path in small_paths(8) {
        let std_path = Path::new(&path);
        let parent = std_path.parent().map(|p| p.to_str().unwrap().to_string());
        let name = std_path.file_name().map(|p| p.to_str().unwrap().to_string());
        assert_eq!(parent_of(&path), parent, "{path:?}");
        assert_eq!(file_name(&path), name, "{path:?}");
    }
}

#[test]
fn every_pair_of_small_paths_is_joined_as_std_does() {
    let paths = small_paths(4);
    for base in &paths {
        for path in &paths {
            let expected = Path::new(base).join(path);
            assert_eq!(join(base, path), expected.to_str().unwrap(), "{base:?} {path:?}");
        }
    }
}

#[test]
fn leading_root_changes_nothing_under_a_parent() {
    for parent in ["/p", "p/", "/", ".", "p//q"] {
        for path in small_paths(5) {
            if has_parent_reference(&path) {
                continue;
            }
            let rooted = format!("/{path}");
            let with_root = PathBuf::from(as_relative_path(parent, &rooted).unwrap());
            let without = PathBuf::from(as_relative_path(parent, &path).unwrap());
            assert_eq!(with_root, without, "{parent:?} {path:?}");
        }
    }
    // under the empty parent a single dot at the start is kept, and lost after a root
    assert_eq!(as_relative_path("", "./a").unwrap(), "./a");
    assert_eq!(as_relative_path("", "/./a").unwrap(), "a");
    assert_eq!(as_relative_path("", "/a").unwrap(), as_relative_path("", "a").unwrap());
}

#[test]
fn sanitized_path_lies_below_its_parent_when_it_has_a_step() {
    for parent in ["/p", "p/", "/", "."] {
        for path in small_paths(5) {
            if has_parent_reference(&path) {
                continue;
            }
            let link = PathBuf::from(as_relative_path(parent, &path).unwrap());
            let has_step =
                Path::new(&path).components().any(|c| matches!(c, std::path::Component::Normal(_)));
            assert!(link.starts_with(parent));
            assert_eq!(link != Path::new(parent), has_step, "{parent:?} {path:?}");
        }
    }
}
