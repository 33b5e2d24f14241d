use pipesys::compare::{path_begins_with, path_lies_below, paths_equal};
use pipesys::tools::{directories_below, is_installed, EntryKind, SealedTool, Tools};
use std::path::Path;

fn paths() -> Vec<&'static str> {
    vec![
        "", "/", "//", ".", "./", "/.", "a", "/a", "a/", "/a/", "./a", "a/.", "a/b", "a//b",
        "/a/b", "/a//b/", "a/./b", "./a/b", "/a/b/c", "a/b/c", "b", "/b", "ab", "a/bc", "..",
        "a/..", "../a", "/..", ".a", "a.", "/tools", "/tools/", "/tools/docker-go",
        "/tools/sub/dir/tool", "tools/sub", "é", "/é/ü",
    ]
}

#[test]
fn paths_are_equal_as_std_paths_are() {
    for a in paths() {
        for b in paths() {
            assert_eq!(paths_equal(a, b), Path::new(a) == Path::new(b), "{a:?} {b:?}");
        }
    }
    assert!(paths_equal("/tools//docker-go/", "/tools/docker-go"));
    assert!(paths_equal("a/./b", "a/b"));
    assert!(!paths_equal("./a", "a"));
    assert!(!paths_equal("/a", "a"));
}

#[test]
fn paths_begin_as_std_paths_do() {
    for a in paths() {
        for b in paths() {
            assert_eq!(path_begins_with(a, b), Path::new(a).starts_with(b), "{a:?} {b:?}");
            let below = Path::new(a).starts_with(b) && Path::new(a) != Path::new(b);
            assert_eq!(path_lies_below(a, b), below, "{a:?} {b:?}");
        }
    }
    assert!(path_begins_with("/tools/sub/x", "/tools"));
    assert!(!path_begins_with("/toolshed/x", "/tools"));
    assert!(path_lies_below("/tools/sub", "/tools/"));
    assert!(!path_lies_below("/tools/", "/tools"));
}

#[test]
fn only_files_are_installed() {
    assert!(is_installed(EntryKind::Regular));
    assert!(!is_installed(EntryKind::Other));
}

#[test]
fn tool_is_reached_through_its_descriptor() {
    let tool = SealedTool::new("docker-go".to_string(), 4321, 9);
    assert_eq!(tool.target_name(), "docker-go");
    assert_eq!(tool.sealed_file_path(), "/proc/4321/fd/9");
    let copy = tool.clone();
    assert_eq!(copy.target_name(), "docker-go");
    assert_eq!(copy.sealed_file_path(), "/proc/4321/fd/9");
}

#[test]
fn tools_are_found_by_name() {
    let names = ["Makefile.toml", "build.Dockerfile", "docker-go", "sub/dir/tool", "pipesys"];
    let list = names
        .iter()
        .enumerate()
        .map(|(i, name)| SealedTool::new(name.to_string(), 77, 10 + i as i32))
        .collect();
    let tools = Tools::from_list(list);
    assert_eq!(tools.len(), 5);
    for (i, name) in names.iter().enumerate() {
        let tool = tools.tool(name).unwrap();
        assert_eq!(tool.target_name(), *name);
        assert_eq!(tool.sealed_file_path(), format!("/proc/77/fd/{}", 10 + i));
    }
    assert!(tools.tool("buildsys").is_none());
    assert!(tools.tool("").is_none());
    assert!(tools.tool("docker").is_none());
    // a name is a path: how it is written makes no difference
    assert_eq!(tools.tool("sub//dir/./tool/").unwrap().sealed_file_path(), "/proc/77/fd/13");
    assert!(tools.tool("/docker-go").is_none());
    let listed: Vec<&str> = tools.sealed_tools().iter().map(|t| t.target_name()).collect();
    assert_eq!(listed, names);
}

#[test]
fn later_tool_takes_the_place_of_an_earlier_one() {
    let list = vec![
        SealedTool::new("a".to_string(), 1, 3),
        SealedTool::new("b".to_string(), 1, 4),
        SealedTool::new("a/".to_string(), 1, 5),
    ];
    let tools = Tools::from_list(list);
    assert_eq!(tools.len(), 2);
    assert_eq!(tools.tool("a").unwrap().sealed_file_path(), "/proc/1/fd/5");
    assert_eq!(tools.tool("b").unwrap().sealed_file_path(), "/proc/1/fd/4");
    let tools = tools.insert(SealedTool::new("b".to_string(), 1, 6));
    let tools = tools.insert(SealedTool::new("c".to_string(), 1, 7));
    assert_eq!(tools.len(), 3);
    assert_eq!(tools.tool("b").unwrap().sealed_file_path(), "/proc/1/fd/6");
    assert_eq!(tools.tool("c").unwrap().sealed_file_path(), "/proc/1/fd/7");
    assert_eq!(Tools::new().len(), 0);
    assert!(Tools::new().tool("a").is_none());
}

#[test]
fn link_is_planned_in_the_directory_of_the_tools() {
    let tool = SealedTool::new("sub/dir/tool".to_string(), 1, 3);
    let plan = tool.link_plan("/tmp/tools").unwrap();
    assert_eq!(plan.symlink_path, "/tmp/tools/sub/dir/tool");
    assert_eq!(plan.parent_dir, "/tmp/tools/sub/dir");
    assert_eq!(plan.dated, vec!["/tmp/tools/sub/dir", "/tmp/tools/sub"]);
    let tool = SealedTool::new("docker-go".to_string(), 1, 3);
    let plan = tool.link_plan("/tmp/tools/").unwrap();
    assert_eq!(plan.symlink_path, "/tmp/tools/docker-go");
    assert_eq!(plan.parent_dir, "/tmp/tools");
    assert!(plan.dated.is_empty());
    assert!(SealedTool::new("".to_string(), 1, 3).link_plan("").is_none());
    assert!(SealedTool::new("/".to_string(), 1, 3).link_plan("/tmp").is_none());
}

#[test]
fn dated_directories_agree_with_std() {
    for base in ["/tmp/tools", "/tmp/tools/", "tools", "", "/", "."] {
        for name in ["a", "a/b/c", "./a/b", "a//b/", "/x/y", "../a", "a/../b", ""] {
            let link = Path::new(base).join(name);
            let expected: Vec<String> = link
                .ancestors()
                .skip(1)
                .filter(|a| a.starts_with(base) && *a != Path::new(base))
                .map(|a| a.to_str().unwrap().to_string())
                .collect();
            assert_eq!(directories_below(base, link.to_str().unwrap()), expected, "{base} {name}");
        }
    }
}

/// Every text of at most `max` characters over a separator, a dot and a letter.
fn small_paths(max: usize) -> Vec<String> {
    let mut all = vec![String::new()];
    let mut last = vec![String::new()];
    for _ in 0..max {
        let mut next = Vec::new();
        for text in &last {
            for c in ['/', '.', 'a'] {
                let mut longer = text.clone();
                longer.push(c);
                next.push(longer);
            }
        }
        all.extend(next.iter().cloned());
        last = next;
    }
    all
}

#[test]
fn every_pair_of_small_paths_compares_as_std_does() {
    let paths = small_paths(4);
    for a in &paths {
        for b in &paths {
            let (x, y) = (Path::new(a), Path::new(b));
            assert_eq!(paths_equal(a, b), x == y, "{a:?} {b:?}");
            assert_eq!(path_begins_with(a, b), x.starts_with(y), "{a:?} {b:?}");
            assert_eq!(path_lies_below(a, b), x.starts_with(y) && x != y, "{a:?} {b:?}");
        }
    }
}

#[test]
fn every_small_path_has_the_dated_directories_of_std() {
    for path in small_paths(6) {
        for base in ["", "/", "a", "/a", "a/a", "."] {
            let expected: Vec<String> = Path::new(&path)
                .ancestors()
                .skip(1)
                .filter(|a| a.starts_with(base) && *a != Path::new(base))
                .map(|a| a.to_str().unwrap().to_string())
                .collect();
            assert_eq!(directories_below(base, &path), expected, "{base:?} {path:?}");
        }
    }
}
