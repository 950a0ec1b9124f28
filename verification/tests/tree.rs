use livetree::tree::layout::{compute_prefixes, compute_tree_structure, is_last_sibling, RawEntry};
use livetree::tree::order::sort_cmp;
use livetree::tree::walk::{
    built_or_empty, compile_ignore_set, entry_allowed, keep_entry, WalkItem,
};
use livetree::tree::{
    build_ignore_set, build_ignore_set_no_defaults, build_tree, TreeConfig, TreeEntry,
};
use std::cmp::Ordering;

/// A directory tree held in memory, to be walked as the file system is.
struct Node {
    name: String,
    is_dir: bool,
    children: Vec<Node>,
}

/// Makes the tree of a list of relative paths. A path that ends in `/` is a
/// directory; the directories above any path are made along with it.
fn create_fixture(paths: &[&str]) -> Node {
    let mut root = Node {
        name: String::new(),
        is_dir: true,
        children: Vec::new(),
    };
    for p in paths {
        let is_dir = p.ends_with('/');
        let parts: Vec<&str> = p.split('/').filter(|s| !s.is_empty()).collect();
        let mut at = &mut root;
        for (i, part) in parts.iter().enumerate() {
            let last = i + 1 == parts.len();
            let found = at.children.iter().position(|c| c.name == *part);
            let idx = match found {
                Some(idx) => idx,
                None => {
                    at.children.push(Node {
                        name: part.to_string(),
                        is_dir: !last || is_dir,
                        children: Vec::new(),
                    });
                    at.children.len() - 1
                }
            };
            at = &mut at.children[idx];
        }
    }
    root
}

/// Walks the tree as the program walks the file system: siblings in the
/// library's order, nothing entered that the library's filter leaves out,
/// nothing below the deepest level.
fn walk_into(
    node: &Node,
    depth: usize,
    path: &str,
    rel: &str,
    config: &TreeConfig,
    out: &mut Vec<WalkItem>,
) {
    if !entry_allowed(depth, &node.name, rel, config) {
        return;
    }
    out.push(WalkItem::Found {
        depth,
        name: node.name.clone(),
        path: path.to_string(),
        is_dir: node.is_dir,
        is_symlink: false,
        link_target: None,
    });
    if let Some(deepest) = config.max_depth {
        if depth >= deepest {
            return;
        }
    }
    let mut children: Vec<&Node> = node.children.iter().collect();
    children.sort_by(|a, b| sort_cmp(a.is_dir, &a.name, b.is_dir, &b.name));
    for child in children {
        let child_path = format!("{}/{}", path, child.name);
        let child_rel = if rel.is_empty() {
            child.name.clone()
        } else {
            format!("{}/{}", rel, child.name)
        };
        walk_into(child, depth + 1, &child_path, &child_rel, config, out);
    }
}

fn walk(root: &Node, config: &TreeConfig) -> Vec<WalkItem> {
    let mut out = Vec::new();
    walk_into(root, 0, "/fixture", "", config, &mut out);
    out
}

fn build(root: &Node, config: &TreeConfig) -> Vec<TreeEntry> {
    build_tree(&walk(root, config), config).entries
}

fn default_config() -> TreeConfig {
    TreeConfig {
        max_depth: None,
        show_hidden: false,
        dirs_only: false,
        follow_symlinks: false,
        ignore_patterns: build_ignore_set(&[]),
        max_entries: None,
    }
}

fn found(depth: usize, name: &str, is_dir: bool) -> WalkItem {
    WalkItem::Found {
        depth,
        name: name.to_string(),
        path: format!("/fixture/{}", name),
        is_dir,
        is_symlink: false,
        link_target: None,
    }
}

fn raw(depth: usize, name: &str) -> RawEntry {
    RawEntry {
        depth,
        name: name.to_string(),
        path: format!("/fixture/{}", name),
        is_dir: false,
        is_symlink: false,
        symlink_target: None,
        error: None,
    }
}

fn raws(depths: &[usize]) -> Vec<RawEntry> {
    depths
        .iter()
        .enumerate()
        .map(|(i, d)| raw(*d, &format!("e{}", i)))
        .collect()
}

#[test]
fn test_directories_before_files() {
    let tmp = create_fixture(&["src/", "README.md", "build/", "main.rs"]);
    let entries = build(&tmp, &default_config());

    let top: Vec<&TreeEntry> = entries.iter().filter(|e| e.depth == 1).collect();

    let first_file_idx = top.iter().position(|e| !e.is_dir);
    let last_dir_idx = top.iter().rposition(|e| e.is_dir);

    if let (Some(first_file), Some(last_dir)) = (first_file_idx, last_dir_idx) {
        assert!(
            last_dir < first_file,
            "All directories should sort before files. Got: {:?}",
            top.iter().map(|e| &e.name).collect::<Vec<_>>()
        );
    }
    let names: Vec<&str> = top.iter().map(|e| e.name.as_str()).collect();
    assert_eq!(names, vec!["build", "src", "main.rs", "README.md"]);
}

#[test]
fn test_case_insensitive_alpha_sort() {
    let tmp = create_fixture(&["Banana.txt", "apple.txt", "Cherry.txt"]);
    let entries = build(&tmp, &default_config());
    let names: Vec<&str> = entries
        .iter()
        .filter(|e| e.depth == 1)
        .map(|e| e.name.as_str())
        .collect();
    assert_eq!(names, vec!["apple.txt", "Banana.txt", "Cherry.txt"]);
}

#[test]
fn test_dotfiles_hidden_by_default() {
    let tmp = create_fixture(&[".hidden", "visible.txt"]);
    let entries = build(&tmp, &default_config());
    let names: Vec<&str> = entries
        .iter()
        .filter(|e| e.depth == 1)
        .map(|e| e.name.as_str())
        .collect();
    assert!(!names.contains(&".hidden"));
    assert!(names.contains(&"visible.txt"));
}

#[test]
fn test_dotfiles_shown_with_all_flag() {
    let tmp = create_fixture(&[".hidden", "visible.txt"]);
    let mut cfg = default_config();
    cfg.show_hidden = true;
    cfg.ignore_patterns = build_ignore_set_no_defaults(&[]);
    let entries = build(&tmp, &cfg);
    let names: Vec<&str> = entries
        .iter()
        .filter(|e| e.depth == 1)
        .map(|e| e.name.as_str())
        .collect();
    assert!(names.contains(&".hidden"));
    assert!(names.contains(&"visible.txt"));
    let hidden_idx = names.iter().position(|n| *n == ".hidden").unwrap();
    let visible_idx = names.iter().position(|n| *n == "visible.txt").unwrap();
    assert!(
        hidden_idx > visible_idx,
        "Dotfiles should sort after regular files. Got: {:?}",
        names
    );
}

#[test]
fn test_depth_limit_1() {
    let tmp = create_fixture(&["a/", "a/b/", "a/b/c.txt", "a/d.txt", "e.txt"]);
    let mut cfg = default_config();
    cfg.max_depth = Some(1);
    let entries = build(&tmp, &cfg);
    assert!(
        entries.iter().all(|e| e.depth <= 1),
        "No entry should exceed depth 1"
    );
    assert_eq!(entries.len(), 2);
}

#[test]
fn test_depth_limit_2() {
    let tmp = create_fixture(&["a/", "a/b/", "a/b/deep.txt", "a/top.txt"]);
    let mut cfg = default_config();
    cfg.max_depth = Some(2);
    let entries = build(&tmp, &cfg);
    assert!(entries.iter().all(|e| e.depth <= 2));
    assert!(entries.iter().any(|e| e.depth == 2));
}

#[test]
fn test_default_ignores() {
    let tmp = create_fixture(&[
        ".git/",
        ".git/config",
        "node_modules/",
        "node_modules/pkg/",
        "__pycache__/",
        "src/",
        "src/main.rs",
    ]);
    let mut cfg = default_config();
    cfg.show_hidden = true;
    let entries = build(&tmp, &cfg);
    let names: Vec<&str> = entries.iter().map(|e| e.name.as_str()).collect();
    assert!(!names.contains(&".git"), "Should ignore .git");
    assert!(
        !names.contains(&"node_modules"),
        "Should ignore node_modules"
    );
    assert!(!names.contains(&"__pycache__"), "Should ignore __pycache__");
    assert!(names.contains(&"src"), "Should keep src");
    // What is ignored is not entered either.
    assert!(!names.contains(&"config"));
    assert!(!names.contains(&"pkg"));
    assert_eq!(names, vec!["src", "main.rs"]);
}

#[test]
fn test_custom_ignore_pattern() {
    let tmp = create_fixture(&["debug.log", "app.log", "main.rs", "lib.rs"]);
    let mut cfg = default_config();
    cfg.ignore_patterns = build_ignore_set(&["*.log".to_string()]);
    let entries = build(&tmp, &cfg);
    let names: Vec<&str> = entries
        .iter()
        .filter(|e| e.depth == 1)
        .map(|e| e.name.as_str())
        .collect();
    assert!(!names.contains(&"debug.log"));
    assert!(!names.contains(&"app.log"));
    assert!(names.contains(&"main.rs"));
}

#[test]
fn test_dirs_only() {
    let tmp = create_fixture(&["src/", "src/main.rs", "tests/", "README.md"]);
    let mut cfg = default_config();
    cfg.dirs_only = true;
    let entries = build(&tmp, &cfg);
    assert!(
        entries.iter().filter(|e| e.depth >= 1).all(|e| e.is_dir),
        "All entries should be directories when dirs_only is set"
    );
    let names: Vec<&str> = entries.iter().map(|e| e.name.as_str()).collect();
    assert_eq!(names, vec!["src", "tests"]);
}

#[test]
fn test_prefix_simple_tree() {
    let tmp = create_fixture(&["a/", "a/deep.txt", "b.txt"]);
    let entries = build(&tmp, &default_config());

    let a_entry = entries.iter().find(|e| e.name == "a").unwrap();
    assert!(
        a_entry.prefix.contains('\u{251c}'),
        "Dir 'a' should use \u{251c}\u{2500}\u{2500} (got: {:?})",
        a_entry.prefix
    );

    let b_entry = entries.iter().find(|e| e.name == "b.txt").unwrap();
    assert!(
        b_entry.prefix.contains('\u{2514}'),
        "'b.txt' should use \u{2514}\u{2500}\u{2500} (got: {:?})",
        b_entry.prefix
    );

    let deep = entries.iter().find(|e| e.name == "deep.txt").unwrap();
    assert!(
        deep.prefix.contains('\u{2514}'),
        "Nested last child should use \u{2514}\u{2500}\u{2500}"
    );
    assert_eq!(a_entry.prefix, "├── ");
    assert_eq!(deep.prefix, "│   └── ");
    assert_eq!(b_entry.prefix, "└── ");
}

#[test]
fn test_prefix_deeply_nested() {
    let tmp = create_fixture(&["a/", "a/b/", "a/b/c/", "a/b/c/d.txt"]);
    let entries = build(&tmp, &default_config());
    let d = entries.iter().find(|e| e.name == "d.txt").unwrap();
    assert!(
        d.depth >= 3,
        "d.txt should be deeply nested, got depth={}",
        d.depth
    );
    assert!(
        d.prefix.len() > 8,
        "Deep prefix should be long: {:?}",
        d.prefix
    );
    // Every ancestor is the last of its siblings: blank segments only.
    assert_eq!(d.prefix, "            └── ");
}

#[test]
fn test_is_last_flag() {
    let tmp = create_fixture(&["alpha.txt", "beta.txt", "gamma.txt"]);
    let entries = build(&tmp, &default_config());
    let top: Vec<&TreeEntry> = entries.iter().filter(|e| e.depth == 1).collect();
    assert_eq!(top.len(), 3);
    for (i, entry) in top.iter().enumerate() {
        if i == top.len() - 1 {
            assert!(
                entry.is_last,
                "Last entry '{}' should have is_last=true",
                entry.name
            );
        } else {
            assert!(
                !entry.is_last,
                "Entry '{}' should have is_last=false",
                entry.name
            );
        }
    }
}

#[test]
fn test_empty_directory() {
    let tmp = create_fixture(&[]);
    let entries = build(&tmp, &default_config());
    assert!(
        entries.iter().filter(|e| e.depth >= 1).count() == 0,
        "Empty directory should produce no child entries"
    );
    assert!(entries.is_empty());
}

#[test]
fn test_symlink_detected() {
    let walked = vec![
        found(0, "", true),
        WalkItem::Found {
            depth: 1,
            name: "link.txt".to_string(),
            path: "/fixture/link.txt".to_string(),
            is_dir: false,
            is_symlink: true,
            link_target: Some("/fixture/target.txt".to_string()),
        },
        found(1, "target.txt", false),
    ];
    let entries = build_tree(&walked, &default_config()).entries;
    let link = entries.iter().find(|e| e.name == "link.txt");
    assert!(link.is_some(), "Symlink should appear in tree");
    assert!(
        link.unwrap().is_symlink,
        "Symlink should be flagged as is_symlink"
    );
    assert_eq!(
        link.unwrap().symlink_target,
        Some("/fixture/target.txt".to_string())
    );
    assert_eq!(entries[1].symlink_target, None);
}

#[test]
fn test_nested_empty_directories() {
    let tmp = create_fixture(&["a/b/c/"]);
    let entries = build(&tmp, &default_config());
    let names: Vec<&str> = entries.iter().map(|e| e.name.as_str()).collect();
    assert!(names.contains(&"a"));
    assert!(names.contains(&"b"));
    assert!(names.contains(&"c"));
}

#[test]
fn test_entry_with_special_characters() {
    let tmp = create_fixture(&["café.txt", "日本語.md", "emoji-🎉.txt"]);
    let entries = build(&tmp, &default_config());
    let names: Vec<&str> = entries.iter().map(|e| e.name.as_str()).collect();
    assert!(names.contains(&"café.txt"));
    assert!(names.contains(&"日本語.md"));
    assert!(names.contains(&"emoji-🎉.txt"));
}

#[test]
fn test_permission_denied_subdirectory() {
    // What the walk reports of a directory that it may not read: the
    // directory itself, then the failure to list it, one level down.
    let walked = vec![
        found(0, "", true),
        found(1, "forbidden", true),
        WalkItem::Failed {
            depth: 2,
            path: "/fixture/forbidden".to_string(),
            file_name: Some("forbidden".to_string()),
            message: "Permission denied (os error 13)".to_string(),
        },
        found(1, "zebra.txt", false),
    ];
    let entries = build_tree(&walked, &default_config()).entries;
    let entry = entries.iter().find(|e| e.name == "forbidden");
    assert!(entry.is_some(), "forbidden dir should still appear in tree");
    let secret = entries.iter().find(|e| e.name == "secret.txt");
    assert!(
        secret.is_none(),
        "secret.txt should not be visible inside forbidden dir"
    );
    assert_eq!(entries.len(), 3);
    assert!(entries[1].is_dir);
    assert!(!entries[1].is_symlink);
    assert_eq!(
        entries[1].error,
        Some("Permission denied (os error 13)".to_string())
    );
    assert_eq!(entries[1].prefix, "│   └── ");
    // The walk goes on with the siblings.
    assert_eq!(entries[2].name, "zebra.txt");
    assert_eq!(entries[2].error, None);
}

#[test]
fn scenario_src_and_readme() {
    let tmp = create_fixture(&["src/", "src/main.rs", "README.md"]);
    let snapshot = build_tree(&walk(&tmp, &default_config()), &default_config());
    assert_eq!(snapshot.entries.len(), 3);
    assert_eq!(snapshot.total_entries, 3);
    let names: Vec<&str> = snapshot.entries.iter().map(|e| e.name.as_str()).collect();
    assert_eq!(names, vec!["src", "main.rs", "README.md"]);
    let main_rs = &snapshot.entries[1];
    assert_eq!(main_rs.depth, 2);
    assert_eq!(main_rs.prefix, "\u{2502}   \u{2514}\u{2500}\u{2500} ");
    assert_eq!(main_rs.path, "/fixture/src/main.rs");
    assert_eq!(snapshot.entries[0].prefix, "\u{251c}\u{2500}\u{2500} ");
    assert_eq!(snapshot.entries[2].prefix, "\u{2514}\u{2500}\u{2500} ");
}

#[test]
fn max_entries_keeps_the_first_and_counts_all() {
    let tmp = create_fixture(&["a/", "a/x.txt", "a/y.txt", "b.txt", "c.txt"]);
    let mut cfg = default_config();
    cfg.max_entries = Some(3);
    let snapshot = build_tree(&walk(&tmp, &cfg), &cfg);
    assert_eq!(snapshot.entries.len(), 3);
    assert_eq!(snapshot.total_entries, 5);
    let names: Vec<&str> = snapshot.entries.iter().map(|e| e.name.as_str()).collect();
    assert_eq!(names, vec!["a", "x.txt", "y.txt"]);
    // The layout is that of the whole tree: `a` has siblings after it.
    assert!(!snapshot.entries[0].is_last);
    assert!(snapshot.entries[2].is_last);

    cfg.max_entries = Some(5);
    let snapshot = build_tree(&walk(&tmp, &cfg), &cfg);
    assert_eq!((snapshot.entries.len(), snapshot.total_entries), (5, 5));
    cfg.max_entries = Some(9);
    let snapshot = build_tree(&walk(&tmp, &cfg), &cfg);
    assert_eq!((snapshot.entries.len(), snapshot.total_entries), (5, 5));
    cfg.max_entries = Some(0);
    let snapshot = build_tree(&walk(&tmp, &cfg), &cfg);
    assert_eq!((snapshot.entries.len(), snapshot.total_entries), (0, 5));
}

#[test]
fn build_tree_leaves_out_the_root_and_what_lies_too_deep() {
    let walked = vec![
        found(0, "root", true),
        found(1, "a", true),
        found(2, "b", true),
        found(3, "c.txt", false),
        WalkItem::Failed {
            depth: 3,
            path: "/fixture/a/b/d".to_string(),
            file_name: Some("d".to_string()),
            message: "gone".to_string(),
        },
        WalkItem::Failed {
            depth: 0,
            path: "/fixture".to_string(),
            file_name: Some("fixture".to_string()),
            message: "gone".to_string(),
        },
    ];
    let mut cfg = default_config();
    cfg.max_depth = Some(2);
    let snapshot = build_tree(&walked, &cfg);
    let names: Vec<&str> = snapshot.entries.iter().map(|e| e.name.as_str()).collect();
    assert_eq!(names, vec!["a", "b"]);
    assert_eq!(snapshot.total_entries, 2);
}

#[test]
fn unresolved_link_and_nameless_failure_get_placeholders() {
    let walked = vec![
        WalkItem::Found {
            depth: 1,
            name: "dangling".to_string(),
            path: "/fixture/dangling".to_string(),
            is_dir: false,
            is_symlink: true,
            link_target: None,
        },
        WalkItem::Found {
            depth: 1,
            name: "plain".to_string(),
            path: "/fixture/plain".to_string(),
            is_dir: false,
            is_symlink: false,
            link_target: Some("ignored".to_string()),
        },
        WalkItem::Failed {
            depth: 1,
            path: String::new(),
            file_name: None,
            message: "loop".to_string(),
        },
    ];
    let mut cfg = default_config();
    cfg.dirs_only = true;
    let all = build_tree(&walked, &default_config()).entries;
    assert_eq!(all[0].symlink_target, Some("?".to_string()));
    assert_eq!(all[1].symlink_target, None);
    assert_eq!(all[2].name, "???");
    assert_eq!(all[2].path, "");
    assert_eq!(all[2].error, Some("loop".to_string()));
    // A place that could not be read counts as a directory.
    let dirs = build_tree(&walked, &cfg).entries;
    assert_eq!(dirs.len(), 1);
    assert_eq!(dirs[0].name, "???");
    assert!(dirs[0].is_last);
}

#[test]
fn is_last_sibling_follows_the_forward_scan() {
    // depths:      1  2  2  3  1  2
    let raw = raws(&[1, 2, 2, 3, 1, 2]);
    let flags: Vec<bool> = (0..raw.len()).map(|i| is_last_sibling(&raw, i)).collect();
    assert_eq!(flags, vec![false, false, true, true, true, true]);
}

#[test]
fn every_sibling_group_has_exactly_one_last() {
    let depths = [1, 2, 3, 3, 2, 3, 1, 2, 2, 2, 1, 4, 4, 3, 1];
    let entries = compute_tree_structure(&raws(&depths));
    for i in 0..entries.len() {
        // The siblings of entry i: same depth, nothing shallower between.
        let mut group = vec![i];
        let d = depths[i];
        let mut j = i;
        while j > 0 && depths[j - 1] >= d {
            j -= 1;
            if depths[j] == d {
                group.push(j);
            }
        }
        let mut k = i + 1;
        while k < depths.len() && depths[k] >= d {
            if depths[k] == d {
                group.push(k);
            }
            k += 1;
        }
        let last_count = group.iter().filter(|&&g| entries[g].is_last).count();
        assert_eq!(last_count, 1, "group of entry {}", i);
        let max = *group.iter().max().unwrap();
        assert!(entries[max].is_last);
    }
}

#[test]
fn prefixes_follow_depths_and_flags() {
    let entries = compute_tree_structure(&raws(&[1, 2, 3, 2, 1, 2]));
    let prefixes: Vec<&str> = entries.iter().map(|e| e.prefix.as_str()).collect();
    assert_eq!(
        prefixes,
        vec![
            "├── ",
            "│   ├── ",
            "│   │   └── ",
            "│   └── ",
            "└── ",
            "    └── ",
        ]
    );
}

#[test]
fn prefixes_survive_a_jump_in_depth() {
    // An entry three levels down whose parents were filtered out: the levels
    // that no entry filled count as not last.
    let entries = compute_tree_structure(&raws(&[3, 1, 3]));
    assert_eq!(entries[0].prefix, "│   │   └── ");
    assert_eq!(entries[1].prefix, "└── ");
    assert_eq!(entries[2].prefix, "    │   └── ");
    // Depth 0 has no prefix at all.
    let entries = compute_tree_structure(&raws(&[0, 1]));
    assert_eq!(entries[0].prefix, "");
    assert_eq!(entries[1].prefix, "└── ");
}

#[test]
fn recomputed_prefixes_are_identical() {
    let first = compute_tree_structure(&raws(&[1, 2, 2, 1, 2, 3, 1]));
    let mut again = first.clone();
    for e in again.iter_mut() {
        e.prefix = "stale".to_string();
        e.name = "renamed".to_string();
    }
    compute_prefixes(&mut again);
    for (a, b) in first.iter().zip(again.iter()) {
        assert_eq!(a.prefix.as_bytes(), b.prefix.as_bytes());
        assert_eq!(b.name, "renamed");
    }
    let mut third = first.clone();
    compute_prefixes(&mut third);
    assert_eq!(third, first);
}

#[test]
fn compute_tree_structure_keeps_what_the_walk_found() {
    let raw = vec![RawEntry {
        depth: 1,
        name: "n".to_string(),
        path: "/p/n".to_string(),
        is_dir: true,
        is_symlink: true,
        symlink_target: Some("t".to_string()),
        error: Some("e".to_string()),
    }];
    let entries = compute_tree_structure(&raw);
    assert_eq!(
        entries,
        vec![TreeEntry {
            name: "n".to_string(),
            path: "/p/n".to_string(),
            depth: 1,
            is_dir: true,
            is_symlink: true,
            symlink_target: Some("t".to_string()),
            is_last: true,
            prefix: "└── ".to_string(),
            error: Some("e".to_string()),
        }]
    );
    assert!(compute_tree_structure(&Vec::new()).is_empty());
}

#[test]
fn sort_cmp_puts_directories_first_then_dotless_then_by_name() {
    assert_eq!(sort_cmp(true, "zzz", false, "aaa"), Ordering::Less);
    assert_eq!(sort_cmp(false, "aaa", true, "zzz"), Ordering::Greater);
    // A directory with a dot still comes before a file without.
    assert_eq!(sort_cmp(true, ".git", false, "a"), Ordering::Less);
    assert_eq!(sort_cmp(false, ".a", false, "z"), Ordering::Greater);
    assert_eq!(sort_cmp(true, "z", true, ".a"), Ordering::Less);
    assert_eq!(sort_cmp(false, "apple", false, "Banana"), Ordering::Less);
    assert_eq!(sort_cmp(false, "Banana", false, "apple"), Ordering::Greater);
    assert_eq!(sort_cmp(false, "README", false, "readme"), Ordering::Equal);
    assert_eq!(sort_cmp(false, "ab", false, "abc"), Ordering::Less);
    assert_eq!(sort_cmp(false, "abc", false, "ab"), Ordering::Greater);
    assert_eq!(sort_cmp(false, "", false, ""), Ordering::Equal);
    assert_eq!(sort_cmp(false, "", false, "a"), Ordering::Less);
    assert_eq!(sort_cmp(false, ".B", false, ".a"), Ordering::Greater);
    // Names go to lower case before they are compared: `_` lies between the
    // upper-case and the lower-case letters.
    assert_eq!(sort_cmp(false, "Z", false, "_"), Ordering::Greater);
    assert_eq!(sort_cmp(false, "ÉCOLE", false, "école"), Ordering::Equal);
    assert_eq!(sort_cmp(false, "z", false, "é"), Ordering::Less);
}

#[test]
fn sort_cmp_reverses_when_the_sides_change_places() {
    let items = [
        (true, "src"),
        (true, ".git"),
        (false, "README.md"),
        (false, ".env"),
        (false, "apple"),
        (false, "Apple"),
        (true, "Build"),
    ];
    for a in items.iter() {
        for b in items.iter() {
            assert_eq!(
                sort_cmp(a.0, a.1, b.0, b.1),
                sort_cmp(b.0, b.1, a.0, a.1).reverse()
            );
        }
    }
}

#[test]
fn keep_entry_follows_the_filter_rules() {
    assert!(keep_entry(0, ".hidden", false, true));
    assert!(!keep_entry(1, ".hidden", false, false));
    assert!(keep_entry(1, ".hidden", true, false));
    assert!(!keep_entry(1, ".hidden", true, true));
    assert!(keep_entry(2, "plain", false, false));
    assert!(!keep_entry(2, "plain", false, true));
    assert!(keep_entry(1, "", false, false));
}

#[test]
fn entry_allowed_matches_the_path_below_the_root() {
    let mut cfg = default_config();
    cfg.ignore_patterns = build_ignore_set(&["target/**".to_string(), "*.log".to_string()]);
    assert!(entry_allowed(0, "anything.log", "", &cfg));
    assert!(!entry_allowed(2, "debug", "target/debug", &cfg));
    assert!(entry_allowed(1, "target", "target", &cfg));
    assert!(!entry_allowed(1, "app.log", "app.log", &cfg));
    assert!(!entry_allowed(3, "app.log", "a/b/app.log", &cfg));
    assert!(entry_allowed(1, "main.rs", "main.rs", &cfg));
    assert!(!entry_allowed(1, "node_modules", "node_modules", &cfg));
    assert!(!entry_allowed(1, ".env", ".env", &cfg));
    cfg.show_hidden = true;
    assert!(entry_allowed(1, ".env", ".env", &cfg));
    assert!(!entry_allowed(1, ".git", ".git", &cfg));
    cfg.ignore_patterns = build_ignore_set_no_defaults(&[]);
    assert!(entry_allowed(1, ".git", ".git", &cfg));
    assert!(entry_allowed(1, "node_modules", "node_modules", &cfg));
}

#[test]
fn invalid_patterns_are_skipped_and_reported() {
    let patterns = vec![
        "*.log".to_string(),
        "a[".to_string(),
        "{unclosed".to_string(),
        "ok/**".to_string(),
    ];
    let compiled = compile_ignore_set(&patterns, false);
    assert_eq!(
        compiled.invalid,
        vec!["a[".to_string(), "{unclosed".to_string()]
    );
    assert!(!compiled.build_failed);
    assert_eq!(compiled.set.len(), 2);
    assert!(compiled.set.is_match("x.log"));
    assert!(compiled.set.is_match("ok/file"));
    assert!(!compiled.set.is_match("a["));

    let with_defaults = compile_ignore_set(&patterns, true);
    assert_eq!(with_defaults.set.len(), 6);
    assert_eq!(with_defaults.invalid.len(), 2);
    assert!(with_defaults.set.is_match(".DS_Store"));

    assert_eq!(build_ignore_set(&[]).len(), 4);
    assert_eq!(build_ignore_set_no_defaults(&[]).len(), 0);
    assert_eq!(build_ignore_set(&patterns).len(), 6);
    assert_eq!(build_ignore_set_no_defaults(&patterns).len(), 2);
}

#[test]
fn a_failed_build_gives_the_empty_set() {
    let empty = built_or_empty(None);
    assert!(empty.is_empty());
    assert!(!empty.is_match(".git"));
    assert!(!empty.is_match(""));
    let built = built_or_empty(Some(build_ignore_set(&[])));
    assert_eq!(built.len(), 4);
    assert!(built.is_match(".git"));
    // With the empty set nothing is ignored.
    let cfg = TreeConfig {
        max_depth: None,
        show_hidden: true,
        dirs_only: false,
        follow_symlinks: false,
        ignore_patterns: built_or_empty(None),
        max_entries: None,
    };
    assert!(entry_allowed(1, "node_modules", "node_modules", &cfg));
}

#[test]
fn snapshot_reads_as_a_slice_of_its_entries() {
    let tmp = create_fixture(&["a/", "a/x.txt", "b.txt"]);
    let mut cfg = default_config();
    cfg.max_entries = Some(2);
    let snapshot = build_tree(&walk(&tmp, &cfg), &cfg);
    assert_eq!(snapshot.len(), 2);
    assert_eq!(snapshot.total_entries, 3);
    let names: Vec<&str> = snapshot.iter().map(|e| e.name.as_str()).collect();
    assert_eq!(names, vec!["a", "x.txt"]);
    assert_eq!(snapshot[1], snapshot.entries[1]);
}
