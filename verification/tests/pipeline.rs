use livetree::render::{line_to_plain_text, tree_to_lines, RenderConfig};
use livetree::terminal::{render_frame, FrameOp};
use livetree::tree::order::sort_cmp;
use livetree::tree::walk::{entry_allowed, WalkItem};
use livetree::tree::{build_ignore_set, build_tree, TreeConfig, TreeEntry};

/// A directory tree held in memory, to be walked as the file system is.
struct Dir {
    name: String,
    is_dir: bool,
    children: Vec<Dir>,
}

fn fixture(paths: &[&str]) -> Dir {
    let mut root = Dir {
        name: String::new(),
        is_dir: true,
        children: Vec::new(),
    };
    for p in paths {
        let is_dir = p.ends_with('/');
        let parts: Vec<&str> = p.split('/').filter(|s| !s.is_empty()).collect();
        let mut at = &mut root;
        for (i, part) in parts.iter().enumerate() {
            let last = i + 1 == parts.len();
            let idx = match at.children.iter().position(|c| c.name == *part) {
                Some(idx) => idx,
                None => {
                    at.children.push(Dir {
                        name: part.to_string(),
                        is_dir: !last || is_dir,
                        children: Vec::new(),
                    });
                    at.children.len() - 1
                }
            };
            at = &mut at.children[idx];
        }
    }
    root
}

fn visit(dir: &Dir, depth: usize, path: &str, rel: &str, cfg: &TreeConfig, out: &mut Vec<WalkItem>) {
    if !entry_allowed(depth, &dir.name, rel, cfg) {
        return;
    }
    out.push(WalkItem::Found {
        depth,
        name: dir.name.clone(),
        path: path.to_string(),
        is_dir: dir.is_dir,
        is_symlink: false,
        link_target: None,
    });
    let mut children: Vec<&Dir> = dir.children.iter().collect();
    children.sort_by(|a, b| sort_cmp(a.is_dir, &a.name, b.is_dir, &b.name));
    for child in children {
        let child_rel = if rel.is_empty() {
            child.name.clone()
        } else {
            format!("{}/{}", rel, child.name)
        };
        visit(child, depth + 1, &format!("{}/{}", path, child.name), &child_rel, cfg, out);
    }
}

fn build(root: &Dir, cfg: &TreeConfig) -> Vec<TreeEntry> {
    let mut walked = Vec::new();
    visit(root, 0, "/fixture", "", cfg, &mut walked);
    build_tree(&walked, cfg).entries
}

fn default_config() -> TreeConfig {
    TreeConfig {
        max_depth: None,
        show_hidden: false,
        dirs_only: false,
        follow_symlinks: false,
        ignore_patterns: build_ignore_set(&[]),
        max_entries: None,
    }
}

fn no_color(width: u16) -> RenderConfig {
    RenderConfig {
        use_color: false,
        terminal_width: width,
    }
}

#[test]
fn test_rebuild_detects_new_file() {
    let cfg = default_config();
    let entries1 = build(&fixture(&["a.txt"]), &cfg);
    assert_eq!(entries1.iter().filter(|e| e.depth == 1).count(), 1);

    // The file system changed: the next build walks it again.
    let entries2 = build(&fixture(&["a.txt", "b.txt"]), &cfg);
    assert_eq!(
        entries2.iter().filter(|e| e.depth == 1).count(),
        2,
        "Rebuild after change should show new file"
    );
}

#[test]
fn test_full_pipeline_build_render_frame() {
    let cfg = default_config();
    let entries = build(&fixture(&["src/", "src/main.rs", "README.md"]), &cfg);
    let rendered = tree_to_lines(&entries, &no_color(80), &Vec::new());
    let lines: Vec<String> = rendered.iter().map(line_to_plain_text).collect();

    let (ops, count) = render_frame(&lines, 0, 1000);
    assert_eq!(count, lines.len());
    assert!(
        count >= 3,
        "Should have at least 3 lines (src, main.rs, README.md)"
    );
    let texts: Vec<&str> = ops
        .iter()
        .filter_map(|op| match op {
            FrameOp::Text(t) => Some(t.as_str()),
            _ => None,
        })
        .collect();
    assert_eq!(
        texts,
        vec!["├── src", "│   └── main.rs", "└── README.md"]
    );
    assert!(texts.iter().any(|t| t.contains("main.rs")));
}

#[test]
fn test_empty_root_directory() {
    let entries = build(&fixture(&[]), &default_config());
    let lines = tree_to_lines(&entries, &no_color(80), &Vec::new());
    assert!(lines.len() <= 1, "Empty dir should produce at most 1 line");
    assert!(lines.is_empty());
}

#[test]
fn test_symlink_to_file_shows_arrow() {
    let walked = vec![
        WalkItem::Found {
            depth: 1,
            name: "link.txt".to_string(),
            path: "/fixture/link.txt".to_string(),
            is_dir: false,
            is_symlink: true,
            link_target: Some("/fixture/real.txt".to_string()),
        },
        WalkItem::Found {
            depth: 1,
            name: "real.txt".to_string(),
            path: "/fixture/real.txt".to_string(),
            is_dir: false,
            is_symlink: false,
            link_target: None,
        },
    ];
    let entries = build_tree(&walked, &default_config()).entries;
    let link = entries.iter().find(|e| e.name == "link.txt").unwrap();
    assert!(link.is_symlink);

    let lines = tree_to_lines(&vec![link.clone()], &no_color(120), &Vec::new());
    let text = line_to_plain_text(&lines[0]);
    assert!(
        text.contains("->"),
        "Symlink should show target: {:?}",
        text
    );
    assert_eq!(text, "├── link.txt -> /fixture/real.txt");
}

#[test]
fn test_symlink_loop_handled() {
    // What the walk reports where a link leads back to a directory above
    // it: the link is a failure, and the walk goes no further there.
    let walked = vec![
        WalkItem::Found {
            depth: 0,
            name: "fixture".to_string(),
            path: "/fixture".to_string(),
            is_dir: true,
            is_symlink: false,
            link_target: None,
        },
        WalkItem::Found {
            depth: 1,
            name: "a".to_string(),
            path: "/fixture/a".to_string(),
            is_dir: true,
            is_symlink: false,
            link_target: None,
        },
        WalkItem::Found {
            depth: 2,
            name: "b".to_string(),
            path: "/fixture/a/b".to_string(),
            is_dir: true,
            is_symlink: false,
            link_target: None,
        },
        WalkItem::Failed {
            depth: 3,
            path: "/fixture/a/b/loop".to_string(),
            file_name: Some("loop".to_string()),
            message: "File system loop found: /fixture/a/b/loop points to an ancestor /fixture/a"
                .to_string(),
        },
    ];
    let mut cfg = default_config();
    cfg.follow_symlinks = true;
    let entries = build_tree(&walked, &cfg).entries;
    assert!(
        !entries.is_empty(),
        "Should produce output despite symlink loop"
    );
    assert!(
        entries.len() < 100,
        "Symlink loop should not cause infinite traversal. Got {} entries",
        entries.len()
    );
    assert_eq!(entries.len(), 3);
    assert_eq!(entries[2].name, "loop");
    assert!(entries[2].error.is_some());
}

#[test]
fn test_large_directory_performance() {
    let names: Vec<String> = (0..500).map(|i| format!("file_{:04}.txt", i)).collect();
    let paths: Vec<&str> = names.iter().map(|s| s.as_str()).collect();
    let root = fixture(&paths);

    let start = std::time::Instant::now();
    let entries = build(&root, &default_config());
    let build_time = start.elapsed();

    assert_eq!(entries.len(), 500);
    assert!(
        build_time < std::time::Duration::from_millis(500),
        "Building 500-entry tree should be fast. Took {:?}",
        build_time
    );

    let start = std::time::Instant::now();
    let lines = tree_to_lines(&entries, &no_color(80), &Vec::new());
    let render_time = start.elapsed();

    assert_eq!(lines.len(), 500);
    assert!(
        render_time < std::time::Duration::from_millis(100),
        "Rendering 500 entries should be fast. Took {:?}",
        render_time
    );
}

#[test]
fn test_terminal_height_1_renders_without_panic() {
    let entries = build(&fixture(&["a/", "a/file.txt", "b.txt"]), &default_config());
    assert!(entries.len() >= 2, "Should have multiple entries");

    let lines = tree_to_lines(&entries, &no_color(80), &Vec::new());
    assert_eq!(lines.len(), entries.len());
    for line in &lines {
        let text = line_to_plain_text(line);
        assert!(!text.is_empty(), "Each line should have content");
    }
    let texts: Vec<String> = lines.iter().map(line_to_plain_text).collect();
    // On a terminal of one row only the first line is written.
    let (ops, count) = render_frame(&texts, 0, 1);
    assert_eq!(count, 1);
    assert_eq!(
        ops,
        vec![
            FrameOp::MoveHome,
            FrameOp::ClearLine,
            FrameOp::Text("├── a".to_string())
        ]
    );
}
