use livetree::terminal::{render_frame, terminal_size, FrameOp};

fn count_clear_sequences(ops: &[FrameOp]) -> usize {
    ops.iter().filter(|op| **op == FrameOp::ClearLine).count()
}

fn has_cursor_home(ops: &[FrameOp]) -> bool {
    ops.first() == Some(&FrameOp::MoveHome)
}

fn written(ops: &[FrameOp]) -> String {
    let mut out = String::new();
    for op in ops {
        match op {
            FrameOp::Text(t) => out.push_str(t),
            FrameOp::NewLine => out.push_str("\r\n"),
            _ => {}
        }
    }
    out
}

#[test]
fn test_render_frame_writes_cursor_home() {
    let lines = vec!["├── file.txt".to_string()];
    let (ops, _) = render_frame(&lines, 0, 1000);
    assert!(
        has_cursor_home(&ops),
        "Output should start with cursor-home escape. Got: {:?}",
        ops
    );
}

#[test]
fn test_render_frame_clears_leftover_lines() {
    let lines = vec!["line1".to_string()];
    let (ops, _) = render_frame(&lines, 5, 1000);
    let clear_count = count_clear_sequences(&ops);
    assert!(
        clear_count >= 5,
        "Should clear at least 5 lines (1 current + 4 leftover). Got {} clears",
        clear_count
    );
    assert_eq!(clear_count, 5);
}

#[test]
fn test_render_frame_returns_line_count() {
    let lines = vec![
        "line1".to_string(),
        "line2".to_string(),
        "line3".to_string(),
    ];
    let (_, count) = render_frame(&lines, 0, 1000);
    assert_eq!(count, 3);
}

#[test]
fn test_render_frame_empty_clears_previous() {
    let (ops, count) = render_frame(&[], 3, 1000);
    assert_eq!(count, 0);
    let clear_count = count_clear_sequences(&ops);
    assert!(
        clear_count >= 3,
        "Should clear 3 leftover lines. Got {} clears",
        clear_count
    );
    assert_eq!(clear_count, 3);
}

#[test]
fn test_render_frame_content_present() {
    let lines = vec![
        "├── src".to_string(),
        "│   └── main.rs".to_string(),
        "└── README.md".to_string(),
    ];
    let (ops, _) = render_frame(&lines, 0, 1000);
    let output = written(&ops);
    assert!(output.contains("src"), "Output should contain 'src'");
    assert!(output.contains("main.rs"), "Output should contain 'main.rs'");
    assert!(
        output.contains("README.md"),
        "Output should contain 'README.md'"
    );
}

#[test]
fn test_terminal_size_returns_nonzero() {
    let (w, h) = terminal_size(None);
    assert!(w > 0, "Width should be > 0 (fallback is 80)");
    assert!(h > 0, "Height should be > 0 (fallback is 24)");
    assert_eq!((w, h), (80, 24));
    assert_eq!(terminal_size(Some((132, 43))), (132, 43));
}

#[test]
fn render_frame_plans_exact_steps() {
    let lines = vec!["a".to_string(), "b".to_string()];
    let (ops, count) = render_frame(&lines, 3, 10);
    assert_eq!(count, 2);
    assert_eq!(
        ops,
        vec![
            FrameOp::MoveHome,
            FrameOp::ClearLine,
            FrameOp::Text("a".to_string()),
            FrameOp::NewLine,
            FrameOp::ClearLine,
            FrameOp::Text("b".to_string()),
            FrameOp::NewLine,
            FrameOp::ClearLine,
            FrameOp::NewLine,
        ]
    );
}

#[test]
fn render_frame_never_leaves_the_last_row() {
    let lines = vec!["a".to_string(), "b".to_string(), "c".to_string()];
    // Three lines on a terminal of two rows: the second row is the last.
    let (ops, count) = render_frame(&lines, 5, 2);
    assert_eq!(count, 2);
    assert_eq!(
        ops,
        vec![
            FrameOp::MoveHome,
            FrameOp::ClearLine,
            FrameOp::Text("a".to_string()),
            FrameOp::NewLine,
            FrameOp::ClearLine,
            FrameOp::Text("b".to_string()),
        ]
    );
    // Two lines, two leftover rows, three rows in all.
    let (ops, count) = render_frame(&lines[..2], 4, 3);
    assert_eq!(count, 2);
    assert_eq!(
        ops.iter().filter(|op| **op == FrameOp::NewLine).count(),
        2
    );
    assert_eq!(ops.last(), Some(&FrameOp::ClearLine));
}

#[test]
fn render_frame_without_rows_only_homes() {
    let lines = vec!["a".to_string()];
    let (ops, count) = render_frame(&lines, 4, 0);
    assert_eq!(count, 0);
    assert_eq!(ops, vec![FrameOp::MoveHome]);
}
