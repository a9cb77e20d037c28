use ghpr::github::types::{ReviewThread, ThreadComment, ThreadSort};
use ghpr::ui::pr_detail::{
    conversation_tab, first_line, location, state_tag, thread_body_lines, threads_tab, visual_row,
};
use ghpr::ui::pr_list::{list_label, review_badge};
use ghpr::ui::{age_at, markdown_body, relative_age_at, sanitize, BodyLine, Tone};

#[test]
fn visual_row_counts_wrapped_lines() {
    // Widths of "1234567890", "", "123456789012345", "target".
    let widths = [10usize, 0, 15, 6];
    assert_eq!(visual_row(&widths, 0, 10), 0);
    assert_eq!(visual_row(&widths, 1, 10), 1);
    assert_eq!(visual_row(&widths, 2, 10), 2);
    assert_eq!(visual_row(&widths, 3, 10), 4);
}

#[test]
fn visual_row_caps_at_u16_max() {
    let widths = [usize::MAX, 5];
    assert_eq!(visual_row(&widths, 2, 1), u16::MAX);
    assert_eq!(visual_row(&widths, 99, 3), u16::MAX);
}

#[test]
fn sanitize_expands_tabs_and_drops_controls() {
    assert_eq!(sanitize("a\tb"), "a    b");
    assert_eq!(sanitize("x\u{1b}[31my\r\u{7f}\u{85}"), "x[31my");
    assert_eq!(sanitize("ünï ✓"), "ünï ✓");
    let once = sanitize("\t\tz\u{0}");
    assert_eq!(sanitize(&once), once);
}

#[test]
fn first_line_previews() {
    assert_eq!(first_line(""), "");
    assert_eq!(first_line("single"), "single");
    assert_eq!(first_line("one\ntwo"), "one…");
    assert_eq!(first_line("one\r\ntwo"), "one…");
    assert_eq!(first_line("only\n"), "only");
    let long = "x".repeat(85);
    assert_eq!(first_line(&long), format!("{}…", "x".repeat(80)));
    assert_eq!(first_line(&"y".repeat(80)), "y".repeat(80));
    assert_eq!(first_line("a\tb"), "a    b");
}

#[test]
fn ages() {
    let s = 1_000_000_000i128;
    assert_eq!(relative_age_at(100 * s, 100 * s), "now");
    assert_eq!(relative_age_at(100 * s, 200 * s), "now");
    assert_eq!(relative_age_at(59 * s, 0), "now");
    assert_eq!(relative_age_at(60 * s, 0), "1m");
    assert_eq!(relative_age_at(7200 * s, 0), "2h");
    assert_eq!(relative_age_at(3 * 86400 * s, 0), "3d");
    assert_eq!(relative_age_at(65 * 86400 * s, 0), "2mo");
    assert_eq!(relative_age_at(800 * 86400 * s, 0), "2y");
    // Fractions of a second are cut off toward zero.
    assert_eq!(relative_age_at(60 * s, s / 2), "1m");
}

#[test]
fn labels() {
    assert_eq!(location(&"src/a.rs".to_string(), Some(12)), "src/a.rs:12");
    assert_eq!(location(&"src/a.rs".to_string(), None), "src/a.rs");
    assert_eq!(state_tag("OPEN", false), ("[OPEN]".to_string(), Tone::Green));
    assert_eq!(state_tag("MERGED", false), ("[MERGED]".to_string(), Tone::Magenta));
    assert_eq!(state_tag("CLOSED", false), ("[CLOSED]".to_string(), Tone::Red));
    assert_eq!(state_tag("WEIRD", false), ("[WEIRD]".to_string(), Tone::Plain));
    assert_eq!(state_tag("OPEN", true), ("[DRAFT]".to_string(), Tone::Dim));
    assert_eq!(conversation_tab(7), " [1] Conversation (7) ");
    assert_eq!(threads_tab(3, 16, ThreadSort::Position), " [2] Threads (3 open / 16 · by file) ");
    assert_eq!(threads_tab(0, 2, ThreadSort::Activity), " [2] Threads (0 open / 2 · by recent) ");
}

#[test]
fn list_labels_pad_to_forty() {
    let l = list_label(&"o/r".to_string(), 12);
    assert_eq!(l.chars().count(), 40);
    assert!(l.starts_with("o/r#12 "));
    let long = "x".repeat(45);
    assert_eq!(list_label(&long, 1), format!("{long}#1"));
    assert_eq!(review_badge(&Some("APPROVED".to_string())), Some(("✓ approved ".to_string(), Tone::Green)));
    assert_eq!(review_badge(&Some("CHANGES_REQUESTED".to_string())), Some(("± changes ".to_string(), Tone::Red)));
    assert_eq!(review_badge(&Some("REVIEW_REQUIRED".to_string())), Some(("• review ".to_string(), Tone::Yellow)));
    assert_eq!(review_badge(&Some("OTHER".to_string())), None);
    assert_eq!(review_badge(&None), None);
}

fn thread(n: usize) -> ReviewThread {
    ReviewThread {
        id: "t".to_string(),
        is_resolved: false,
        is_outdated: false,
        path: "src/lib.rs".to_string(),
        line: Some(1),
        reply_to_db_id: None,
        diff_hunk: String::new(),
        comments: (0..n)
            .map(|i| ThreadComment {
                author: format!("user{i}"),
                body: format!("comment {i}"),
                created_at: 0,
            })
            .collect(),
        hidden_count: 0,
        last_activity: 0,
    }
}

/// The text of each rendered line, a comment body ("comment i") taking
/// one line.
fn rendered(t: &ReviewThread, lines: &[BodyLine]) -> Vec<String> {
    let mut out = Vec::new();
    for l in lines {
        match l {
            BodyLine::Spans { spans, .. } => {
                out.push(spans.iter().map(|s| s.text.as_str()).collect::<String>())
            }
            BodyLine::Markdown(i) => out.push(t.comments[*i].body.clone()),
        }
    }
    out
}

#[test]
fn thread_body_marks_selected_comment() {
    let t = thread(3);
    let (lines, idx) = thread_body_lines(&t, 1, Some(0), &[1, 1, 1]);
    let line = &rendered(&t, &lines)[idx];
    assert!(line.starts_with("▶ user1"), "got: {line}");
}

#[test]
fn thread_body_clamps_out_of_range_selection() {
    let t = thread(2);
    let (lines, idx) = thread_body_lines(&t, 99, Some(0), &[1, 1]);
    let line = &rendered(&t, &lines)[idx];
    assert!(line.starts_with("▶ user1"), "got: {line}");
}

#[test]
fn thread_body_empty_thread_returns_zero_offset() {
    let t = thread(0);
    let (_, idx) = thread_body_lines(&t, 0, Some(0), &[]);
    assert_eq!(idx, 0);
}

#[test]
fn thread_body_lays_out_hunk_and_hidden_note() {
    let mut t = thread(2);
    t.diff_hunk = "@@ -1 +1 @@\n-a\n+b".to_string();
    t.hidden_count = 4;
    t.is_resolved = true;
    // The first comment's body renders to three lines.
    let (lines, idx) = thread_body_lines(&t, 0, Some(0), &[3, 1]);
    let texts: Vec<String> = lines
        .iter()
        .map(|l| match l {
            BodyLine::Spans { spans, .. } => spans.iter().map(|s| s.text.as_str()).collect(),
            BodyLine::Markdown(i) => format!("<md {i}>"),
        })
        .collect();
    assert_eq!(
        texts,
        vec![
            "src/lib.rs:1 · resolved ✓",
            "@@ -1 +1 @@",
            "-a",
            "+b",
            "(+4 earlier comments not loaded)",
            "",
            "▶ user0 · now",
            "<md 0>",
            "",
            "user1 · now",
            "<md 1>",
        ]
    );
    assert_eq!(idx, 6);
    let (_, idx) = thread_body_lines(&t, 1, Some(0), &[3, 1]);
    // Five prefix lines, the first comment's blank, header and three body
    // lines, then the second comment's blank.
    assert_eq!(idx, 5 + 5 + 1);
}

#[test]
fn unknown_clock_shows_a_question_mark() {
    let s = 1_000_000_000i128;
    assert_eq!(age_at(None, 0), "?");
    assert_eq!(age_at(Some(7200 * s), 0), "2h");
}

#[test]
fn markdown_bodies_render_and_sanitize() {
    let lines = markdown_body("**bold** and\ttab\u{7}");
    assert!(!lines.is_empty());
    let first: String = lines[0].spans.iter().map(|s| s.text.as_str()).collect();
    assert_eq!(first, "bold and    tab");
    // The bold piece carries ratatui's BOLD modifier bit.
    assert_eq!(lines[0].spans[0].text, "bold");
    assert_eq!(lines[0].spans[0].style.add_modifier & 1, 1);
    for l in &lines {
        for s in &l.spans {
            assert!(!s.text.chars().any(|c| c.is_control()));
        }
    }
}
