use cockpit_tui::diff::{count_changes, pad_to_width, render_diff, DiffStyle, COL_SEPARATOR};
use cockpit_tui::style::{Color, Line};

fn lines_to_strings(lines: &[Line]) -> Vec<String> {
    lines.iter().map(|l| l.text()).collect()
}

#[test]
fn hidden_returns_one_line() {
    let lines = render_diff(
        "edit",
        "src/foo.rs",
        "a\nb\nc\n",
        "a\nB\nc\n",
        DiffStyle::Hidden,
        120,
    );
    assert_eq!(lines.len(), 1);
    let s = &lines_to_strings(&lines)[0];
    assert!(s.contains("src/foo.rs"), "{s:?}");
    assert!(s.contains("(+1 −1)"), "{s:?}");
}

#[test]
fn inline_renders_with_plus_minus_prefixes() {
    let lines = render_diff(
        "edit",
        "src/foo.rs",
        "alpha\nbeta\ngamma\n",
        "alpha\nBETA\ngamma\n",
        DiffStyle::Inline,
        120,
    );
    let rendered = lines_to_strings(&lines);
    assert!(rendered[0].contains("(+1 −1)"));
    let body = rendered[1..].join("\n");
    assert!(body.contains("- beta"));
    assert!(body.contains("+ BETA"));
    assert!(body.contains("  alpha"));
}

#[test]
fn side_by_side_falls_back_to_inline_when_narrow() {
    let narrow = render_diff(
        "edit",
        "x.rs",
        "a\nb\n",
        "a\nB\n",
        DiffStyle::SideBySide,
        40,
    );
    // Narrow mode should look like the inline render (uses `- ` /
    // `+ ` prefixes rather than the side-by-side `│` separator).
    let rendered = lines_to_strings(&narrow).join("\n");
    assert!(rendered.contains("- b"));
    assert!(rendered.contains("+ B"));
    assert!(!rendered.contains(COL_SEPARATOR));
}

#[test]
fn side_by_side_uses_separator_when_wide() {
    let wide = render_diff(
        "edit",
        "x.rs",
        "alpha\nbeta\n",
        "alpha\nBETA\n",
        DiffStyle::SideBySide,
        120,
    );
    let rendered = lines_to_strings(&wide).join("\n");
    // Header doesn't carry the column separator; body rows do.
    assert!(rendered.contains(COL_SEPARATOR));
}

#[test]
fn pad_to_width_truncates_with_ellipsis() {
    assert_eq!(pad_to_width("abcdef", 4), "abc…");
}

#[test]
fn pad_to_width_pads_short_strings() {
    assert_eq!(pad_to_width("ab", 5), "ab   ");
}

#[test]
fn count_changes_matches_visible_summary() {
    let (added, removed) = count_changes("a\nb\nc\n", "a\nB\nC\n");
    assert_eq!(added, 2);
    assert_eq!(removed, 2);
}

#[test]
fn distant_changes_are_separate_groups() {
    let old: String = (0..40).map(|i| format!("line {i}\n")).collect();
    let new = old.replace("line 2\n", "LINE 2\n").replace("line 37\n", "LINE 37\n");
    let lines = render_diff("edit", "x.rs", &old, &new, DiffStyle::Inline, 120);
    let text = lines_to_strings(&lines).join("\n");
    assert!(text.contains("(+2 −2)"));
    assert!(text.contains("- line 2\n"));
    assert!(text.contains("+ LINE 37\n"));
    assert!(!text.contains("line 20"), "unchanged lines far from a change are left out");
}

#[test]
fn equal_texts_have_no_changes() {
    assert_eq!(count_changes("a\nb\n", "a\nb\n"), (0, 0));
    assert_eq!(count_changes("", "a\nb\n"), (2, 0));
    assert_eq!(count_changes("a\nb\n", ""), (0, 2));
}

#[test]
fn hidden_diffs_are_summed_up() {
    let lines = render_diff("edit", "src/foo.rs", "a\n", "b\nc\n", DiffStyle::Hidden, 120);
    assert_eq!(lines_to_strings(&lines), vec!["  edited src/foo.rs (+2 −1)".to_string()]);
}

#[test]
fn every_changed_line_shows() {
    let line = |i: u32| format!("line {i}\n");
    let old: String = (0..40).map(line).collect();
    let new: String = (0..40)
        .filter(|i| *i != 5)
        .map(|i| if i % 13 == 0 { format!("changed {i}\n") } else { line(i) })
        .collect();
    let (added, removed) = count_changes(&old, &new);
    assert_eq!((added, removed), (4, 5));
    let rows = lines_to_strings(&render_diff("edit", "x", &old, &new, DiffStyle::Inline, 120));
    let starts = |p: &str| rows.iter().filter(|r| r.starts_with(p)).count();
    assert_eq!((starts("  + "), starts("  - ")), (added, removed));
    assert!(rows[0].contains("(+4 −5)"));
    assert!(starts("  …") > 0);
    let wide = render_diff("edit", "x", &old, &new, DiffStyle::SideBySide, 120);
    let colored = |i: usize, c: Color| {
        wide.iter()
            .filter(|l| l.spans.len() == 4 && l.spans[i].style.fg == Some(c))
            .count()
    };
    assert_eq!((colored(3, Color::Green), colored(1, Color::Red)), (added, removed));
}
