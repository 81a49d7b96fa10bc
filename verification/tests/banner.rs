use cockpit_tui::banner_box::{build, build_box};
use cockpit_tui::launch::LaunchInfo;
use cockpit_tui::style::{Line, Span, Style};
use cockpit_tui::width::spans_width;

fn sample(enabled: bool, name: Option<&str>) -> LaunchInfo {
    LaunchInfo {
        version: "9.9.9".to_string(),
        session_id: None,
        session_short_id: None,
        provider_line: "acme / large".to_string(),
        active_model: None,
        active_model_is_favorite: false,
        active_model_max_context: None,
        active_model_supports_images: false,
        cwd_display: "~/project".to_string(),
        repo_status: None,
        agent_name: "Build".to_string(),
        user_name: name.map(str::to_string),
        banner_enabled: enabled,
    }
}

/// Six rows of art, as wide as each other.
fn art() -> Vec<Line> {
    (0..6)
        .map(|i| Line::of(Span::new(&format!("~~{i}==>"), Style::plain())))
        .collect()
}

fn joined(line: &Line) -> String {
    line.text()
}

fn columns(line: &Line) -> u128 {
    spans_width(&line.spans)
}

#[test]
fn disabled_config_suppresses_box() {
    // enabled = false short-circuits regardless of env.
    assert!(build(&sample(false, None), art(), false, 200, 50).is_none());
}

#[test]
fn box_is_rectangular_and_bordered() {
    let lines = build_box(&sample(true, Some("Ada")), art(), 200, 50).expect("fits a roomy pane");
    // 6 content rows + top/bottom border.
    assert_eq!(lines.len(), 8);
    // Every row renders to the same display width (centered box with
    // a shared left pad), so the right rail stays flush.
    let w0 = columns(&lines[0]);
    for l in &lines {
        assert_eq!(columns(l), w0, "ragged box edge");
    }
    let top = joined(&lines[0]);
    let bottom = joined(&lines[7]);
    assert!(top.trim_start().starts_with('╭') && top.trim_end().ends_with('╮'));
    assert!(bottom.trim_start().starts_with('╰') && bottom.trim_end().ends_with('╯'));
}

#[test]
fn name_adds_a_welcome_line() {
    let with = build_box(&sample(true, Some("Ada")), art(), 200, 50).unwrap();
    let joined_all: String = with.iter().map(joined).collect::<Vec<_>>().join("\n");
    assert!(joined_all.contains("Welcome, Ada"));
    let without = build_box(&sample(true, None), art(), 200, 50).unwrap();
    let joined_none: String = without.iter().map(joined).collect::<Vec<_>>().join("\n");
    assert!(!joined_none.contains("Welcome"));
}

#[test]
fn session_id_shows_after_version_when_set() {
    // No short id set → the title line carries the version but no id.
    let none = build_box(&sample(true, None), art(), 200, 50).unwrap();
    let joined_none: String = none.iter().map(joined).collect::<Vec<_>>().join("\n");
    assert!(joined_none.contains("v9.9.9"));

    // Short id set → it appears, right after the version, on the title row.
    let short_id = "k3m7qz";
    let mut info = sample(true, None);
    info.session_short_id = Some(short_id.to_string());
    let with = build_box(&info, art(), 200, 50).unwrap();
    let title_row = with
        .iter()
        .map(joined)
        .find(|l| l.contains("v9.9.9"))
        .expect("title row");
    assert!(
        title_row.contains(short_id),
        "short id missing from title: {title_row:?}"
    );
    // Ordering: version precedes the short id on the same line.
    let vpos = title_row.find("v9.9.9").unwrap();
    let ipos = title_row.find(short_id).unwrap();
    assert!(vpos < ipos, "version should precede the session short id");
}

#[test]
fn too_small_pane_skips_box() {
    // Skip (None) rather than clip, whether too narrow or too short.
    assert!(build_box(&sample(true, None), art(), 10, 50).is_none());
    assert!(build_box(&sample(true, None), art(), 200, 4).is_none());
}

#[test]
fn suppressed_environment_hides_the_box() {
    assert!(build(&sample(true, None), art(), true, 200, 50).is_none());
    assert!(build(&sample(true, None), art(), false, 200, 50).is_some());
}

#[test]
fn wide_characters_keep_the_edge_straight() {
    let lines = build_box(&sample(true, Some("漢字")), art(), 200, 50).unwrap();
    let w0 = columns(&lines[0]);
    for l in &lines {
        assert_eq!(columns(l), w0);
    }
}
