use specwriter::app::{App, AppState};
use specwriter::cli::parse_args;
use specwriter::edit::TextBuffer;
use specwriter::layout::{center_scroll, dialog_area, input_placeholder, settings_rows, tab_titles};
use specwriter::screen::{
    has_bold_text_on_row, row_snapshot, row_text, screen_contains, screen_text,
    status_line_color_name, CellColor, ScreenCell,
};
use specwriter::settings::{Settings, SettingsDefaults, SettingsRead};
use specwriter::text::{find_chars, trim_end_chars};

fn test_defaults() -> specwriter::settings::SettingsDefaults {
    specwriter::settings::SettingsDefaults { command: "tool".to_string(), spec_filename: "NOTES.md".to_string() }
}

fn new_app() -> App {
    let d = test_defaults();
    App::new(specwriter::settings::Settings::with_defaults(&d), d)
}

fn app_with_spec(content: Option<String>) -> App {
    let d = test_defaults();
    App::with_spec(content, specwriter::settings::Settings::with_defaults(&d), d)
}


fn cell(s: &str) -> ScreenCell {
    ScreenCell { symbol: s.to_string(), bold: false, color: CellColor::Other }
}

fn row(s: &str) -> Vec<ScreenCell> {
    s.chars().map(|c| cell(&c.to_string())).collect()
}

fn chars(s: &str) -> Vec<char> {
    s.chars().collect()
}

fn args(v: &[&str]) -> Vec<String> {
    v.iter().map(|a| a.to_string()).collect()
}

fn defaults() -> SettingsDefaults {
    SettingsDefaults { command: "tool".to_string(), spec_filename: "NOTES.md".to_string() }
}

#[test]
fn screen_text_trims_rows_and_drops_trailing_blank_rows() {
    let rows = vec![row(" Idle.   "), row(""), row("ab  c  "), row("     "), row("")];
    assert_eq!(screen_text(&rows), " Idle.\n\nab  c");
    assert_eq!(screen_text(&vec![row("   "), row("")]), "");
    assert_eq!(screen_text(&vec![]), "");
    assert!(screen_contains(&rows, "ab  c"));
    assert!(screen_contains(&rows, "Idle.\n\nab"));
    assert!(!screen_contains(&rows, "Idle. "));
    assert_eq!(row_text(&row("x y")).iter().collect::<String>(), "x y");
}

#[test]
fn snapshot_keeps_leading_space() {
    assert_eq!(row_snapshot(&row(" Integrating..   ")), " Integrating..");
    assert_eq!(row_snapshot(&vec![]), "");
}

#[test]
fn status_color_is_first_accented_visible_cell() {
    let mut r = row(" ab");
    assert_eq!(status_line_color_name(&r), "none");
    r[0].color = CellColor::Red;
    assert_eq!(status_line_color_name(&r), "none");
    r[2].color = CellColor::LightGreen;
    assert_eq!(status_line_color_name(&r), "green");
    r[1].color = CellColor::LightYellow;
    assert_eq!(status_line_color_name(&r), "yellow");
    r[1].color = CellColor::Red;
    assert_eq!(status_line_color_name(&r), "red");
}

#[test]
fn bold_text_is_judged_by_its_first_visible_cell() {
    let mut r = row("ab [5] x");
    assert!(!has_bold_text_on_row(&vec![r.clone()], 0, "[5]"));
    r[3].bold = true;
    assert!(has_bold_text_on_row(&vec![r.clone()], 0, "[5]"));
    assert!(has_bold_text_on_row(&vec![r.clone()], 0, " [5]"));
    assert!(!has_bold_text_on_row(&vec![r.clone()], 1, "[5]"));
    assert!(!has_bold_text_on_row(&vec![r.clone()], 0, "zz"));
    assert!(!has_bold_text_on_row(&vec![r.clone()], 0, "  "));
    let mut wide = row("é[");
    wide[1].bold = true;
    assert!(has_bold_text_on_row(&vec![wide.clone()], 0, "["));
    wide.push(cell("x"));
    assert!(!has_bold_text_on_row(&vec![wide.clone()], 0, "x"));
    wide[2].bold = true;
    assert!(has_bold_text_on_row(&vec![wide], 0, "x"));
    let mut gaps = vec![cell("a"), cell(""), cell("b"), cell("c")];
    gaps[2].bold = true;
    assert!(has_bold_text_on_row(&vec![gaps.clone()], 0, "b"));
    assert!(!has_bold_text_on_row(&vec![gaps.clone()], 0, "a"));
    assert!(!has_bold_text_on_row(&vec![gaps.clone()], 0, "c"));
    assert!(has_bold_text_on_row(&vec![gaps], 0, "bc"));
    let mut multi = vec![cell("ab"), cell("c")];
    multi[1].bold = true;
    assert!(has_bold_text_on_row(&vec![multi.clone()], 0, "c"));
    assert!(!has_bold_text_on_row(&vec![multi], 0, "bc"));
}

#[test]
fn find_and_trim_end() {
    assert_eq!(find_chars(&chars("abcabc"), &chars("ca")), Some(2));
    assert_eq!(find_chars(&chars("abc"), &chars("")), Some(0));
    assert_eq!(find_chars(&chars("abc"), &chars("abcd")), None);
    assert_eq!(find_chars(&chars("abc"), &chars("bd")), None);
    assert_eq!(trim_end_chars(&chars(" a b \t\n")), chars(" a b"));
    assert_eq!(trim_end_chars(&chars("   ")), chars(""));
}

#[test]
fn command_line_options() {
    let o = parse_args(&args(&["prog"])).unwrap();
    assert!(o.specs_dir.is_none() && o.command.is_none() && o.spec_file.is_none());
    let o = parse_args(&args(&["prog", "--specs-dir", "d1", "x", "--command", "tool", "--specs-dir", "d2"])).unwrap();
    assert_eq!(o.specs_dir.as_deref(), Some("d2"));
    assert_eq!(o.command.as_deref(), Some("tool"));
    assert!(o.spec_file.is_none());
    let o = parse_args(&args(&["prog", "--spec-file", "--specs-dir"])).unwrap();
    assert_eq!(o.spec_file.as_deref(), Some("--specs-dir"));
    assert_eq!(
        parse_args(&args(&["prog", "a", "--specs-dir"])).unwrap_err(),
        "Error: --specs-dir requires a value"
    );
    assert_eq!(parse_args(&args(&["prog", "--command"])).unwrap_err(), "Error: --command requires a value");
    let o = parse_args(&args(&["--specs-dir"])).unwrap();
    assert!(o.specs_dir.is_none());
}

#[test]
fn settings_from_file_fields_and_read_outcomes() {
    let d = defaults();
    let s = Settings::from_fields(None, None, Some("S.md".to_string()), Some(true), None, &d);
    assert_eq!(s.claude_command, "tool");
    assert_eq!(s.model, None);
    assert_eq!(s.spec_filename, "S.md");
    assert!(s.web_search && !s.web_fetch);
    let (s, e) = Settings::from_read(SettingsRead::Missing, &d);
    assert_eq!(s.claude_command, "tool");
    assert!(e.is_none());
    let (s, e) = Settings::from_read(SettingsRead::Unreadable("denied".to_string()), &d);
    assert_eq!(s.spec_filename, "NOTES.md");
    assert_eq!(e.unwrap(), "Error reading settings: denied");
    let (_, e) = Settings::from_read(SettingsRead::Malformed("bad json".to_string()), &d);
    assert_eq!(e.unwrap(), "Error loading settings: bad json");
    let loaded = Settings::from_fields(Some("x".to_string()), Some("m".to_string()), None, None, None, &d);
    let (s, e) = Settings::from_read(SettingsRead::Loaded(loaded), &d);
    assert_eq!(s.claude_command, "x");
    assert_eq!(s.model.as_deref(), Some("m"));
    assert!(e.is_none());
}

#[test]
fn start_up_with_a_spec() {
    let content = "# T\n## Questions\n### Q1 (p2): Low\n### Q2 (p4): High\n".to_string();
    let app = app_with_spec(Some(content.clone()));
    assert_eq!(app.questions.len(), 2);
    assert_eq!(app.questions[0].id, 2);
    assert_eq!(app.spec_content.as_deref(), Some(content.as_str()));
    assert_eq!(app.status, "Idle.");
    let app = app_with_spec(None);
    assert!(app.questions.is_empty() && app.spec_content.is_none());
    let app = app_with_spec(Some(String::new()));
    assert!(app.questions.is_empty());
    assert_eq!(app.spec_content.as_deref(), Some(""));
}

#[test]
fn tab_titles_and_placeholder() {
    let mut app = app_with_spec(Some("a\nb\n### Q1: x\n".to_string()));
    assert_eq!(
        tab_titles(&app, "NOTES.md"),
        vec![
            " Writer ".to_string(),
            " Open Questions (0) ".to_string(),
            " NOTES.md (3) ".to_string(),
            " Settings ".to_string(),
        ]
    );
    app.spec_content = None;
    assert_eq!(tab_titles(&app, "N")[2], " N (0) ");
    assert_eq!(input_placeholder(&app), "Type your requirements here. Ctrl+S to submit.");
    app.state = AppState::Integrating;
    assert_eq!(input_placeholder(&app), "Type your requirements here. Ctrl+S to add to queue.");
}

#[test]
fn dialogs_are_centred_inside_the_area() {
    assert_eq!(dialog_area(0, 0, 80, 24, 60, 5), (10, 9, 60, 5));
    assert_eq!(dialog_area(0, 0, 50, 10, 60, 5), (5, 3, 40, 4));
    assert_eq!(dialog_area(2, 1, 8, 4, 70, 10), (6, 3, 0, 0));
    assert_eq!(dialog_area(0, 0, 100, 40, 70, 10), (15, 15, 70, 10));
}

#[test]
fn focused_row_stays_on_screen() {
    for total in 1..30usize {
        for visible in 1..12usize {
            for focus in 0..total {
                let scroll = center_scroll(focus, visible, total);
                assert!(scroll <= focus && focus < scroll + visible);
            }
        }
    }
    assert_eq!(center_scroll(10, 4, 30), 8);
}

#[test]
fn settings_rows_show_labels_values_and_editor() {
    let d = test_defaults();
    let mut s = Settings::with_defaults(&d);
    let rows = settings_rows(&s, 0, None);
    assert_eq!(rows.len(), 5);
    assert_eq!(rows[0].label, "Command           ");
    assert_eq!(rows[0].value, "tool");
    assert!(rows[0].focused && !rows[0].dimmed);
    assert_eq!(rows[1].value, "(not set)");
    assert!(rows[1].dimmed && !rows[1].focused);
    assert_eq!(rows[3].value, "off");
    let rows = settings_rows(&s, 1, None);
    assert!(!rows[1].dimmed);
    s.model = Some("m".to_string());
    let empty = TextBuffer::new();
    let rows = settings_rows(&s, 2, Some(&empty));
    assert_eq!(rows[2].value, " ");
    assert_eq!(rows[1].value, "m");
    assert_eq!(rows[2].label, "Spec Filename     ");
    let full = TextBuffer::from_text("new.md".chars().collect()).unwrap();
    assert_eq!(full.cursor_index, 6);
    assert_eq!(settings_rows(&s, 2, Some(&full))[2].value, "new.md");
}
