use specwriter::app::{App, AppState, KeyCode, KeyEvent, CONTROL, NO_MODIFIERS, SHIFT};
use specwriter::layout::{
    center_scroll, display_priority, help_text, priority_style_for, question_detail, status_line,
    wrapped_cursor_pos, wrapped_line_count, PriorityStyle, StatusColor,
};
use specwriter::question::parse_question_heading;
use specwriter::settings::{default_config_dir, Settings, SettingsDefaults};

fn test_defaults() -> specwriter::settings::SettingsDefaults {
    specwriter::settings::SettingsDefaults { command: "tool".to_string(), spec_filename: "NOTES.md".to_string() }
}

fn new_app() -> App {
    let d = test_defaults();
    App::new(specwriter::settings::Settings::with_defaults(&d), d)
}

fn app_with_spec(content: Option<String>) -> App {
    let d = test_defaults();
    App::with_spec(content, specwriter::settings::Settings::with_defaults(&d), d)
}


fn defaults() -> SettingsDefaults {
    SettingsDefaults { command: "tool".to_string(), spec_filename: "NOTES.md".to_string() }
}

fn chars(s: &str) -> Vec<char> {
    s.chars().collect()
}

#[test]
fn settings_labels_and_values() {
    let s = Settings::with_defaults(&defaults());
    assert_eq!(Settings::COUNT, 5);
    assert_eq!(Settings::label(1), "Model");
    assert_eq!(Settings::label(2), "Spec Filename");
    assert_eq!(Settings::label(3), "WebSearch");
    assert_eq!(Settings::label(4), "WebFetch");
    assert_eq!(Settings::label(9), "");
    assert_eq!(s.display_value(0), "tool");
    assert_eq!(s.display_value(1), "(not set)");
    assert_eq!(s.display_value(2), "NOTES.md");
    assert_eq!(s.display_value(3), "off");
    assert_eq!(s.display_value(7), "");
    assert_eq!(s.edit_value(1), "");
    assert!(Settings::is_boolean(3) && Settings::is_boolean(4));
    assert!(!Settings::is_boolean(0) && !Settings::is_boolean(5));
}

#[test]
fn settings_editing() {
    let d = defaults();
    let mut s = Settings::with_defaults(&d);
    s.set_value(1, "big".to_string(), &d);
    assert_eq!(s.model.as_deref(), Some("big"));
    assert_eq!(s.display_value(1), "big");
    s.set_value(1, String::new(), &d);
    assert!(s.model.is_none());
    s.set_value(0, "other".to_string(), &d);
    assert_eq!(s.edit_value(0), "other");
    s.set_value(0, String::new(), &d);
    assert_eq!(s.claude_command, "tool");
    s.set_value(2, String::new(), &d);
    assert_eq!(s.spec_filename, "NOTES.md");
    s.set_value(3, "ignored".to_string(), &d);
    assert!(!s.web_search);
    s.toggle(3);
    assert_eq!(s.display_value(3), "on");
    s.toggle(4);
    s.toggle(4);
    assert!(!s.web_fetch);
    s.toggle(0);
    assert_eq!(s.claude_command, "tool");
}

#[test]
fn config_dir_choice() {
    assert_eq!(default_config_dir(Some("/x".to_string()), Some("/h".to_string())), "/x/specwriter");
    assert_eq!(default_config_dir(None, Some("/h".to_string())), "/h/.config/specwriter");
    assert_eq!(default_config_dir(None, None), ".config/specwriter");
}

#[test]
fn center_scroll_values() {
    assert_eq!(center_scroll(3, 10, 5), 0);
    assert_eq!(center_scroll(0, 4, 20), 0);
    assert_eq!(center_scroll(10, 4, 20), 8);
    assert_eq!(center_scroll(19, 4, 20), 16);
}

#[test]
fn wrapped_positions() {
    let t = chars("abcdef\ngh");
    assert_eq!(wrapped_cursor_pos(&t, 0, 4), (0, 0));
    assert_eq!(wrapped_cursor_pos(&t, 5, 4), (1, 1));
    assert_eq!(wrapped_cursor_pos(&t, 9, 4), (2, 2));
    assert_eq!(wrapped_cursor_pos(&t, 4, 0), (4, 0));
    assert_eq!(wrapped_line_count(&t, 4), 3);
    assert_eq!(wrapped_line_count(&chars(""), 4), 1);
    assert_eq!(wrapped_line_count(&chars("a\n\nb"), 4), 3);
    let u = chars("éé");
    assert_eq!(wrapped_cursor_pos(&u, 2, 3), (1, 1));
    assert_eq!(wrapped_line_count(&u, 3), 2);
    let v = chars("abcd\nx");
    assert_eq!(wrapped_cursor_pos(&v, 6, 2), (2, 1));
    assert_eq!(wrapped_cursor_pos(&v, 5, 2), (2, 0));
    assert_eq!(wrapped_cursor_pos(&v, 4, 2), (2, 0));
    assert_eq!(wrapped_cursor_pos(&chars("\n\nab"), 4, 2), (3, 0));
}

#[test]
fn status_line_animation_and_colors() {
    let mut app = new_app();
    assert_eq!(status_line(&app), ("Idle.".to_string(), StatusColor::Plain));
    app.input.insert_char('x');
    app.handle_key(KeyEvent::new(KeyCode::Char('s'), CONTROL));
    assert_eq!(app.state, AppState::Integrating);
    assert_eq!(status_line(&app), ("Integrating.".to_string(), StatusColor::Yellow));
    app.tick();
    assert_eq!(status_line(&app).0, "Integrating..");
    app.tick();
    assert_eq!(status_line(&app).0, "Integrating...");
    app.tick();
    assert_eq!(status_line(&app).0, "Integrating.");
    app.state = AppState::Error;
    assert_eq!(status_line(&app).1, StatusColor::Red);
}

#[test]
fn priorities_and_details() {
    assert_eq!(display_priority(9), 5);
    assert_eq!(display_priority(3), 3);
    assert_eq!(priority_style_for(5), PriorityStyle::Critical);
    assert_eq!(priority_style_for(4), PriorityStyle::Important);
    assert_eq!(priority_style_for(1), PriorityStyle::Plain);
    let mut q = parse_question_heading("### Q4 (p7): Title").unwrap();
    assert_eq!(question_detail(&q), "[5] Title");
    q.body = "More words".to_string();
    assert_eq!(question_detail(&q), "[5] Title\n\nMore words");
}

#[test]
fn help_hints() {
    let mut app = new_app();
    assert_eq!(help_text(&app), " Ctrl+C: quit | Tab: switch tab | Ctrl+S: submit | Enter: newline");
    app.handle_key(KeyEvent::new(KeyCode::Tab, NO_MODIFIERS));
    assert_eq!(help_text(&app), " Ctrl+C: quit | Tab: switch tab | \u{2191}\u{2193}: navigate | Enter: answer");
    app.handle_key(KeyEvent::new(KeyCode::BackTab, SHIFT));
    assert_eq!(help_text(&app), " Ctrl+C: quit | Tab: switch tab | Ctrl+S: submit | Enter: newline");
    app.quit_dialog = true;
    assert_eq!(help_text(&app), " Ctrl+C: confirm quit | Esc: cancel");
}
