use specwriter::app::{ActiveTab, App, AppState, KeyCode, KeyEvent, CONTROL, NO_MODIFIERS, SHIFT};
use specwriter::integrator::IntegratorMessage;
use specwriter::question::scan_questions;

fn test_defaults() -> specwriter::settings::SettingsDefaults {
    specwriter::settings::SettingsDefaults { command: "tool".to_string(), spec_filename: "NOTES.md".to_string() }
}

fn new_app() -> App {
    let d = test_defaults();
    App::new(specwriter::settings::Settings::with_defaults(&d), d)
}

fn app_with_spec(content: Option<String>) -> App {
    let d = test_defaults();
    App::with_spec(content, specwriter::settings::Settings::with_defaults(&d), d)
}


fn key(code: KeyCode) -> KeyEvent {
    KeyEvent::new(code, NO_MODIFIERS)
}

fn ctrl(c: char) -> KeyEvent {
    KeyEvent::new(KeyCode::Char(c), CONTROL)
}

fn type_str(app: &mut App, s: &str) {
    for c in s.chars() {
        assert!(app.handle_key(key(KeyCode::Char(c))).is_none());
    }
}

fn input(app: &App) -> String {
    app.input.text.iter().collect()
}

fn with_questions() -> App {
    let mut app = new_app();
    let qs = scan_questions(
        "## Questions\n### Q1 (p2): low\n### Q2 (p5): high\n#### Yes\nDo it.\n### Q3 (p4): mid\n",
    );
    app.update_from_integrator(IntegratorMessage::QuestionsUpdated(qs));
    app
}

#[test]
fn starts_idle_in_writer() {
    let app = new_app();
    assert_eq!(app.state, AppState::Idle);
    assert_eq!(app.status, "Idle.");
    assert_eq!(app.active_tab, ActiveTab::TextInput);
    assert!(app.questions.is_empty());
    assert!(!app.should_quit);
}

#[test]
fn submit_sends_trimmed_text_and_clears() {
    let mut app = new_app();
    type_str(&mut app, "  add login  ");
    let sent = app.handle_key(ctrl('s'));
    assert_eq!(sent.as_deref(), Some("add login"));
    assert_eq!(input(&app), "");
    assert_eq!(app.input.cursor_pos, 0);
    assert_eq!(app.state, AppState::Integrating);
    assert_eq!(app.status, "Integrating");
}

#[test]
fn blank_submit_is_ignored() {
    let mut app = new_app();
    type_str(&mut app, " \u{3000} ");
    app.handle_key(KeyEvent::new(KeyCode::Enter, NO_MODIFIERS));
    assert!(app.submit().is_none());
    assert_eq!(input(&app), " \u{3000} \n");
    assert_eq!(app.state, AppState::Idle);
}

#[test]
fn error_state_recovers_on_submit() {
    let mut app = new_app();
    app.update_from_integrator(IntegratorMessage::StatusUpdate("Error! boom".to_string()));
    assert_eq!(app.state, AppState::Error);
    assert_eq!(app.status, "Error! boom");
    type_str(&mut app, "retry");
    assert!(app.handle_key(ctrl('s')).is_some());
    assert_eq!(app.state, AppState::Integrating);
}

#[test]
fn status_without_error_keeps_state() {
    let mut app = new_app();
    app.update_from_integrator(IntegratorMessage::StatusUpdate("Integrating (2 in queue)".to_string()));
    assert_eq!(app.state, AppState::Idle);
    assert_eq!(app.status, "Integrating (2 in queue)");
}

#[test]
fn completion_returns_to_idle_and_asks_for_reload() {
    let mut app = new_app();
    type_str(&mut app, "x");
    app.submit();
    app.spec_scroll = 4;
    assert!(app.update_from_integrator(IntegratorMessage::IntegrationComplete));
    assert_eq!(app.state, AppState::Idle);
    assert_eq!(app.status, "Idle.");
    assert_eq!(app.spec_scroll, 0);
}

#[test]
fn shift_letters_type_but_other_modifiers_do_not() {
    let mut app = new_app();
    app.handle_key(KeyEvent::new(KeyCode::Char('A'), SHIFT));
    app.handle_key(KeyEvent::new(KeyCode::Char('b'), 4));
    app.handle_key(KeyEvent::new(KeyCode::Enter, SHIFT));
    assert_eq!(input(&app), "A");
}

#[test]
fn tab_cycles_through_four_tabs() {
    let mut app = new_app();
    app.handle_key(key(KeyCode::Tab));
    assert_eq!(app.active_tab, ActiveTab::Questions);
    app.handle_key(key(KeyCode::Tab));
    assert_eq!(app.active_tab, ActiveTab::Spec);
    app.handle_key(key(KeyCode::Tab));
    assert_eq!(app.active_tab, ActiveTab::Settings);
    app.handle_key(key(KeyCode::Tab));
    assert_eq!(app.active_tab, ActiveTab::TextInput);
    app.handle_key(key(KeyCode::BackTab));
    assert_eq!(app.active_tab, ActiveTab::Settings);
}

#[test]
fn ctrl_c_quits_when_idle() {
    let mut app = new_app();
    app.handle_key(ctrl('c'));
    assert!(app.should_quit);
}

#[test]
fn ctrl_c_twice_quits_while_integrating() {
    let mut app = new_app();
    type_str(&mut app, "x");
    app.submit();
    app.handle_key(ctrl('c'));
    assert!(app.quit_dialog);
    assert!(!app.should_quit);
    app.handle_key(ctrl('c'));
    assert!(app.should_quit);
}

#[test]
fn esc_cancels_quit_dialog() {
    let mut app = new_app();
    type_str(&mut app, "x");
    app.submit();
    app.handle_key(ctrl('c'));
    app.handle_key(key(KeyCode::Char('z')));
    assert!(app.quit_dialog);
    app.handle_key(key(KeyCode::Esc));
    assert!(!app.quit_dialog);
    assert!(!app.should_quit);
}

#[test]
fn questions_navigation_and_answer() {
    let mut app = with_questions();
    let ids: Vec<usize> = app.questions.iter().map(|q| q.id).collect();
    assert_eq!(ids, vec![2, 3, 1]);
    app.handle_key(key(KeyCode::Tab));
    app.handle_key(key(KeyCode::Up));
    assert_eq!(app.question_focus, 0);
    app.handle_key(key(KeyCode::Down));
    app.handle_key(key(KeyCode::Down));
    app.handle_key(key(KeyCode::Down));
    assert_eq!(app.question_focus, 2);
    app.handle_key(key(KeyCode::Enter));
    assert_eq!(app.answer_dialog.as_ref().unwrap().question.id, 1);
    type_str(&mut app, " yes ");
    let sent = app.handle_key(ctrl('s'));
    assert_eq!(sent.as_deref(), Some("The answer to question Q1 (low) is: yes"));
    assert!(app.answer_dialog.is_none());
    let ids: Vec<usize> = app.questions.iter().map(|q| q.id).collect();
    assert_eq!(ids, vec![2, 3]);
    assert_eq!(app.question_focus, 1);
    assert_eq!(app.state, AppState::Integrating);
}

#[test]
fn blank_answer_keeps_dialog_and_esc_closes_it() {
    let mut app = with_questions();
    app.handle_key(key(KeyCode::Tab));
    app.handle_key(key(KeyCode::Enter));
    app.handle_key(KeyEvent::new(KeyCode::Enter, NO_MODIFIERS));
    assert!(app.handle_key(ctrl('s')).is_none());
    assert!(app.answer_dialog.is_some());
    assert_eq!(app.questions.len(), 3);
    app.handle_key(key(KeyCode::Esc));
    assert!(app.answer_dialog.is_none());
}

#[test]
fn answer_dialog_edits_its_own_text() {
    let mut app = with_questions();
    app.handle_key(key(KeyCode::Tab));
    app.handle_key(key(KeyCode::Enter));
    type_str(&mut app, "ab");
    app.handle_key(key(KeyCode::Left));
    app.handle_key(key(KeyCode::Backspace));
    app.handle_key(key(KeyCode::Home));
    app.handle_key(key(KeyCode::Char('x')));
    let d = app.answer_dialog.as_ref().unwrap();
    let t: String = d.input.text.iter().collect();
    assert_eq!(t, "xb");
    assert_eq!(input(&app), "");
}

#[test]
fn questions_update_keeps_focus_by_id() {
    let mut app = with_questions();
    app.question_focus = 1;
    let qs = scan_questions("## Questions\n### Q9 (p5): new\n### Q3 (p4): mid\n### Q1 (p2): low\n");
    app.update_from_integrator(IntegratorMessage::QuestionsUpdated(qs));
    assert_eq!(app.questions[app.question_focus].id, 3);
    assert_eq!(app.question_focus, 1);
}

#[test]
fn questions_update_clamps_when_focused_one_is_gone() {
    let mut app = with_questions();
    app.question_focus = 2;
    let qs = scan_questions("## Questions\n### Q2 (p5): high\n");
    app.update_from_integrator(IntegratorMessage::QuestionsUpdated(qs));
    assert_eq!(app.question_focus, 0);
    app.update_from_integrator(IntegratorMessage::QuestionsUpdated(Vec::new()));
    assert_eq!(app.question_focus, 0);
}

#[test]
fn spec_tab_scrolls_within_lines() {
    let mut app = new_app();
    app.spec_content = Some("a\nb\nc\n".to_string());
    app.handle_key(key(KeyCode::Tab));
    app.handle_key(key(KeyCode::Tab));
    assert_eq!(app.active_tab, ActiveTab::Spec);
    for _ in 0..5 {
        app.handle_key(key(KeyCode::Down));
    }
    assert_eq!(app.spec_scroll, 2);
    app.handle_key(key(KeyCode::Up));
    assert_eq!(app.spec_scroll, 1);
    app.spec_content = None;
    app.handle_key(key(KeyCode::Down));
    assert_eq!(app.spec_scroll, 1);
}

#[test]
fn tick_wraps() {
    let mut app = new_app();
    app.tick();
    assert_eq!(app.tick, 1);
    app.tick = u64::MAX;
    app.tick();
    assert_eq!(app.tick, 0);
}

#[test]
fn answering_moves_focus_to_the_next_question() {
    let mut app = with_questions();
    app.handle_key(key(KeyCode::Tab));
    app.handle_key(key(KeyCode::Down));
    assert_eq!(app.question_focus, 1);
    app.handle_key(key(KeyCode::Enter));
    type_str(&mut app, "mid answer");
    app.handle_key(ctrl('s'));
    let ids: Vec<usize> = app.questions.iter().map(|q| q.id).collect();
    assert_eq!(ids, vec![2, 1]);
    assert_eq!(app.questions[app.question_focus].id, 1);
    app.handle_key(key(KeyCode::Enter));
    type_str(&mut app, "x");
    app.handle_key(ctrl('s'));
    assert_eq!(app.questions[app.question_focus].id, 2);
    app.handle_key(key(KeyCode::Enter));
    type_str(&mut app, "y");
    app.handle_key(ctrl('s'));
    assert!(app.questions.is_empty());
}

#[test]
fn dialogs_capture_tab_and_other_keys() {
    let mut app = with_questions();
    app.handle_key(key(KeyCode::Tab));
    app.handle_key(key(KeyCode::Enter));
    app.handle_key(key(KeyCode::Tab));
    assert_eq!(app.active_tab, ActiveTab::Questions);
    assert!(app.answer_dialog.is_some());
    app.handle_key(key(KeyCode::Esc));
    type_str(&mut app, "");
    app.handle_key(key(KeyCode::Tab));
    app.handle_key(key(KeyCode::Tab));
    app.handle_key(key(KeyCode::Tab));
    type_str(&mut app, "req");
    app.handle_key(ctrl('s'));
    app.handle_key(ctrl('c'));
    assert!(app.quit_dialog);
    app.handle_key(key(KeyCode::Tab));
    app.handle_key(key(KeyCode::Char('z')));
    assert_eq!(app.active_tab, ActiveTab::TextInput);
    assert_eq!(input(&app), "");
    assert!(app.quit_dialog && !app.should_quit);
}

#[test]
fn refresh_without_focused_question_moves_to_next_then_previous() {
    let mut app = with_questions();
    app.question_focus = 1;
    let qs = scan_questions("## Questions\n### Q2 (p5): high\n### Q1 (p2): low\n");
    app.update_from_integrator(IntegratorMessage::QuestionsUpdated(qs));
    assert_eq!(app.questions[app.question_focus].id, 1);
    let qs = scan_questions("## Questions\n### Q2 (p5): high\n");
    app.update_from_integrator(IntegratorMessage::QuestionsUpdated(qs));
    assert_eq!(app.questions[app.question_focus].id, 2);
}

fn settings_tab(app: &mut App) {
    for _ in 0..3 {
        app.handle_key(key(KeyCode::Tab));
    }
    assert_eq!(app.active_tab, ActiveTab::Settings);
}

#[test]
fn settings_tab_toggles_and_edits() {
    let mut app = new_app();
    settings_tab(&mut app);
    for _ in 0..3 {
        app.handle_key(key(KeyCode::Down));
    }
    assert_eq!(app.settings_tab.focus, 3);
    app.handle_key(key(KeyCode::Enter));
    assert!(app.settings_tab.settings.web_search);
    app.handle_key(key(KeyCode::Enter));
    assert!(!app.settings_tab.settings.web_search);
    app.handle_key(key(KeyCode::Down));
    app.handle_key(key(KeyCode::Down));
    assert_eq!(app.settings_tab.focus, 4);
    app.handle_key(key(KeyCode::Up));
    app.handle_key(key(KeyCode::Up));
    app.handle_key(key(KeyCode::Up));
    assert_eq!(app.settings_tab.focus, 1);
    app.handle_key(key(KeyCode::Enter));
    assert!(app.settings_tab.editing.is_some());
    app.handle_key(key(KeyCode::Tab));
    assert_eq!(app.active_tab, ActiveTab::Settings);
    type_str(&mut app, "big");
    app.handle_key(key(KeyCode::Backspace));
    app.handle_key(key(KeyCode::Enter));
    assert!(app.settings_tab.editing.is_none());
    assert_eq!(app.settings_tab.settings.model.as_deref(), Some("bi"));
    app.handle_key(key(KeyCode::Enter));
    app.handle_key(key(KeyCode::Char('x')));
    app.handle_key(key(KeyCode::Esc));
    assert_eq!(app.settings_tab.settings.model.as_deref(), Some("bi"));
    app.handle_key(key(KeyCode::Up));
    app.handle_key(key(KeyCode::Enter));
    for _ in 0..4 {
        app.handle_key(key(KeyCode::Backspace));
    }
    app.handle_key(key(KeyCode::Enter));
    assert_eq!(app.settings_tab.settings.claude_command, "tool");
    assert_eq!(input(&app), "");
}

#[test]
fn settings_save_needs_confirmation() {
    let mut app = new_app();
    settings_tab(&mut app);
    app.handle_key(ctrl('s'));
    assert!(app.settings_tab.save_dialog);
    app.handle_key(key(KeyCode::Tab));
    assert_eq!(app.active_tab, ActiveTab::Settings);
    app.handle_key(key(KeyCode::Esc));
    assert!(!app.settings_tab.save_dialog && !app.settings_tab.save_requested);
    app.handle_key(ctrl('s'));
    app.handle_key(key(KeyCode::Enter));
    assert!(!app.settings_tab.save_dialog && app.settings_tab.save_requested);
}
