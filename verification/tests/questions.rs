use specwriter::question::{parse_question_heading, parse_questions_from_content, scan_questions};

const SAMPLE: &str = "# Project\n\nSome prose.\n\n## Questions\n\n### Q2 (p3): Which database?\n\nWe need storage.\nMaybe SQL.\n\n#### Postgres\n\nSolid choice.\n\n#### SQLite\n\nEmbedded.\n\n### Q1 (p5): Who are the users?\n\nUnclear audience.\n\n### Q7: Default priority\n\n## Appendix\n\n### Q9 (p9): Ignored after the section\n";

#[test]
fn heading_with_priority() {
    let q = parse_question_heading("### Q12 (p4): Pick a name").unwrap();
    assert_eq!(q.id, 12);
    assert_eq!(q.priority, 4);
    assert_eq!(q.text, "Pick a name");
    assert_eq!(q.body, "");
    assert!(q.solutions.is_empty());
}

#[test]
fn heading_without_priority_defaults_to_five() {
    let q = parse_question_heading("### Q3: Plain  ").unwrap();
    assert_eq!(q.id, 3);
    assert_eq!(q.priority, 5);
    assert_eq!(q.text, "Plain");
}

#[test]
fn heading_rejections() {
    assert!(parse_question_heading("### Q3 Plain").is_none());
    assert!(parse_question_heading("### Q3:   ").is_none());
    assert!(parse_question_heading("### Qx: text").is_none());
    assert!(parse_question_heading("### Q3 (x4): text").is_none());
    assert!(parse_question_heading("### Q3 (p300): text").is_none());
    assert!(parse_question_heading("## Q3: text").is_none());
    assert!(parse_question_heading("### Q-3: text").is_none());
    assert!(parse_question_heading("  ### Q3: indented").is_none());
}

#[test]
fn heading_spacing_and_plus_sign() {
    let q = parse_question_heading("### Q 8 ( p2 )): spaced").unwrap();
    assert_eq!((q.id, q.priority), (8, 2));
    let q = parse_question_heading("### Q+5 (p+1): signed").unwrap();
    assert_eq!((q.id, q.priority), (5, 1));
    assert!(parse_question_heading("### Q5 (p 1): inner space").is_none());
}

#[test]
fn parse_keeps_file_order_and_bodies() {
    let qs = parse_questions_from_content(SAMPLE);
    let ids: Vec<usize> = qs.iter().map(|q| q.id).collect();
    assert_eq!(ids, vec![2, 1, 7]);
    assert_eq!(qs[0].body, "We need storage.\nMaybe SQL.");
    assert_eq!(qs[0].solutions.len(), 2);
    assert_eq!(qs[0].solutions[0].title, "Postgres");
    assert_eq!(qs[0].solutions[0].body, "Solid choice.");
    assert_eq!(qs[0].solutions[1].title, "SQLite");
    assert_eq!(qs[0].solutions[1].body, "Embedded.");
    assert_eq!(qs[1].body, "Unclear audience.");
    assert_eq!(qs[2].priority, 5);
    assert_eq!(qs[2].body, "");
}

#[test]
fn scan_sorts_by_priority_then_id() {
    let qs = scan_questions(SAMPLE);
    let ids: Vec<usize> = qs.iter().map(|q| q.id).collect();
    assert_eq!(ids, vec![1, 7, 2]);
    let prios: Vec<u8> = qs.iter().map(|q| q.priority).collect();
    assert_eq!(prios, vec![5, 5, 3]);
}

#[test]
fn scan_of_text_without_section_is_empty() {
    assert!(scan_questions("").is_empty());
    assert!(scan_questions("### Q1: outside any section\n").is_empty());
}

#[test]
fn stable_order_for_equal_keys() {
    let text = "## Questions\n### Q4 (p2): first\n### Q4 (p2): second\n### Q1 (p2): third\n";
    let qs = scan_questions(text);
    let texts: Vec<&str> = qs.iter().map(|q| q.text.as_str()).collect();
    assert_eq!(texts, vec!["third", "first", "second"]);
}

#[test]
fn windows_line_endings_and_repeated_heading() {
    let text = "## Questions\r\n### Q1 (p1): a\r\nbody line\r\n## Questions\r\n### Q2 (p2): b\r\n";
    let qs = parse_questions_from_content(text);
    assert_eq!(qs.len(), 2);
    assert_eq!(qs[0].body, "body line");
}

#[test]
fn solution_before_any_question_is_ignored() {
    let text = "## Questions\n#### Lonely\ntext\n### Q1: real\n#### Option A\nbody A\n";
    let qs = parse_questions_from_content(text);
    assert_eq!(qs.len(), 1);
    assert_eq!(qs[0].body, "");
    assert_eq!(qs[0].solutions.len(), 1);
    assert_eq!(qs[0].solutions[0].title, "Option A");
    assert_eq!(qs[0].solutions[0].body, "body A");
}

#[test]
fn other_subheading_ends_the_question_body() {
    let qs = parse_questions_from_content("## Questions\n### Q1: A\nbody\n### Notes\ntail\n");
    assert_eq!(qs.len(), 1);
    assert_eq!(qs[0].id, 1);
    assert_eq!(qs[0].text, "A");
    assert_eq!(qs[0].body, "body");
    let qs = parse_questions_from_content(
        "## Questions\n### Q1: A\n#### Yes\nfine\n### Aside\nnoise\n### Q2: B\nsecond\n",
    );
    assert_eq!(qs.len(), 2);
    assert_eq!(qs[0].solutions.len(), 1);
    assert_eq!(qs[0].solutions[0].body, "fine");
    assert_eq!(qs[1].body, "second");
}

#[test]
fn section_ends_at_the_next_level_two_heading() {
    let p = "# T\n## Questions\n### Q1: A\nbody\n";
    let full = format!("{p}## Later\n### Q2: B\n## Questions\n### Q3: C\n");
    let a = parse_questions_from_content(p);
    let b = parse_questions_from_content(&full);
    assert_eq!(a.len(), 1);
    assert_eq!(b.len(), 1);
    assert_eq!(b[0].body, "body");
}
