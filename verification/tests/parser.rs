use msglint::messages::parse_message;
use msglint::messages::parse_header;
use msglint::problems::Problems;

fn problem_texts(problems: &Problems) -> Vec<String> {
    problems.problems.iter().map(|p| p.message.clone()).collect()
}

#[test]
fn parses_all_fields_of_a_full_message() {
    let text = "feat: title\n\nbody\n\nKey: value\n";
    let mut problems = Problems::new();
    let message = parse_message(text, &mut problems);
    assert_eq!(message.type_, Some("feat"));
    assert_eq!(message.scope, None);
    assert_eq!(message.title, Some("title"));
    assert_eq!(message.body, Some("body"));
    assert_eq!(message.footers.len(), 1);
    assert_eq!(message.footers[0].key, "Key");
    assert_eq!(message.footers[0].value, "value");
    assert!(!message.is_breaking_change);
}

#[test]
fn no_match_falls_back_to_whole_line_title() {
    let mut problems = Problems::new();
    let message = parse_message("just some text", &mut problems);
    assert_eq!(message.type_, None);
    assert_eq!(message.scope, None);
    assert_eq!(message.title, Some("just some text"));
    assert!(problems.problems.is_empty());
}

#[test]
fn breaking_marker_without_footer_reports_one_problem() {
    let mut problems = Problems::new();
    let message = parse_message("feat!: change\n", &mut problems);
    assert!(message.is_breaking_change);
    let texts = problem_texts(&problems);
    assert_eq!(texts.len(), 1);
    assert!(texts[0].starts_with("Breaking changes should be explained in a footer"));
}

#[test]
fn breaking_footer_without_marker_reports_one_problem() {
    let mut problems = Problems::new();
    let message = parse_message("feat: change\n\nBREAKING CHANGE: oops\n", &mut problems);
    assert!(message.is_breaking_change);
    let texts = problem_texts(&problems);
    assert_eq!(texts.len(), 1);
    assert!(texts[0].starts_with("Breaking changes should be marked with `!`"));
}

#[test]
fn breaking_marker_with_footer_is_silent() {
    let mut problems = Problems::new();
    let message = parse_message("feat!: change\n\nBREAKING CHANGE: oops\n", &mut problems);
    assert!(message.is_breaking_change);
    assert!(problems.problems.is_empty());
}

#[test]
fn space_before_colon_is_whitespace_after_type() {
    let mut problems = Problems::new();
    let message = parse_message("feat : title", &mut problems);
    assert_eq!(message.type_, Some("feat"));
    let texts = problem_texts(&problems);
    assert_eq!(texts, vec!["Whitespace after commit message type.".to_string()]);
}

#[test]
fn space_before_type_is_whitespace_before_type() {
    let mut problems = Problems::new();
    let message = parse_message(" feat: title", &mut problems);
    assert_eq!(message.type_, Some("feat"));
    let texts = problem_texts(&problems);
    assert_eq!(texts, vec!["Whitespace before commit message type.".to_string()]);
}

#[test]
fn empty_key_line_breaks_the_footer_block() {
    let mut problems = Problems::new();
    let message = parse_message("feat: a title\n\nbody\n: no key\n", &mut problems);
    assert!(message.footers.is_empty());
    assert_eq!(message.body, Some("body\n: no key"));
}

#[test]
fn header_prefix_lengths_add_up_to_title_start() {
    let line = "feat(ui)! : fix";
    let header = parse_header(line);
    assert!(header.matched);
    assert_eq!(header.type_, "feat");
    assert_eq!(header.scope, "(ui)");
    assert!(header.ex_mark);
    assert_eq!(header.whitespace_after_type, " ");
    assert_eq!(header.title, " fix");
    let title_start = header.type_.len() + header.scope.len() + 1 + header.whitespace_after_type.len() + 1;
    assert_eq!(&line[title_start..], header.title);
}

#[test]
fn footers_keep_text_order() {
    let mut problems = Problems::new();
    let message = parse_message("feat: a title\n\nb\n\nA: 1\nB: 2\nC: 3\n", &mut problems);
    let pairs: Vec<(&str, &str)> = message.footers.iter().map(|f| (f.key, f.value)).collect();
    assert_eq!(pairs, vec![("A", "1"), ("B", "2"), ("C", "3")]);
}

#[test]
fn empty_input_yields_empty_message() {
    let mut problems = Problems::new();
    let message = parse_message("", &mut problems);
    assert_eq!(message.type_, None);
    assert_eq!(message.scope, None);
    assert_eq!(message.title, None);
    assert_eq!(message.body, None);
    assert!(message.footers.is_empty());
    assert!(!message.is_breaking_change);
    assert!(problems.problems.is_empty());
}

#[test]
fn scope_is_stripped_and_trimmed() {
    let mut problems = Problems::new();
    let message = parse_message("feat(ui): a title", &mut problems);
    assert_eq!(message.scope, Some("ui"));
    assert!(problems.problems.is_empty());
}

#[test]
fn scope_whitespace_is_reported() {
    let mut problems = Problems::new();
    let message = parse_message("feat( ui ): a title", &mut problems);
    assert_eq!(message.scope, Some("ui"));
    let texts = problem_texts(&problems);
    assert_eq!(
        texts,
        vec![
            "Whitespace before commit message scope.".to_string(),
            "Whitespace after commit message scope.".to_string(),
        ]
    );
}

#[test]
fn broken_scope_makes_the_whole_line_the_title() {
    let mut problems = Problems::new();
    let message = parse_message("feat(ui: broken", &mut problems);
    assert_eq!(message.type_, None);
    assert_eq!(message.scope, None);
    assert_eq!(message.title, Some("feat(ui: broken"));
    assert!(problems.problems.is_empty());
}

#[test]
fn missing_space_before_title_is_reported() {
    let mut problems = Problems::new();
    let message = parse_message("feat:title", &mut problems);
    assert_eq!(message.title, Some("title"));
    let texts = problem_texts(&problems);
    assert_eq!(texts, vec!["No space before commit message title.".to_string()]);
}

#[test]
fn double_space_before_title_is_reported() {
    let mut problems = Problems::new();
    let message = parse_message("feat:  title", &mut problems);
    assert_eq!(message.title, Some("title"));
    let texts = problem_texts(&problems);
    assert_eq!(texts, vec!["Whitespace before commit message title.".to_string()]);
}

#[test]
fn trailing_space_after_title_is_reported() {
    let mut problems = Problems::new();
    let message = parse_message("feat: title ", &mut problems);
    assert_eq!(message.title, Some("title"));
    let texts = problem_texts(&problems);
    assert_eq!(texts, vec!["Whitespace after commit message title.".to_string()]);
}

#[test]
fn empty_title_is_absent_and_not_a_structural_problem() {
    let mut problems = Problems::new();
    let message = parse_message("feat:", &mut problems);
    assert_eq!(message.type_, Some("feat"));
    assert_eq!(message.title, None);
    assert!(problems.problems.is_empty());
}

#[test]
fn missing_blank_line_before_body_is_reported() {
    let mut problems = Problems::new();
    let message = parse_message("feat: a title\nbody right here\n", &mut problems);
    assert_eq!(message.body, Some("body right here"));
    let texts = problem_texts(&problems);
    assert_eq!(
        texts,
        vec!["Commit message title and body must be separated by a single newline.".to_string()]
    );
}

#[test]
fn extra_blank_line_before_footer_is_reported() {
    let mut problems = Problems::new();
    let message = parse_message("feat: a title\n\nbody\n\n\nKey: value\n", &mut problems);
    assert_eq!(message.body, Some("body"));
    assert_eq!(message.footers.len(), 1);
    let texts = problem_texts(&problems);
    assert_eq!(
        texts,
        vec!["Commit message body and footer must be separated by a single newline.".to_string()]
    );
}

#[test]
fn footer_value_keeps_extra_spaces_beyond_the_first() {
    let mut problems = Problems::new();
    let message = parse_message("feat: a title\n\nKey:  spaced\n", &mut problems);
    assert_eq!(message.footers.len(), 1);
    assert_eq!(message.footers[0].value, " spaced");
}

#[test]
fn duplicate_footer_keys_are_kept() {
    let mut problems = Problems::new();
    let message = parse_message("feat: a title\n\nK: 1\nK: 2\n", &mut problems);
    let pairs: Vec<(&str, &str)> = message.footers.iter().map(|f| (f.key, f.value)).collect();
    assert_eq!(pairs, vec![("K", "1"), ("K", "2")]);
}

#[test]
fn footer_without_trailing_newline_is_recognized() {
    let mut problems = Problems::new();
    let message = parse_message("feat: a title\n\nKey: v", &mut problems);
    assert_eq!(message.body, None);
    assert_eq!(message.footers.len(), 1);
    assert_eq!(message.footers[0].key, "Key");
    assert_eq!(message.footers[0].value, "v");
}

#[test]
fn only_newlines_yield_an_empty_message() {
    let mut problems = Problems::new();
    let message = parse_message("\n\n\n", &mut problems);
    assert_eq!(message.type_, None);
    assert_eq!(message.title, None);
    assert_eq!(message.body, None);
    assert!(message.footers.is_empty());
    assert!(problems.problems.is_empty());
}

#[test]
fn multiline_body_is_kept_verbatim() {
    let mut problems = Problems::new();
    let message = parse_message("feat: a title\n\nline one\nline two\n\nK: v\n", &mut problems);
    assert_eq!(message.body, Some("line one\nline two"));
    assert_eq!(message.footers.len(), 1);
}

#[test]
fn unicode_whitespace_is_trimmed_from_title() {
    let mut problems = Problems::new();
    let message = parse_message("feat: x\u{a0}", &mut problems);
    assert_eq!(message.title, Some("x"));
    assert!(problems.problems.is_empty());
}

#[test]
fn unicode_whitespace_only_title_is_absent() {
    let mut problems = Problems::new();
    let message = parse_message("feat:\u{a0}", &mut problems);
    assert_eq!(message.title, None);
    assert!(problems.problems.is_empty());
}

#[test]
fn unicode_whitespace_in_type_is_trimmed() {
    let mut problems = Problems::new();
    let message = parse_message("feat\u{a0}: a title", &mut problems);
    assert_eq!(message.type_, Some("feat"));
    assert!(problems.problems.is_empty());
}

#[test]
fn report_preserves_order() {
    let mut problems = Problems::new();
    problems.report("first".to_string());
    problems.report("second".to_string());
    let texts = problem_texts(&problems);
    assert_eq!(texts, vec!["first".to_string(), "second".to_string()]);
}
