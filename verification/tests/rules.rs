use msglint::messages::parse_message;
use msglint::problems::Problems;
use msglint::rules::check_all_rules;
use msglint::rules::rule_banned_words;
use msglint::rules::rule_first_word_capitalized;
use msglint::rules::rule_invalid_type;
use msglint::rules::rule_max_title_length;
use msglint::rules::rule_min_title_length;
use msglint::rules::rule_missing_title;
use msglint::rules::rule_missing_type;
use msglint::rules::rule_no_exmark;
use msglint::rules::rule_no_period;
use msglint::rules::rule_type_not_lowercase;
use msglint::rules::rule_typos;
use msglint::rules::usize_to_dec_string;

fn problem_texts(problems: &Problems) -> Vec<String> {
    problems.problems.iter().map(|p| p.message.clone()).collect()
}

#[test]
fn missing_type_is_reported() {
    let mut parse_problems = Problems::new();
    let message = parse_message("just some text", &mut parse_problems);
    let mut problems = Problems::new();
    rule_missing_type(&message, &mut problems);
    assert_eq!(
        problem_texts(&problems),
        vec!["Commit message must start with a type (example: `feat: ...`)".to_string()]
    );
}

#[test]
fn missing_title_is_reported() {
    let mut parse_problems = Problems::new();
    let message = parse_message("feat:", &mut parse_problems);
    let mut problems = Problems::new();
    rule_missing_title(&message, &mut problems);
    assert_eq!(
        problem_texts(&problems),
        vec!["Commit message must have a title (example: `feat: memory leak in auth`)".to_string()]
    );
}

#[test]
fn invalid_type_is_reported_with_the_valid_list() {
    let mut parse_problems = Problems::new();
    let message = parse_message("foo: a title", &mut parse_problems);
    let mut problems = Problems::new();
    rule_invalid_type(&message, &mut problems);
    assert_eq!(
        problem_texts(&problems),
        vec![
            "Commit message type must be one of: feat, fix, docs, style, refactor, test, chore, build, ci, perf, revert"
                .to_string()
        ]
    );
}

#[test]
fn invalid_type_with_valid_prefix_hints_at_missing_colon() {
    let mut parse_problems = Problems::new();
    let message = parse_message("feats: a title", &mut parse_problems);
    let mut problems = Problems::new();
    rule_invalid_type(&message, &mut problems);
    assert_eq!(
        problem_texts(&problems),
        vec![
            "Commit message type must be one of: feat, fix, docs, style, refactor, test, chore, build, ci, perf, revert (missing `:` after type?)"
                .to_string()
        ]
    );
}

#[test]
fn valid_type_in_upper_case_is_not_invalid_but_not_lowercase() {
    let mut parse_problems = Problems::new();
    let message = parse_message("Feat: a title", &mut parse_problems);
    let mut problems = Problems::new();
    rule_invalid_type(&message, &mut problems);
    assert!(problems.problems.is_empty());
    rule_type_not_lowercase(&message, &mut problems);
    assert_eq!(
        problem_texts(&problems),
        vec!["Commit message type must be lowercase. (example: `feat: ...`)".to_string()]
    );
}

#[test]
fn capitalized_first_word_is_reported() {
    let mut parse_problems = Problems::new();
    let message = parse_message("feat: Fix the parser", &mut parse_problems);
    let mut problems = Problems::new();
    rule_first_word_capitalized(&message, &mut problems);
    assert_eq!(
        problem_texts(&problems),
        vec!["Commit message should not start with a capitalized word.".to_string()]
    );
}

#[test]
fn all_caps_first_word_is_exempt() {
    let mut parse_problems = Problems::new();
    let message = parse_message("feat: WIP parser", &mut parse_problems);
    let mut problems = Problems::new();
    rule_first_word_capitalized(&message, &mut problems);
    assert!(problems.problems.is_empty());
}

#[test]
fn single_character_title_is_exempt_from_capitalization() {
    let mut parse_problems = Problems::new();
    let message = parse_message("feat: X", &mut parse_problems);
    let mut problems = Problems::new();
    rule_first_word_capitalized(&message, &mut problems);
    assert!(problems.problems.is_empty());
}

#[test]
fn trailing_period_is_reported() {
    let mut parse_problems = Problems::new();
    let message = parse_message("feat: do the thing.", &mut parse_problems);
    let mut problems = Problems::new();
    rule_no_period(&message, &mut problems);
    assert_eq!(
        problem_texts(&problems),
        vec!["Commit message title should not end with a period.".to_string()]
    );
}

#[test]
fn period_inside_trailing_parentheses_is_ignored() {
    let mut parse_problems = Problems::new();
    let message = parse_message("feat: update parser (v1.2.)", &mut parse_problems);
    let mut problems = Problems::new();
    rule_no_period(&message, &mut problems);
    assert!(problems.problems.is_empty());
}

#[test]
fn trailing_exclamation_mark_is_reported() {
    let mut parse_problems = Problems::new();
    let message = parse_message("feat: make it fast!", &mut parse_problems);
    let mut problems = Problems::new();
    rule_no_exmark(&message, &mut problems);
    assert_eq!(
        problem_texts(&problems),
        vec!["Commit message title should not end with a exclaimation mark.".to_string()]
    );
}

#[test]
fn banned_word_is_reported_as_found() {
    let mut parse_problems = Problems::new();
    let message = parse_message("feat: fix Stuff in auth", &mut parse_problems);
    let mut problems = Problems::new();
    rule_banned_words(&message, &mut problems);
    assert_eq!(
        problem_texts(&problems),
        vec!["Commit message title should not contain the word `Stuff`.".to_string()]
    );
}

#[test]
fn banned_word_plural_prefers_the_longer_match() {
    let mut parse_problems = Problems::new();
    let message = parse_message("feat: move things around", &mut parse_problems);
    let mut problems = Problems::new();
    rule_banned_words(&message, &mut problems);
    assert_eq!(
        problem_texts(&problems),
        vec!["Commit message title should not contain the word `things`.".to_string()]
    );
}

#[test]
fn banned_word_inside_a_longer_word_is_ignored() {
    let mut parse_problems = Problems::new();
    let message = parse_message("feat: handle nothings gracefully", &mut parse_problems);
    let mut problems = Problems::new();
    rule_banned_words(&message, &mut problems);
    assert!(problems.problems.is_empty());
}

#[test]
fn accented_letter_blocks_the_word_boundary() {
    let mut parse_problems = Problems::new();
    let message = parse_message("feat: rework caféstuff cleanup", &mut parse_problems);
    let mut problems = Problems::new();
    rule_banned_words(&message, &mut problems);
    assert!(problems.problems.is_empty());
}

#[test]
fn long_s_folds_onto_the_banned_word() {
    let mut parse_problems = Problems::new();
    let message = parse_message("feat: remove \u{17f}tuff now", &mut parse_problems);
    let mut problems = Problems::new();
    rule_banned_words(&message, &mut problems);
    assert_eq!(
        problem_texts(&problems),
        vec!["Commit message title should not contain the word `\u{17f}tuff`.".to_string()]
    );
}

#[test]
fn typo_in_title_is_reported_with_correction() {
    let mut parse_problems = Problems::new();
    let message = parse_message("feat: fix teh parser", &mut parse_problems);
    let mut problems = Problems::new();
    rule_typos(&message, &mut problems);
    assert_eq!(
        problem_texts(&problems),
        vec!["In commit message title, `teh` should be `the`.".to_string()]
    );
}

#[test]
fn short_title_reports_its_length() {
    let mut parse_problems = Problems::new();
    let message = parse_message("feat: short", &mut parse_problems);
    let mut problems = Problems::new();
    rule_min_title_length(&message, &mut problems);
    assert_eq!(
        problem_texts(&problems),
        vec!["Commit message title is too short. (5 < 10)".to_string()]
    );
}

#[test]
fn long_title_reports_its_length() {
    let long_title = "a".repeat(80);
    let text = format!("feat: {long_title}");
    let mut parse_problems = Problems::new();
    let message = parse_message(&text, &mut parse_problems);
    let mut problems = Problems::new();
    rule_max_title_length(&message, &mut problems);
    assert_eq!(
        problem_texts(&problems),
        vec!["Commit message title is too long. (80 > 72)".to_string()]
    );
}

#[test]
fn title_lengths_are_counted_in_bytes() {
    let mut parse_problems = Problems::new();
    let message = parse_message("feat: \u{e9}t", &mut parse_problems);
    let mut problems = Problems::new();
    rule_min_title_length(&message, &mut problems);
    assert_eq!(
        problem_texts(&problems),
        vec!["Commit message title is too short. (3 < 10)".to_string()]
    );
    let accented_title = "\u{e9}".repeat(40);
    let text = format!("feat: {accented_title}");
    let mut parse_problems = Problems::new();
    let message = parse_message(&text, &mut parse_problems);
    let mut problems = Problems::new();
    rule_max_title_length(&message, &mut problems);
    assert_eq!(
        problem_texts(&problems),
        vec!["Commit message title is too long. (80 > 72)".to_string()]
    );
}

#[test]
fn decimal_rendering_matches() {
    assert_eq!(usize_to_dec_string(0), "0");
    assert_eq!(usize_to_dec_string(7), "7");
    assert_eq!(usize_to_dec_string(10), "10");
    assert_eq!(usize_to_dec_string(105), "105");
    assert_eq!(usize_to_dec_string(987654), "987654");
}

#[test]
fn clean_message_passes_all_rules() {
    let mut problems = Problems::new();
    let message = parse_message("feat: add a parser for commit text\n", &mut problems);
    check_all_rules(&message, &mut problems);
    assert!(problems.problems.is_empty(), "unexpected: {:?}", problem_texts(&problems));
}

#[test]
fn all_rules_run_in_order() {
    let mut problems = Problems::new();
    let message = parse_message("Feat: Short.", &mut problems);
    assert!(problems.problems.is_empty());
    check_all_rules(&message, &mut problems);
    let texts = problem_texts(&problems);
    assert_eq!(
        texts,
        vec![
            "Commit message type must be lowercase. (example: `feat: ...`)".to_string(),
            "Commit message should not start with a capitalized word.".to_string(),
            "Commit message title should not end with a period.".to_string(),
            "Commit message title is too short. (6 < 10)".to_string(),
        ]
    );
}
