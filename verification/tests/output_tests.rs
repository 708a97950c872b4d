use sara_core::output::{
    colorize, emoji_error, format_error, format_success, format_tree_branch, format_warning, get_emoji, Color,
    OutputConfig, Style,
};

#[test]
fn output_config_new_and_default() {
    let config = OutputConfig::new(false, true);
    assert!(!config.colors);
    assert!(config.emojis);
    let default = OutputConfig::default();
    assert!(default.colors && default.emojis);
}

#[test]
fn colorize_leaves_text_when_colors_are_off() {
    let config = OutputConfig::new(false, false);
    assert_eq!(colorize(&config, "hello", Color::Red, Style::Bold), "hello");
}

#[test]
fn colorize_plain_text_is_unchanged() {
    let config = OutputConfig::new(true, false);
    assert_eq!(colorize(&config, "hello", Color::Plain, Style::Plain), "hello");
}

#[test]
fn colorize_uses_escape_codes_or_nothing() {
    let config = OutputConfig::new(true, false);
    let out = colorize(&config, "hi", Color::Red, Style::Bold);
    assert!(out == "hi" || out == "\x1B[1;31mhi\x1B[0m", "{out:?}");
}

#[test]
fn messages_without_colors() {
    let plain = OutputConfig::new(false, false);
    assert_eq!(format_success(&plain, "done"), "[OK] done");
    assert_eq!(format_error(&plain, "failed"), "[ERR] failed");
    assert_eq!(format_warning(&plain, "careful"), "[WARN] careful");
    let emojis = OutputConfig::new(false, true);
    assert_eq!(format_success(&emojis, "done"), "✅ done");
    assert_eq!(format_error(&emojis, "failed"), "❌ failed");
    assert_eq!(get_emoji(&plain, &emoji_error()), "[ERR]");
    assert_eq!(get_emoji(&emojis, &emoji_error()), "❌");
}

#[test]
fn tree_branches() {
    assert_eq!(format_tree_branch(true), "└─");
    assert_eq!(format_tree_branch(false), "├─");
}

#[test]
fn check_report_text_lists_counts_and_passes() {
    let plain = OutputConfig::new(false, false);
    let rows = vec![(sara_core::model::ItemType::Solution, 2usize)];
    let text = sara_core::cli::check_text_output(2, 1, 5, &rows, &Vec::new(), &Vec::new(), &plain);
    let expected = format!(
        "\nCheck Results\n=============\n\nItems:                 2\nRelationships:         1\nParse time:            5ms\nItems by type:\n  {:35} 2\n\n[OK] Check passed",
        "Solution"
    );
    assert_eq!(text, expected);
}

#[test]
fn check_report_text_counts_errors_and_warnings() {
    let plain = OutputConfig::new(false, false);
    let errors = vec!["bad link".to_string()];
    let warnings = vec!["orphan".to_string(), "old".to_string()];
    let text = sara_core::cli::check_text_output(0, 0, 0, &Vec::new(), &errors, &warnings, &plain);
    assert_eq!(
        text,
        "\nCheck Results\n=============\n\nItems:                 0\nRelationships:         0\nParse time:            0ms\n[ERR] bad link\n\n[WARN] orphan\n[WARN] old\n\n[ERR] Check failed with 1 error(s) and 2 warning(s)"
    );
    let passed = sara_core::cli::check_text_output(0, 0, 0, &Vec::new(), &Vec::new(), &warnings, &plain);
    assert!(passed.ends_with("\n[OK] Check passed with 2 warning(s)"));
}
