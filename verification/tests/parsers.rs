use zengit_core::parsers::{
    parse_ahead_behind, parse_branches, parse_log, parse_show, parse_show_files, parse_status,
    BranchClassification, ChangeCategory, ParseError,
};

#[test]
fn status_three_records() {
    let records = parse_status(" M a.txt\n?? b.txt\n D c.txt");
    assert_eq!(records.len(), 3);
    assert_eq!(records[0].category, ChangeCategory::Modified);
    assert_eq!(records[0].filename, "a.txt");
    assert_eq!(records[1].category, ChangeCategory::Added);
    assert_eq!(records[1].filename, "b.txt");
    assert_eq!(records[2].category, ChangeCategory::Deleted);
    assert_eq!(records[2].filename, "c.txt");
}

#[test]
fn status_staged_and_transient_add() {
    let records = parse_status("M  x.rs\n A y.rs");
    assert_eq!(records.len(), 2);
    assert_eq!(records[0].category, ChangeCategory::Staged);
    assert_eq!(records[0].filename, "x.rs");
    assert_eq!(records[1].category, ChangeCategory::Added);
    assert_eq!(records[1].filename, "y.rs");
}

#[test]
fn status_unknown_code_and_short_line() {
    let records = parse_status("XY z.txt\nQ");
    assert_eq!(records.len(), 2);
    assert_eq!(records[0].category, ChangeCategory::Unknown);
    assert_eq!(records[0].filename, "z.txt");
    assert_eq!(records[1].category, ChangeCategory::Unknown);
    assert_eq!(records[1].filename, "");
}

#[test]
fn status_filename_is_trimmed() {
    let records = parse_status(" M   spaced name.txt  ");
    assert_eq!(records.len(), 1);
    assert_eq!(records[0].filename, "spaced name.txt");
}

#[test]
fn status_empty_input_gives_no_records() {
    assert!(parse_status("").is_empty());
}

#[test]
fn status_trailing_newline_adds_no_record() {
    let records = parse_status(" M a.txt\n");
    assert_eq!(records.len(), 1);
}

#[test]
fn ahead_behind_both_counters() {
    let counts = parse_ahead_behind("## main...origin/main [ahead 2, behind 1]").unwrap();
    assert_eq!(counts.push, 2);
    assert_eq!(counts.pull, 1);
}

#[test]
fn ahead_behind_absent_counters_default_to_zero() {
    let counts = parse_ahead_behind("## main...origin/main").unwrap();
    assert_eq!(counts.push, 0);
    assert_eq!(counts.pull, 0);
}

#[test]
fn ahead_behind_last_occurrence_wins() {
    let counts = parse_ahead_behind("ahead 2 then later ahead 3").unwrap();
    assert_eq!(counts.push, 3);
    assert_eq!(counts.pull, 0);
}

#[test]
fn ahead_behind_behind_only() {
    let counts = parse_ahead_behind("x behind 12 y").unwrap();
    assert_eq!(counts.push, 0);
    assert_eq!(counts.pull, 12);
}

#[test]
fn ahead_behind_oversized_counter_is_parse_error() {
    let result = parse_ahead_behind("## main [ahead 70000]");
    assert_eq!(result, Err(ParseError::MalformedCount));
}

#[test]
fn ahead_behind_word_without_digits_is_no_match() {
    let counts = parse_ahead_behind("ahead of the rest, behind x").unwrap();
    assert_eq!(counts.push, 0);
    assert_eq!(counts.pull, 0);
}

#[test]
fn log_graph_only_line() {
    let records = parse_log("| * ");
    assert_eq!(records.len(), 1);
    assert_eq!(records[0].graph, "| * ");
    assert_eq!(records[0].hash, "");
    assert_eq!(records[0].author, "");
    assert_eq!(records[0].subject, "");
    assert_eq!(records[0].date, "");
    assert_eq!(records[0].refs, "");
}

#[test]
fn log_fully_delimited_line() {
    let line = "* ___abc123___Alice___Fix bug___2024/01/02 (Tue) 10:00___ (HEAD -> main)";
    let records = parse_log(line);
    assert_eq!(records.len(), 1);
    assert_eq!(records[0].graph, "* ");
    assert_eq!(records[0].hash, "abc123");
    assert_eq!(records[0].author, "Alice");
    assert_eq!(records[0].subject, "Fix bug");
    assert_eq!(records[0].date, "2024/01/02 (Tue) 10:00");
    assert_eq!(records[0].refs, " (HEAD -> main)");
}

#[test]
fn log_partially_delimited_line_leaves_missing_fields_empty() {
    let records = parse_log("*___abc");
    assert_eq!(records.len(), 1);
    assert_eq!(records[0].graph, "*");
    assert_eq!(records[0].hash, "abc");
    assert_eq!(records[0].author, "");
    assert_eq!(records[0].refs, "");
}

#[test]
fn log_mixed_lines_keep_order() {
    let records = parse_log("a___1___x___s___d___r\n|\\ ");
    assert_eq!(records.len(), 2);
    assert_eq!(records[0].hash, "1");
    assert_eq!(records[1].graph, "|\\ ");
    assert_eq!(records[1].hash, "");
}

#[test]
fn show_header_and_body() {
    let record = parse_show("abcdef\nAlice\n2024/01/02\nfirst line\n\nthird line");
    assert_eq!(record.hash, "abcdef");
    assert_eq!(record.author, "Alice");
    assert_eq!(record.date, "2024/01/02");
    assert_eq!(record.message, "first line\n\nthird line");
}

#[test]
fn show_short_input_leaves_fields_empty() {
    let record = parse_show("h\nA");
    assert_eq!(record.hash, "h");
    assert_eq!(record.author, "A");
    assert_eq!(record.date, "");
    assert_eq!(record.message, "");
}

#[test]
fn show_files_single_letter_codes() {
    let records = parse_show_files("M\ta.txt\nD\tb.txt\nA\tc.txt\nX\td.txt");
    assert_eq!(records.len(), 4);
    assert_eq!(records[0].category, ChangeCategory::Modified);
    assert_eq!(records[0].filename, "a.txt");
    assert_eq!(records[1].category, ChangeCategory::Deleted);
    assert_eq!(records[2].category, ChangeCategory::Added);
    assert_eq!(records[3].category, ChangeCategory::Unknown);
    assert_eq!(records[3].filename, "d.txt");
}

#[test]
fn branch_listing_classifies_and_filters() {
    let text = "* main\n  feature/x\n  remotes/origin/dev\n  remotes/origin/HEAD -> origin/main";
    let records = parse_branches(text);
    assert_eq!(records.len(), 3);
    assert_eq!(records[0].name, "main");
    assert_eq!(records[0].classification, BranchClassification::Current);
    assert_eq!(records[1].name, "feature/x");
    assert_eq!(records[1].classification, BranchClassification::Default);
    assert_eq!(records[2].name, "remotes/origin/dev");
    assert_eq!(records[2].classification, BranchClassification::Remote);
}

#[test]
fn branch_short_line_gives_empty_default_name() {
    let records = parse_branches("x");
    assert_eq!(records.len(), 1);
    assert_eq!(records[0].name, "");
    assert_eq!(records[0].classification, BranchClassification::Default);
}
