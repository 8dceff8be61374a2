use prokuro::parser::corpus::{
    batch_report, compare_result, confidence_label, error_can_be_cut, file_verdict, render_table,
    synonym_report, truncate_error, unparsed_verdict, Expected, FileResult, MatchResult,
};
use prokuro::parser::pipeline::parse_file;
use prokuro::tally::ranking;

fn texts(cells: &[&str]) -> Vec<String> {
    cells.iter().map(|cell| cell.to_string()).collect()
}

fn file(name: &str, ext: &str, confidence: u32, error: Option<&str>, headers: &[&str]) -> FileResult {
    FileResult {
        filename: name.to_string(),
        ext: ext.to_string(),
        confidence,
        warn_count: 2,
        match_label: confidence_label(confidence).to_string(),
        error: error.map(str::to_string),
        headers: texts(headers),
    }
}

fn batch() -> Vec<FileResult> {
    vec![
        file("a.csv", "csv", 70, None, &["mpn", "Colour"]),
        file("b.xlsx", "xlsx", 40, None, &["mpn", "Colour"]),
        file("c.csv", "csv", 0, Some("internal error: bad. More"), &[]),
        file("d.csv", "csv", 5, None, &["Colour", "Finish"]),
    ]
}

#[test]
fn labels_follow_the_confidence() {
    assert_eq!(confidence_label(50), "ok");
    assert_eq!(confidence_label(49), "low_confidence");
    assert_eq!(confidence_label(30), "low_confidence");
    assert_eq!(confidence_label(29), "very_low_confidence");
}

#[test]
fn table_shows_two_decimals() {
    let table = render_table(&[file("a.csv", "csv", 100, None, &[]), file("b.csv", "csv", 5, None, &[])]);
    assert_eq!(
        table,
        "| filename | confidence | warnings | result |\n|---|---|---|---|\n| a.csv | 1.00 | 2 | ok |\n| b.csv | 0.05 | 2 | very_low_confidence |\n"
    );
}

#[test]
fn errors_are_cut_after_the_first_sentence() {
    assert_eq!(truncate_error(" bad file . really"), "bad file");
    let long = "x".repeat(100);
    assert_eq!(truncate_error(&long), "x".repeat(80));
    let split = format!("{}é", "x".repeat(79));
    assert!(!error_can_be_cut(&split));
    assert!(error_can_be_cut(&long));
}

#[test]
fn ranking_puts_frequent_texts_first() {
    let ranked = ranking(&texts(&["b", "a", "c", "a", "b"]));
    let seen: Vec<(&str, usize)> = ranked.iter().map(|t| (t.name.as_str(), t.count)).collect();
    assert_eq!(seen, vec![("a", 2), ("b", 2), ("c", 1)]);
}

#[test]
fn batch_report_counts_files() {
    let report = batch_report(&batch());
    let expected = "# Batch Parse Results\n\n**Total files attempted:** 4\n\n\
        **Parsed successfully** (confidence > 0.5): 1\n\n**Low confidence** (0.3–0.5): 1\n\n\
        **Failed** (error or confidence < 0.3): 2\n\n## File Type Distribution\n\n\
        | Extension | Count |\n|---|---|\n| .csv | 3 |\n| .xlsx | 1 |\n\
        \n## Most Common Failure Reasons\n\n| Reason | Count |\n|---|---|\n\
        | internal error: bad | 1 |\n| very low mapping confidence | 1 |\n\
        \n## Top 10 Column Header Patterns\n\n| Header | Files |\n|---|---|\n\
        | `Colour` | 3 |\n| `mpn` | 2 |\n| `Finish` | 1 |\n\
        \n## Failed File Samples\n\n- **c.csv**: internal error: bad. More\n";
    assert_eq!(report, expected);
}

#[test]
fn empty_batch_has_empty_tables() {
    let report = batch_report(&[]);
    assert!(report.contains("**Total files attempted:** 0\n"));
    assert!(report.contains("| Reason | Count |\n|---|---|\n| *(none)* | — |\n"));
    assert!(report.ends_with("*(no hard failures)*\n"));
}

#[test]
fn gaps_are_frequent_unknown_headers() {
    let synonyms = vec![texts(&["MPN"])];
    let report = synonym_report(&batch(), &synonyms);
    assert!(report.ends_with("|---|---|\n| `Colour` | 3 |\n"));
    let report = synonym_report(&batch(), &[texts(&["Colour"])]);
    assert!(report.contains("| `Colour` | 3 |"));
    let report = synonym_report(&[], &synonyms);
    assert!(report.ends_with("| *(no gaps found)* | — |\n"));
}

#[test]
fn verdicts_follow_the_comparison() {
    let fail = Some(MatchResult::Fail(texts(&["headerRowIndex"])));
    assert_eq!(file_verdict(true, &fail, 70), ("ok".to_string(), true));
    assert_eq!(file_verdict(true, &None, 30), ("low_confidence".to_string(), true));
    assert_eq!(file_verdict(true, &None, 29), ("very_low_confidence".to_string(), true));
    assert_eq!(file_verdict(false, &None, 70), ("no_expected".to_string(), true));
    assert_eq!(file_verdict(false, &Some(MatchResult::Pass), 0), ("pass".to_string(), true));
    assert_eq!(file_verdict(false, &fail, 70), ("FAIL".to_string(), false));
    assert_eq!(unparsed_verdict(false, "bad"), ("error: bad".to_string(), false));
    assert_eq!(unparsed_verdict(true, "bad"), ("error: bad".to_string(), true));
}

#[test]
fn differences_from_the_expected_are_listed() {
    let result = parse_file(b"mpn,qty\nA1,2\n", "a.csv").unwrap();
    let good = Expected {
        header_row_index: 0,
        sheet_name: None,
        column_mapping: vec![("mpn".to_string(), "mpn".to_string())],
    };
    assert!(matches!(compare_result(&result, &good), MatchResult::Pass));
    let bad = Expected {
        header_row_index: 3,
        sheet_name: Some("BOM".to_string()),
        column_mapping: vec![
            ("Maker".to_string(), "manufacturer".to_string()),
            ("Shelf".to_string(), "shelf".to_string()),
        ],
    };
    match compare_result(&result, &bad) {
        MatchResult::Fail(messages) => assert_eq!(
            messages,
            vec![
                "headerRowIndex: got 0 want 3",
                "sheetName: got None want \"BOM\"",
                "missing mapping key 'Maker' → 'manufacturer'",
            ]
        ),
        MatchResult::Pass => panic!("should differ"),
    }
}
