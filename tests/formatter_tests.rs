use std::collections::HashMap;
use true_sight_csv::{ChunkProcessingResult, CheckKind, ConsoleFormatter, SparkStyleFormatter};

#[test]
fn test_percentage_calculations() {
    let results = vec![ChunkProcessingResult {
        chunk_number: 1,
        rows_processed: 100,
        null_counts: [(0, 5), (1, 15)].into_iter().collect(),
        empty_counts: [(0, 10), (1, 30), (2, 60)].into_iter().collect(),
        whitespace_counts: [(0, 2)].into_iter().collect(),
    }];

    let headers = vec!["col1".to_string(), "col2".to_string(), "col3".to_string()];
    let formatter = SparkStyleFormatter::new();
    let output = formatter.format_chunk_results(&results, &headers);

    assert!(output.contains("6.667%"));
    assert!(output.contains("33.333%"));
    assert!(output.contains("0.667%"));

    println!("{}", output);
}

#[test]
fn test_empty_values_dont_exceed_100_percent() {
    let results = vec![ChunkProcessingResult {
        chunk_number: 1,
        rows_processed: 1000,
        null_counts: HashMap::new(),
        empty_counts: [(0, 900), (1, 800), (2, 700)].into_iter().collect(),
        whitespace_counts: HashMap::new(),
    }];

    let headers = vec!["col1".to_string(), "col2".to_string(), "col3".to_string()];
    let formatter = SparkStyleFormatter::new();
    let output = formatter.format_chunk_results(&results, &headers);

    assert!(output.contains("80.0%"));
    assert!(output.contains("90.0%"));
    assert!(output.contains("80.0%"));
    assert!(output.contains("70.0%"));

    assert!(!output.contains("240.0%"));
    assert!(!output.contains("632.0%"));

    println!("Fixed output:\n{}", output);
}

#[test]
fn column_relative_percentages_in_tables() {
    let results = vec![ChunkProcessingResult {
        chunk_number: 1,
        rows_processed: 100,
        null_counts: HashMap::new(),
        empty_counts: [(0, 10), (1, 30), (2, 60)].into_iter().collect(),
        whitespace_counts: HashMap::new(),
    }];
    let headers = vec!["col1".to_string(), "col2".to_string(), "col3".to_string()];
    let output = SparkStyleFormatter::new().format_chunk_results(&results, &headers);
    assert!(output.contains(" 10.0% |"), "{}", output);
    assert!(output.contains(" 30.0% |"), "{}", output);
    assert!(output.contains(" 60.0% |"), "{}", output);
    assert!(output.contains("|          10 |          10.0% |          10.000% |\n"), "{}", output);
    assert!(output.contains("Total empty values: 100 (33.333% of all cells in dataset)\n"));
}

#[test]
fn empty_run_renders_zero_percentages() {
    let headers = vec!["a".to_string()];
    let output = SparkStyleFormatter::new().format_chunk_results(&[], &headers);
    assert!(output.starts_with("=== PROCESSING SUMMARY ===\n"));
    assert!(output.contains("| NULL-like Values  |     0 |         0.000% |\n"), "{}", output);
    assert!(output.contains("Dataset: 0 rows × 1 columns = 0 total cells\n"));
    assert!(output.contains("| Total Cells       |     0 |         0.000% |\n"), "{}", output);
    assert!(!output.contains("100.000%"), "{}", output);
    assert!(!output.contains("NaN"));
}

#[test]
fn summary_table_layout() {
    let results = vec![ChunkProcessingResult {
        chunk_number: 1,
        rows_processed: 4,
        null_counts: [(0, 1)].into_iter().collect(),
        empty_counts: HashMap::new(),
        whitespace_counts: HashMap::new(),
    }];
    let headers = vec!["id".to_string(), "name".to_string()];
    let output = SparkStyleFormatter::new().format_chunk_results(&results, &headers);
    let expected = "=== PROCESSING SUMMARY ===\n\
+-------------------+-------+----------------+\n\
|      Metric       | Count | % of All Cells |\n\
+-------------------+-------+----------------+\n\
| Total Rows        |     4 | -              |\n\
| Total Chunks      |     1 | -              |\n\
| Total Cells       |     8 |       100.000% |\n\
| NULL-like Values  |     1 |        12.500% |\n";
    assert!(output.starts_with(expected), "{}", output);
    assert!(output.contains("Total null-like values: 1 (12.500% of all cells in dataset)\n"), "{}", output);
}

#[test]
fn truncation_of_long_names() {
    let results = vec![ChunkProcessingResult {
        chunk_number: 1,
        rows_processed: 1,
        null_counts: HashMap::new(),
        empty_counts: HashMap::new(),
        whitespace_counts: HashMap::new(),
    }];
    let headers = vec!["a_very_long_column_name_indeed".to_string()];
    let narrow = SparkStyleFormatter::new().with_max_width(10);
    let output = narrow.format_chunk_results(&results, &headers);
    assert!(output.contains("a_very_..."), "{}", output);
    assert!(!output.contains("a_very_long"), "{}", output);
}

#[test]
fn console_lines() {
    let c = ConsoleFormatter::new();
    let headers = vec!["id".to_string()];
    assert_eq!(c.finding_line(CheckKind::NullLike, 0, &headers, 3), "   col_0 column_name=id: 3 NULL-like values");
    assert_eq!(c.finding_line(CheckKind::Empty, 4, &headers, 12), "   col_4 column_name=Unknown Column: 12 empty values");
    assert_eq!(c.finding_line(CheckKind::WhitespaceOnly, 0, &headers, 1), "   col_0 column_name=id: 1 white space only values");
    let (a, b) = c.chunk_heading(2, 30);
    assert_eq!(a, "\nProcessed chunk #2 with 30 rows");
    assert_eq!(b, "--- Statistics for chunk 2:");
}

#[test]
fn summary_counts_columns_beyond_the_header() {
    let results = vec![ChunkProcessingResult {
        chunk_number: 1,
        rows_processed: 1,
        null_counts: [(1, 1)].into_iter().collect(),
        empty_counts: HashMap::new(),
        whitespace_counts: HashMap::new(),
    }];
    let headers = vec!["a".to_string()];
    let output = SparkStyleFormatter::new().format_chunk_results(&results, &headers);
    assert!(output.contains("| NULL-like Values  |     1 |       100.000% |\n"), "{}", output);
    assert!(output.contains("Total null-like values: 1 (100.000% of all cells in dataset)\n"), "{}", output);
}

#[test]
fn issue_shares_use_every_column() {
    let results = vec![ChunkProcessingResult {
        chunk_number: 1,
        rows_processed: 2,
        null_counts: [(0, 1), (1, 1)].into_iter().collect(),
        empty_counts: HashMap::new(),
        whitespace_counts: HashMap::new(),
    }];
    let headers = vec!["a".to_string()];
    let output = SparkStyleFormatter::new().format_chunk_results(&results, &headers);
    assert!(output.contains("|      0 | a           |               1 |              50.0% |"), "{}", output);
    assert!(output.contains("Total null-like values: 2 (100.000% of all cells in dataset)\n"), "{}", output);
}
