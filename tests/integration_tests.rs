use std::path::PathBuf;
use true_sight_csv::checks::field_matches;
use true_sight_csv::CheckKind;
use true_sight_csv::{
    aggregate_results, percentage_scaled, process_single_chunk, ChunkProcessingResult, ChunkRun,
    CsvAggregator, CsvChunkIterator, EmptyCheck, NullLikeCheck, PatternCheck, ProcessingConfig,
    ProcessingTime, RunState, ScanError, SourceEvent, WhiteSpaceOnlyCheck,
};

fn record(fields: &[&str]) -> Vec<String> {
    fields.iter().map(|f| f.to_string()).collect()
}

fn headers(names: &[&str]) -> Vec<String> {
    names.iter().map(|f| f.to_string()).collect()
}

fn feed(run: &mut ChunkRun, records: Vec<Vec<String>>) {
    for r in records {
        assert_eq!(run.step(SourceEvent::Record(r)), Ok(false));
    }
}

#[test]
fn test_path_printing() {
    let mut test_path = PathBuf::from(".");
    test_path.push("tests");
    test_path.push("sample-warehouse-data.csv");
    println!("{:?}", test_path);
    println!("{}", test_path.display());
}

#[test]
fn test_null_like_checks() {
    let null_check = NullLikeCheck::new();

    for &null_value in &NullLikeCheck::NULL_LIKE_VALUES {
        assert!(null_check.check(&null_value))
    }
}

#[test]
fn test_empty_checks() {
    let empty_check = EmptyCheck::new();

    assert!(empty_check.check(""));
    assert_ne!(empty_check.check(" "), true)
}

#[test]
fn test_white_space_only_check() {
    let white_space_only = WhiteSpaceOnlyCheck::new();

    assert!(white_space_only.check("         "))
}

#[test]
fn null_like_matches_case_and_trim_variants() {
    let c = NullLikeCheck::new();
    for v in ["NULL", "  null  ", "N/A", "NA", "None", "NaN", "n/a", "\tnone\n", "nan"] {
        assert!(c.check(v), "{:?} should be null-like", v);
    }
    for v in ["nullable", "", "   ", "NUL", "N A", "0", "null value"] {
        assert!(!c.check(v), "{:?} should not be null-like", v);
    }
}

#[test]
fn empty_and_whitespace_are_disjoint() {
    let e = EmptyCheck::new();
    let w = WhiteSpaceOnlyCheck::new();
    assert!(e.check(""));
    assert!(!w.check(""));
    assert!(w.check("   "));
    assert!(!e.check("   "));
    assert!(w.check("\t \n"));
    assert!(w.check("\u{a0}"));
    assert!(!w.check(" x "));
}

#[test]
fn check_names_and_patterns() {
    assert_eq!(EmptyCheck::new().name(), "Empty");
    assert_eq!(WhiteSpaceOnlyCheck::new().name(), "WhiteSpaceOnlyCheck");
    assert_eq!(NullLikeCheck::new().name(), "NULL_LIKE_VALUES");
    assert_eq!(NullLikeCheck::new().show_check_pattern(), "NULL, N/A, NA, None, NaN");
    assert_eq!(EmptyCheck::new().show_check_pattern(), "Empty string \"\"");
}

fn sample_chunk() -> Vec<Vec<String>> {
    vec![
        record(&["1", "", "NULL"]),
        record(&["", "  ", "x"]),
        record(&["n/a", "", ""]),
        record(&["4", "y"]),
        record(&["5", "z", "w", ""]),
    ]
}

#[test]
fn chunk_counts_per_column() {
    let recs = sample_chunk();
    let r = process_single_chunk(&recs, 7, &NullLikeCheck::new(), &EmptyCheck::new(), &WhiteSpaceOnlyCheck::new(), false);
    assert_eq!(r.chunk_number, 7);
    assert_eq!(r.rows_processed, 5);
    assert_eq!(r.empty_counts.len(), 4);
    assert_eq!(r.empty_counts[&0], 1);
    assert_eq!(r.empty_counts[&1], 2);
    assert_eq!(r.empty_counts[&2], 1);
    assert_eq!(r.empty_counts[&3], 1);
    assert_eq!(r.whitespace_counts.len(), 1);
    assert_eq!(r.whitespace_counts[&1], 1);
    assert_eq!(r.null_counts.len(), 2);
    assert_eq!(r.null_counts[&0], 1);
    assert_eq!(r.null_counts[&2], 1);
}

#[test]
fn parallel_and_sequential_agree() {
    let mut recs = sample_chunk();
    for i in 0..500 {
        let v = if i % 3 == 0 { "" } else if i % 3 == 1 { " NA " } else { "ok" };
        recs.push(record(&[v, "  ", &i.to_string()]));
    }
    let a = process_single_chunk(&recs, 1, &NullLikeCheck::new(), &EmptyCheck::new(), &WhiteSpaceOnlyCheck::new(), false);
    let b = process_single_chunk(&recs, 1, &NullLikeCheck::new(), &EmptyCheck::new(), &WhiteSpaceOnlyCheck::new(), true);
    assert_eq!(a.rows_processed, b.rows_processed);
    assert_eq!(a.null_counts, b.null_counts);
    assert_eq!(a.empty_counts, b.empty_counts);
    assert_eq!(a.whitespace_counts, b.whitespace_counts);
    assert_eq!(a.whitespace_counts[&1], 501);
}

#[test]
fn twelve_records_in_chunks_of_three() {
    let mut run = ChunkRun::new(headers(&["id"]), ProcessingConfig { chunk_size: 3, enable_parallel: false }).unwrap();
    feed(&mut run, (0..12).map(|i| record(&[&i.to_string()])).collect());
    assert_eq!(run.step(SourceEvent::End), Ok(true));
    let results = run.results();
    assert_eq!(results.len(), 4);
    for (i, r) in results.iter().enumerate() {
        assert_eq!(r.chunk_number, i + 1);
        assert_eq!(r.rows_processed, 3);
    }
    assert_eq!(run.aggregator().total_rows(), 12);
}

#[test]
fn chunk_sizes_follow_ceiling_division() {
    for (n, size, expected) in [(10usize, 4usize, vec![4, 4, 2]), (12, 20, vec![12]), (5, 1, vec![1, 1, 1, 1, 1]), (8, 4, vec![4, 4])] {
        let mut it = CsvChunkIterator::new(size);
        let mut got = Vec::new();
        for i in 0..n {
            if let Some(c) = it.push_record(record(&[&i.to_string()])) {
                got.push(c);
            }
        }
        if let Some(c) = it.finish() {
            got.push(c);
        }
        assert!(it.finish().is_none());
        let lens: Vec<usize> = got.iter().map(|c| c.len()).collect();
        assert_eq!(lens, expected);
        let flat: Vec<String> = got.into_iter().flatten().map(|r| r[0].clone()).collect();
        let want: Vec<String> = (0..n).map(|i| i.to_string()).collect();
        assert_eq!(flat, want);
    }
}

#[test]
fn empty_dataset_gives_zero_state() {
    let mut run = ChunkRun::new(headers(&["a", "b"]), ProcessingConfig::default()).unwrap();
    assert_eq!(run.step(SourceEvent::End), Ok(true));
    assert!(run.results().is_empty());
    let agg = run.aggregator();
    assert_eq!(agg.total_rows(), 0);
    assert_eq!(percentage_scaled(0, 0, 2), 0);
    let report = agg.generate_report();
    assert!(report.contains("Total rows processed: 0\n"));
    assert!(report.contains("  Empty values: 0 (0.00%)\n"));
    assert!(!report.contains("NaN"));
}

#[test]
fn zero_chunk_size_is_rejected() {
    let r = ChunkRun::new(headers(&["a"]), ProcessingConfig { chunk_size: 0, enable_parallel: true });
    assert!(matches!(r, Err(ScanError::ConfigurationError)));
}

#[test]
fn read_error_fails_the_run() {
    let mut run = ChunkRun::new(headers(&["a"]), ProcessingConfig { chunk_size: 2, enable_parallel: false }).unwrap();
    feed(&mut run, vec![record(&["1"]), record(&["2"]), record(&["3"])]);
    let e = run.step(SourceEvent::ReadError("bad record 4".to_string()));
    assert_eq!(e, Err(ScanError::SourceReadError { chunk_number: 2, message: "bad record 4".to_string() }));
    assert_eq!(run.results().len(), 1);
}

#[test]
fn default_config() {
    let c = ProcessingConfig::default();
    assert_eq!(c.chunk_size, 1_000_000);
    assert!(c.enable_parallel);
    assert_eq!(RunState::Done, RunState::Done);
}

fn result(rows: usize, nulls: &[(usize, usize)], empties: &[(usize, usize)], blanks: &[(usize, usize)]) -> ChunkProcessingResult {
    ChunkProcessingResult {
        chunk_number: 1,
        rows_processed: rows,
        null_counts: nulls.iter().copied().collect(),
        empty_counts: empties.iter().copied().collect(),
        whitespace_counts: blanks.iter().copied().collect(),
    }
}

#[test]
fn column_percentages_ten_thirty_sixty() {
    let r = result(100, &[], &[(0, 10), (1, 30), (2, 60)], &[]);
    let mut agg = CsvAggregator::new(headers(&["col1", "col2", "col3"]), 100);
    agg.add_chunk_results(&r.null_counts, &r.empty_counts, &r.whitespace_counts, r.rows_processed);
    assert_eq!(agg.column_total(CheckKind::Empty, 0), 10);
    assert_eq!(agg.column_total(CheckKind::Empty, 1), 30);
    assert_eq!(agg.column_total(CheckKind::Empty, 2), 60);
    assert_eq!(percentage_scaled(10, 100, 1), 100);
    assert_eq!(percentage_scaled(30, 100, 1), 300);
    assert_eq!(percentage_scaled(60, 100, 1), 600);
    let report = agg.generate_report();
    assert!(report.contains("col_0 ('col1'):\n  NULL-like values: 0 (0.00%)\n  Empty values: 10 (10.00%)\n"));
    assert!(report.contains("  Empty values: 30 (30.00%)\n"));
    assert!(report.contains("  Empty values: 60 (60.00%)\n"));
}

#[test]
fn percentages_round_half_to_even() {
    assert_eq!(percentage_scaled(20, 300, 3), 6667);
    assert_eq!(percentage_scaled(2, 300, 3), 667);
    assert_eq!(percentage_scaled(1, 16, 1), 62);
    assert_eq!(percentage_scaled(3, 16, 1), 188);
    assert_eq!(percentage_scaled(1, 3, 0), 33);
}

#[test]
fn fold_order_does_not_matter() {
    let a = result(5, &[(0, 1)], &[(1, 2), (3, 1)], &[]);
    let b = result(7, &[(0, 3), (2, 2)], &[(1, 1)], &[(2, 4)]);
    let c = result(2, &[], &[], &[(0, 2)]);
    let hs = headers(&["a", "b", "c"]);
    let mut x = CsvAggregator::new(hs.clone(), 5);
    let mut y = CsvAggregator::new(hs, 5);
    for r in [&a, &b, &c] {
        x.add_chunk_results(&r.null_counts, &r.empty_counts, &r.whitespace_counts, r.rows_processed);
    }
    for r in [&c, &a, &b] {
        y.add_chunk_results(&r.null_counts, &r.empty_counts, &r.whitespace_counts, r.rows_processed);
    }
    assert_eq!(x.total_rows(), 14);
    assert_eq!(x.total_rows(), y.total_rows());
    for k in [CheckKind::NullLike, CheckKind::Empty, CheckKind::WhitespaceOnly] {
        for col in 0..4 {
            assert_eq!(x.column_total(k, col), y.column_total(k, col));
        }
    }
    assert_eq!(x.column_total(CheckKind::NullLike, 0), 4);
    assert_eq!(x.column_total(CheckKind::Empty, 3), 0);
    let mut u = CsvAggregator::new(headers(&["a", "b", "c"]), 5);
    let mut v = CsvAggregator::new(headers(&["a", "b", "c"]), 5);
    u.add_all_chunk_results(&[a.clone(), b.clone(), c.clone()]);
    v.add_all_chunk_results(&[b.clone(), c.clone(), a.clone()]);
    assert_eq!(u.total_rows(), 14);
    assert_eq!(v.total_rows(), 14);
    assert_eq!(u.column_total(CheckKind::WhitespaceOnly, 2), 4);
    assert_eq!(v.column_total(CheckKind::WhitespaceOnly, 2), 4);
    assert_eq!(u.column_total(CheckKind::Empty, 1), v.column_total(CheckKind::Empty, 1));
    let (n1, e1, w1, t1) = aggregate_results(&[a.clone(), b.clone(), c.clone()]);
    let (n2, e2, w2, t2) = aggregate_results(&[c, b, a]);
    assert_eq!((n1.clone(), e1.clone(), w1.clone(), t1), (n2, e2, w2, t2));
    assert_eq!(t1, 14);
    assert_eq!(e1[&3], 1);
    assert_eq!(n1[&2], 2);
}

#[test]
fn run_total_rows_match_records() {
    let mut run = ChunkRun::new(headers(&["a", "b"]), ProcessingConfig { chunk_size: 4, enable_parallel: true }).unwrap();
    feed(&mut run, (0..10).map(|i| record(&[if i % 2 == 0 { "" } else { "NULL" }, " "])).collect());
    assert_eq!(run.step(SourceEvent::End), Ok(true));
    let (results, agg) = run.into_parts();
    assert_eq!(results.len(), 3);
    assert_eq!(results.iter().map(|r| r.rows_processed).sum::<usize>(), 10);
    assert_eq!(agg.total_rows(), 10);
    assert_eq!(agg.column_total(CheckKind::Empty, 0), 5);
    assert_eq!(agg.column_total(CheckKind::NullLike, 0), 5);
    assert_eq!(agg.column_total(CheckKind::WhitespaceOnly, 1), 10);
}

#[test]
fn report_with_processing_time() {
    let r = result(3, &[(0, 1)], &[], &[]);
    let mut agg = CsvAggregator::new(headers(&["id"]), 3);
    agg.add_chunk_results(&r.null_counts, &r.empty_counts, &r.whitespace_counts, r.rows_processed);
    agg.set_processing_time(ProcessingTime::new(125, 500));
    let report = agg.generate_report();
    let expected = "\n=== CSV QUALITY REPORT ===\nTotal rows processed: 3\nTotal columns: 1\n\nChunk size used: 3 rows\nProcessing time: 2m 5s 500ms\nProcessing rate: 0.02 rows/second\nCOLUMN STATISTICS:\ncol_0 ('id'):\n  NULL-like values: 1 (33.33%)\n  Empty values: 0 (0.00%)\n  White-Space-Only values: 0 (0.00%)\n\n";
    assert_eq!(report, expected);
    agg.set_processing_time(ProcessingTime::new(0, 0));
    assert!(agg.generate_report().contains("Processing time: 0s 0ms\nProcessing rate: 0.00 rows/second\nCOLUMN STATISTICS:"));
}

#[test]
fn columns_beyond_headers_are_ignored_by_the_aggregate() {
    let r = result(2, &[(5, 2)], &[(1, 1)], &[]);
    let mut agg = CsvAggregator::new(headers(&["a", "b"]), 2);
    agg.add_chunk_results(&r.null_counts, &r.empty_counts, &r.whitespace_counts, r.rows_processed);
    assert_eq!(agg.column_total(CheckKind::NullLike, 5), 0);
    assert_eq!(agg.column_total(CheckKind::Empty, 1), 1);
    assert_eq!(agg.headers().len(), 2);
    assert_eq!(agg.chunk_size(), 2);
}

#[test]
fn whole_run_over_twelve_records() {
    let source: Vec<Result<Vec<String>, String>> = (0..12)
        .map(|i| Ok(record(&[&i.to_string(), if i % 4 == 0 { "NULL" } else { "v" }, ""])))
        .collect();
    let run = true_sight_csv::process_csv_chunks(headers(&["id", "v", "e"]), source, ProcessingConfig { chunk_size: 3, enable_parallel: true }).unwrap();
    assert_eq!(run.results().len(), 4);
    for (i, r) in run.results().iter().enumerate() {
        assert_eq!(r.chunk_number, i + 1);
        assert_eq!(r.rows_processed, 3);
    }
    let agg = run.aggregator();
    assert_eq!(agg.total_rows(), 12);
    assert_eq!(agg.column_total(CheckKind::NullLike, 1), 3);
    assert_eq!(agg.column_total(CheckKind::Empty, 2), 12);
}

#[test]
fn whole_run_stops_at_first_read_error() {
    let mut source: Vec<Result<Vec<String>, String>> = (0..7).map(|i| Ok(record(&[&i.to_string()]))).collect();
    source.push(Err("line 9: bad quote".to_string()));
    source.push(Ok(record(&["after"])));
    source.push(Err("never reached".to_string()));
    let r = true_sight_csv::process_csv_chunks(headers(&["id"]), source, ProcessingConfig { chunk_size: 3, enable_parallel: false });
    assert_eq!(r.err(), Some(ScanError::SourceReadError { chunk_number: 3, message: "line 9: bad quote".to_string() }));
    let r = true_sight_csv::process_csv_chunks(headers(&["id"]), Vec::new(), ProcessingConfig { chunk_size: 0, enable_parallel: false });
    assert_eq!(r.err(), Some(ScanError::ConfigurationError));
}

#[test]
fn whole_run_over_no_records() {
    let run = true_sight_csv::process_csv_chunks(headers(&["a"]), Vec::new(), ProcessingConfig::default()).unwrap();
    assert!(run.results().is_empty());
    assert_eq!(run.aggregator().total_rows(), 0);
}

#[test]
fn single_dispatch_matches_each_check() {
    assert!(field_matches(CheckKind::Empty, ""));
    assert!(!field_matches(CheckKind::Empty, " "));
    assert!(field_matches(CheckKind::WhitespaceOnly, " \t"));
    assert!(field_matches(CheckKind::NullLike, " none "));
    assert!(!field_matches(CheckKind::NullLike, "nullable"));
}

// Built on twelve in-memory records: the csv fixture of the same name is not part of this crate.
#[test]
fn test_process_csv_chunks() {
    let found_headers = headers(&["customer_id", "order_date", "product_sku"]);
    let source: Vec<Result<Vec<String>, String>> = (0..12)
        .map(|i| Ok(record(&[&(1001 + i).to_string(), if i % 3 == 0 { "" } else { "1/15/2024" }, if i % 4 == 0 { "NULL" } else { "SKU1" }])))
        .collect();
    let chunk_size = 3;
    let config = ProcessingConfig { chunk_size, enable_parallel: false };
    let run = true_sight_csv::process_csv_chunks(found_headers, source, config).unwrap();
    let results = run.results();

    assert_eq!(results.len(), 4);
    assert_eq!(results[0].chunk_number, 1);
    assert_eq!(results[0].rows_processed, 3);
    for (i, r) in results.iter().enumerate() {
        assert_eq!(r.chunk_number, i + 1);
        assert_eq!(r.rows_processed, 3);
    }
    let total_empty_found: usize = results.iter().map(|r| r.empty_counts.values().sum::<usize>()).sum();
    assert_eq!(total_empty_found, 4);
    let total_null_found: usize = results.iter().map(|r| r.null_counts.values().sum::<usize>()).sum();
    assert_eq!(total_null_found, 3);
}
