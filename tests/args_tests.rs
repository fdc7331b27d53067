use true_sight_csv::{ArgsErrorKind, PathError, TrueSightCsvArgs};

#[test]
fn test_is_parallel_enabled() {
    let args = TrueSightCsvArgs::try_parse_from(&["prog", "data.csv"]).unwrap();
    assert!(args.is_parallel_enabled());

    let args = TrueSightCsvArgs::try_parse_from(&["prog", "data.csv", "--disable-parallel"]).unwrap();
    assert!(!args.is_parallel_enabled());
}

#[test]
fn test_default_values() {
    let args = TrueSightCsvArgs::try_parse_from(&["prog", "data.csv"]).unwrap();
    assert_eq!(args.row_chunk_size, 1_000_000);
    assert_eq!(args.disable_parallel, false);
}

#[test]
fn test_custom_chunk_size() {
    let args = TrueSightCsvArgs::try_parse_from(&["prog", "data.csv", "--row-chunk-size", "500000"]).unwrap();
    assert_eq!(args.row_chunk_size, 500_000);
    assert_eq!(args.disable_parallel, false);
}

#[test]
fn test_disable_parallel() {
    let args = TrueSightCsvArgs::try_parse_from(&["prog", "data.csv", "--disable-parallel"]).unwrap();
    assert_eq!(args.row_chunk_size, 1_000_000);
    assert_eq!(args.disable_parallel, true);
}

#[test]
fn test_both_custom_values() {
    let args = TrueSightCsvArgs::try_parse_from(&[
        "prog",
        "data.csv",
        "--row-chunk-size",
        "100",
        "--disable-parallel",
    ])
    .unwrap();
    assert_eq!(args.row_chunk_size, 100);
    assert_eq!(args.disable_parallel, true);
}

#[test]
fn argument_forms_and_errors() {
    let a = TrueSightCsvArgs::try_parse_from(&["prog", "--row-chunk-size=42", "x.csv"]).unwrap();
    assert_eq!(a.row_chunk_size, 42);
    assert_eq!(a.file_full_path, "x.csv");
    let a = TrueSightCsvArgs::try_parse_from(&["prog", "--", "-odd.csv"]).unwrap();
    assert_eq!(a.file_full_path, "-odd.csv");
    let kind = |v: &[&str]| TrueSightCsvArgs::try_parse_from(v).unwrap_err().kind;
    assert_eq!(kind(&["prog"]), ArgsErrorKind::MissingPath);
    assert_eq!(kind(&["prog", "a.csv", "--row-chunk-size"]), ArgsErrorKind::MissingValue);
    assert_eq!(kind(&["prog", "a.csv", "--row-chunk-size", "--disable-parallel"]), ArgsErrorKind::MissingValue);
    assert_eq!(kind(&["prog", "a.csv", "--row-chunk-size", "12x"]), ArgsErrorKind::InvalidValue);
    assert_eq!(kind(&["prog", "a.csv", "--row-chunk-size", "99999999999999999999999"]), ArgsErrorKind::InvalidValue);
    assert_eq!(kind(&["prog", "a.csv", "--disable-parallel", "--disable-parallel"]), ArgsErrorKind::RepeatedOption);
    assert_eq!(kind(&["prog", "a.csv", "b.csv"]), ArgsErrorKind::UnexpectedArgument);
    assert_eq!(kind(&["prog", "a.csv", "--fast"]), ArgsErrorKind::UnexpectedArgument);
    assert_eq!(kind(&["prog", "--help"]), ArgsErrorKind::InfoRequested);
    let e = TrueSightCsvArgs::try_parse_from(&["prog", "a.csv", "--row-chunk-size=abc"]).unwrap_err();
    assert_eq!(e.argument, "abc");
    assert_eq!(TrueSightCsvArgs::try_parse_from(&["prog", "a.csv", "--row-chunk-size", "+7"]).unwrap().row_chunk_size, 7);
}

#[test]
fn csv_path_validation() {
    let a = TrueSightCsvArgs::try_parse_from(&["prog", "dir/data.csv"]).unwrap();
    assert_eq!(a.validate_csv_path(true, true), Ok(&"dir/data.csv".to_string()));
    assert_eq!(a.validate_csv_path(false, true), Err(PathError::NotFound));
    assert_eq!(a.validate_csv_path(true, false), Err(PathError::NotAFile));
    for p in ["data.txt", "data", ".csv", "data.CSV", "data.csv.gz"] {
        let a = TrueSightCsvArgs::try_parse_from(&["prog", p]).unwrap();
        assert_eq!(a.validate_csv_path(true, true), Err(PathError::NotCsv), "{}", p);
    }
}

#[test]
fn path_error_messages() {
    assert_eq!(PathError::NotFound.message("a/b.csv"), "File does not exist: a/b.csv");
    assert_eq!(PathError::NotAFile.message("dir"), "Path exists but is not a file: dir");
    assert_eq!(PathError::NotCsv.message("x.txt"), "File must be a csv: x.txt");
}
