//! Chunked scanning of delimited-text datasets for data-quality defects: empty fields,
//! whitespace-only fields and null-like tokens, counted per column and chunk and folded into
//! run-level totals.
pub mod aggregator;
pub mod args;
pub mod checks;
pub mod chunker;
pub mod formatter;
pub mod processor;
pub mod report;
pub mod run;
pub mod tables;
pub mod text;
pub mod totals;

pub use aggregator::{aggregate_results, ColumnStats, CsvAggregator, ProcessingTime};
pub use args::{ArgsError, ArgsErrorKind, PathError, TrueSightCsvArgs};
pub use checks::{CheckKind, EmptyCheck, NullLikeCheck, PatternCheck, WhiteSpaceOnlyCheck};
pub use chunker::CsvChunkIterator;
pub use formatter::{ConsoleFormatter, SparkStyleFormatter};
pub use processor::{process_record, process_single_chunk, ChunkProcessingResult, Record, RecordFindings};
pub use report::percentage_scaled;
pub use run::{process_csv_chunks, ChunkRun, ProcessingConfig, RunState, ScanError, SourceEvent};
