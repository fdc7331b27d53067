//! Run orchestration: pulls records into batches, scans each batch and folds its result.
use crate::aggregator::{folds_to, lemma_sum_push, result_bounded, result_counts, sum_counts, sum_rows, CsvAggregator};
use crate::args::DEFAULT_ROW_CHUNK_SIZE;
use crate::checks::{CheckKind, EmptyCheck, NullLikeCheck, WhiteSpaceOnlyCheck};
use crate::chunker::{chunks_of, concat, lemma_concat_push, CsvChunkIterator};
use crate::processor::{
    count_of, is_chunk_result_of, lemma_column_count_bound, process_single_chunk, records_view,
    ChunkProcessingResult, Record,
};
use vstd::arithmetic::div_mod::{lemma_div_multiples_vanish_fancy, lemma_fundamental_div_mod};
use vstd::prelude::*;

verus! {

/// Why a run could not complete.
#[derive(Debug, Clone, PartialEq, Eq)]
pub enum ScanError {
    /// The configuration was rejected before any record was read (a chunk size of zero).
    ConfigurationError,
    /// The record source failed while the given chunk was being assembled.
    SourceReadError { chunk_number: usize, message: String },
}

/// What the record source reports on each pull.
pub enum SourceEvent {
    Record(Record),
    End,
    ReadError(String),
}

/// Where a run stands.
#[derive(Clone, Copy, Debug, PartialEq, Eq, Structural)]
pub enum RunState {
    Reading,
    Done,
    Failed,
}

/// Settings of a run, fixed before it starts.
#[derive(Clone, Copy, Debug, PartialEq, Eq, Structural)]
pub struct ProcessingConfig {
    pub chunk_size: usize,
    pub enable_parallel: bool,
}

impl Default for ProcessingConfig {
    fn default() -> (r: ProcessingConfig)
        ensures
            r.chunk_size == 1_000_000,
            r.enable_parallel,
    {
        ProcessingConfig { chunk_size: DEFAULT_ROW_CHUNK_SIZE, enable_parallel: true }
    }
}

/// One run over a record source: its chunk source, the results of the chunks scanned so far
/// in chunk order, and the aggregate state they were folded into.
pub struct ChunkRun {
    chunker: CsvChunkIterator,
    enable_parallel: bool,
    results: Vec<ChunkProcessingResult>,
    aggregator: CsvAggregator,
    state: RunState,
}

impl ChunkRun {
    pub closed spec fn state(&self) -> RunState {
        self.state
    }

    pub closed spec fn spec_chunk_size(&self) -> nat {
        self.chunker.spec_chunk_size()
    }

    /// Every record taken from the source so far.
    pub closed spec fn consumed(&self) -> Seq<Record> {
        self.chunker.consumed()
    }

    /// Every batch formed so far.
    pub closed spec fn emitted(&self) -> Seq<Seq<Record>> {
        self.chunker.emitted()
    }

    pub closed spec fn spec_results(&self) -> Seq<ChunkProcessingResult> {
        self.results@
    }

    pub closed spec fn spec_aggregator(&self) -> CsvAggregator {
        self.aggregator
    }

    pub closed spec fn wf(&self) -> bool {
        &&& self.chunker.wf()
        &&& self.chunker.is_finished() == (self.state == RunState::Done)
        &&& self.results@.len() == self.chunker.emitted().len()
        &&& forall|i: int| 0 <= i < self.results@.len() ==> is_chunk_result_of(
            #[trigger] self.results@[i],
            records_view(self.chunker.emitted()[i]),
            (i + 1) as usize,
        )
        &&& self.aggregator.wf()
        &&& self.aggregator.spec_chunk_size() == self.chunker.spec_chunk_size()
        &&& self.aggregator.spec_total_rows() == sum_rows(self.results@)
        &&& sum_rows(self.results@) == concat(self.chunker.emitted()).len()
        &&& self.chunker.consumed().len() <= usize::MAX
        &&& self.aggregator.spec_processing_time() is None
        &&& forall|k: CheckKind, col: int| 0 <= col < self.aggregator.spec_headers().len() ==> #[trigger] self.aggregator.spec_total(k, col) == sum_counts(self.results@, k, col as usize)
        &&& forall|k: CheckKind, col: int| !(0 <= col < self.aggregator.spec_headers().len()) ==> #[trigger] self.aggregator.spec_total(k, col) == 0
    }

    /// What a well-formed run has computed: the i-th result is the scan of the i-th batch,
    /// numbered from 1; the batches are those of the records consumed (up to the last full
    /// batch while reading); the aggregate holds the sums of the results.
    pub proof fn lemma_run_facts(&self)
        requires
            self.wf(),
        ensures
            self.spec_chunk_size() > 0,
            self.spec_results().len() == self.emitted().len(),
            forall|i: int| 0 <= i < self.spec_results().len() ==> is_chunk_result_of(
                #[trigger] self.spec_results()[i],
                records_view(self.emitted()[i]),
                (i + 1) as usize,
            ),
            self.state() == RunState::Done ==> self.emitted() == chunks_of(self.consumed(), self.spec_chunk_size()),
            self.state() != RunState::Done ==> self.emitted() == chunks_of(
                self.consumed().take(self.consumed().len() - self.consumed().len() % self.spec_chunk_size()),
                self.spec_chunk_size(),
            ),
            self.spec_aggregator().wf(),
            self.spec_aggregator().spec_total_rows() == sum_rows(self.spec_results()),
            self.state() == RunState::Done ==> sum_rows(self.spec_results()) == self.consumed().len(),
            forall|k: CheckKind, col: int| 0 <= col < self.spec_aggregator().spec_headers().len() ==> #[trigger] self.spec_aggregator().spec_total(k, col) == sum_counts(self.spec_results(), k, col as usize),
    {
        self.chunker.lemma_emitted();
        if self.state == RunState::Done {
            crate::chunker::law_chunk_shape(self.chunker.consumed(), self.chunker.spec_chunk_size());
        }
    }

    /// Starts a run over a source whose header row is `headers`. A chunk size of zero is
    /// rejected before anything is read.
    pub fn new(headers: Vec<String>, config: ProcessingConfig) -> (r: Result<ChunkRun, ScanError>)
        ensures
            config.chunk_size == 0 <==> r is Err,
            r is Err ==> r == Err::<ChunkRun, ScanError>(ScanError::ConfigurationError),
            r matches Ok(run) ==> {
                &&& run.wf()
                &&& run.state() == RunState::Reading
                &&& run.spec_chunk_size() == config.chunk_size
                &&& run.consumed().len() == 0
                &&& run.spec_results().len() == 0
                &&& run.spec_aggregator().spec_headers() == headers@
            },
    {
        if config.chunk_size == 0 {
            return Err(ScanError::ConfigurationError);
        }
        let run = ChunkRun {
            chunker: CsvChunkIterator::new(config.chunk_size),
            enable_parallel: config.enable_parallel,
            results: Vec::new(),
            aggregator: CsvAggregator::new(headers, config.chunk_size),
            state: RunState::Reading,
        };
        proof {
            assert(concat(Seq::<Seq<Record>>::empty()) =~= Seq::<Record>::empty());
        }
        Ok(run)
    }

    /// Scans one batch as the next chunk and folds its result into the aggregate.
    fn absorb(&mut self, chunk: Vec<Record>)
        requires
            old(self).aggregator.wf(),
            old(self).aggregator.spec_processing_time() is None,
            old(self).aggregator.spec_total_rows() == sum_rows(old(self).results@),
            sum_rows(old(self).results@) + chunk@.len() <= usize::MAX,
            forall|k: CheckKind, col: int| 0 <= col < old(self).aggregator.spec_headers().len() ==> #[trigger] old(self).aggregator.spec_total(k, col) == sum_counts(old(self).results@, k, col as usize),
            forall|k: CheckKind, col: int| !(0 <= col < old(self).aggregator.spec_headers().len()) ==> #[trigger] old(self).aggregator.spec_total(k, col) == 0,
            old(self).results@.len() < usize::MAX,
        ensures
            final(self).chunker == old(self).chunker,
            final(self).state == old(self).state,
            final(self).enable_parallel == old(self).enable_parallel,
            final(self).results@.len() == old(self).results@.len() + 1,
            final(self).results@.drop_last() == old(self).results@,
            is_chunk_result_of(final(self).results@.last(), records_view(chunk@), (old(self).results@.len() + 1) as usize),
            final(self).aggregator.wf(),
            final(self).aggregator.spec_processing_time() is None,
            final(self).aggregator.spec_headers() == old(self).aggregator.spec_headers(),
            final(self).aggregator.spec_chunk_size() == old(self).aggregator.spec_chunk_size(),
            final(self).aggregator.spec_total_rows() == sum_rows(final(self).results@),
            sum_rows(final(self).results@) == sum_rows(old(self).results@) + chunk@.len(),
            forall|k: CheckKind, col: int| 0 <= col < final(self).aggregator.spec_headers().len() ==> #[trigger] final(self).aggregator.spec_total(k, col) == sum_counts(final(self).results@, k, col as usize),
            forall|k: CheckKind, col: int| !(0 <= col < final(self).aggregator.spec_headers().len()) ==> #[trigger] final(self).aggregator.spec_total(k, col) == 0,
    {
        let number = self.results.len() + 1;
        let result = process_single_chunk(
            chunk.as_slice(),
            number,
            &NullLikeCheck,
            &EmptyCheck,
            &WhiteSpaceOnlyCheck,
            self.enable_parallel,
        );
        proof {
            let recs = records_view(chunk@);
            assert forall|c: usize, k: CheckKind| #[trigger] crate::processor::column_count(recs, k, c as int) <= chunk@.len() by {
                lemma_column_count_bound(recs, k, c as int);
            }
            assert forall|c: usize| #[trigger] count_of(result.null_counts@, c) <= result.rows_processed by {
                assert(crate::processor::column_count(recs, CheckKind::NullLike, c as int) <= chunk@.len());
            }
            assert forall|c: usize| #[trigger] count_of(result.empty_counts@, c) <= result.rows_processed by {
                assert(crate::processor::column_count(recs, CheckKind::Empty, c as int) <= chunk@.len());
            }
            assert forall|c: usize| #[trigger] count_of(result.whitespace_counts@, c) <= result.rows_processed by {
                assert(crate::processor::column_count(recs, CheckKind::WhitespaceOnly, c as int) <= chunk@.len());
            }
        }
        self.aggregator.add_chunk_results(
            &result.null_counts,
            &result.empty_counts,
            &result.whitespace_counts,
            result.rows_processed,
        );
        let ghost old_results = self.results@;
        self.results.push(result);
        proof {
            lemma_sum_push(old_results, result);
            assert(self.results@.drop_last() =~= old_results);
            assert(self.results@ == old_results.push(result));
            assert forall|k: CheckKind, col: int| 0 <= col < self.aggregator.spec_headers().len() implies #[trigger] self.aggregator.spec_total(k, col) == sum_counts(self.results@, k, col as usize) by {
                let c = col as usize;
                assert(sum_counts(self.results@, k, c) == sum_counts(old_results, k, c) + count_of(result_counts(result, k), c));
                assert(old(self).aggregator.spec_total(k, col) == sum_counts(old_results, k, c));
                assert(self.aggregator.spec_total(CheckKind::NullLike, col) == old(self).aggregator.spec_total(CheckKind::NullLike, col) + count_of(result.null_counts@, c));
            }
        }
    }

    /// Advances the run by one event of the record source.
    /// - A record is added to the batch being assembled; a full batch is scanned and folded.
    /// - The end of the source flushes the last, shorter batch and completes the run.
    /// - A read error fails the run; the batch being assembled is dropped.
    /// Returns `Ok(true)` once the run is complete, `Ok(false)` while it reads on.
    pub fn step(&mut self, event: SourceEvent) -> (r: Result<bool, ScanError>)
        requires
            old(self).wf(),
            old(self).state() == RunState::Reading,
            old(self).consumed().len() < usize::MAX,
        ensures
            final(self).wf(),
            final(self).spec_chunk_size() == old(self).spec_chunk_size(),
            final(self).spec_aggregator().spec_headers() == old(self).spec_aggregator().spec_headers(),
            old(self).spec_results().len() <= final(self).spec_results().len(),
            final(self).spec_results().take(old(self).spec_results().len() as int) == old(self).spec_results(),
            match event {
                SourceEvent::Record(rec) => {
                    &&& r == Ok::<bool, ScanError>(false)
                    &&& final(self).state() == RunState::Reading
                    &&& final(self).consumed() == old(self).consumed().push(rec)
                },
                SourceEvent::End => {
                    &&& r == Ok::<bool, ScanError>(true)
                    &&& final(self).state() == RunState::Done
                    &&& final(self).consumed() == old(self).consumed()
                },
                SourceEvent::ReadError(msg) => {
                    &&& r == Err::<bool, ScanError>(ScanError::SourceReadError {
                        chunk_number: (old(self).spec_results().len() + 1) as usize,
                        message: msg,
                    })
                    &&& final(self).state() == RunState::Failed
                    &&& final(self).consumed() == old(self).consumed()
                    &&& final(self).spec_results() == old(self).spec_results()
                },
            },
    {
        proof {
            self.chunker.lemma_emitted();
            assert(old(self).results@.len() == self.chunker.emitted().len());
        }
        match event {
            SourceEvent::Record(rec) => {
                let ghost old_emitted = self.chunker.emitted();
                let out = self.chunker.push_record(rec);
                match out {
                    Some(chunk) => {
                        proof {
                            lemma_concat_push(old_emitted, chunk@);
                            self.chunker.lemma_emitted();
                            let n = self.chunker.spec_chunk_size();
                            let e = old_emitted.len();
                            assert(e * n >= e) by (nonlinear_arith)
                                requires n > 0;
                        }
                        self.absorb(chunk);
                        proof {
                            assert forall|i: int| 0 <= i < self.results@.len() implies is_chunk_result_of(
                                #[trigger] self.results@[i],
                                records_view(self.chunker.emitted()[i]),
                                (i + 1) as usize,
                            ) by {
                                if i < self.results@.len() - 1 {
                                    assert(self.results@[i] == self.results@.drop_last()[i]);
                                }
                            }
                            assert(self.results@.take(old(self).results@.len() as int) =~= self.results@.drop_last());
                        }
                    },
                    None => {
                        proof {
                            assert(self.results@.take(old(self).results@.len() as int) =~= self.results@);
                        }
                    },
                }
                Ok(false)
            },
            SourceEvent::End => {
                let ghost old_emitted = self.chunker.emitted();
                let out = self.chunker.finish();
                match out {
                    Some(chunk) => {
                        proof {
                            lemma_concat_push(old_emitted, chunk@);
                            self.chunker.lemma_emitted();
                            let n = self.chunker.spec_chunk_size();
                            let e = old_emitted.len();
                            assert(e * n >= e) by (nonlinear_arith)
                                requires n > 0;
                            crate::chunker::law_chunk_shape(self.chunker.consumed(), self.chunker.spec_chunk_size());
                        }
                        self.absorb(chunk);
                        proof {
                            assert forall|i: int| 0 <= i < self.results@.len() implies is_chunk_result_of(
                                #[trigger] self.results@[i],
                                records_view(self.chunker.emitted()[i]),
                                (i + 1) as usize,
                            ) by {
                                if i < self.results@.len() - 1 {
                                    assert(self.results@[i] == self.results@.drop_last()[i]);
                                }
                            }
                            assert(self.results@.take(old(self).results@.len() as int) =~= self.results@.drop_last());
                        }
                    },
                    None => {
                        proof {
                            assert(self.results@.take(old(self).results@.len() as int) =~= self.results@);
                        }
                    },
                }
                self.state = RunState::Done;
                Ok(true)
            },
            SourceEvent::ReadError(message) => {
                self.state = RunState::Failed;
                proof {
                    let n = self.chunker.spec_chunk_size();
                    let e = self.chunker.emitted().len();
                    assert(e * n >= e) by (nonlinear_arith)
                        requires n > 0;
                    assert(self.results@.take(old(self).results@.len() as int) =~= self.results@);
                }
                Err(ScanError::SourceReadError { chunk_number: self.results.len() + 1, message })
            },
        }
    }

    /// The results of the chunks scanned so far, in chunk order.
    pub fn results(&self) -> (r: &Vec<ChunkProcessingResult>)
        ensures
            r@ == self.spec_results(),
    {
        &self.results
    }

    /// The aggregate state so far.
    pub fn aggregator(&self) -> (r: &CsvAggregator)
        ensures
            *r == self.spec_aggregator(),
    {
        &self.aggregator
    }

    /// Ends the run, handing over the chunk results and the aggregate state.
    pub fn into_parts(self) -> (r: (Vec<ChunkProcessingResult>, CsvAggregator))
        ensures
            r.0@ == self.spec_results(),
            r.1 == self.spec_aggregator(),
    {
        (self.results, self.aggregator)
    }
}

/// The records of a source whose reads all succeeded.
pub open spec fn ok_records(source: Seq<Result<Record, String>>) -> Seq<Record> {
    source.map_values(|o: Result<Record, String>| match o {
        Ok(r) => r,
        Err(_) => arbitrary(),
    })
}

/// Whether every read before position `i` succeeded.
pub open spec fn reads_ok_before(source: Seq<Result<Record, String>>, i: int) -> bool {
    forall|j: int| 0 <= j < i ==> (#[trigger] source[j]) is Ok
}

/// The number of batches that a run has completed after `consumed` records.
proof fn lemma_full_chunk_count(run: &ChunkRun)
    requires
        run.wf(),
        run.state() == RunState::Reading,
    ensures
        run.spec_results().len() == run.consumed().len() / run.spec_chunk_size(),
{
    run.lemma_run_facts();
    let n = run.spec_chunk_size() as int;
    let l = run.consumed().len() as int;
    let p = run.consumed().take(l - l % n);
    lemma_fundamental_div_mod(l, n);
    crate::chunker::law_chunk_shape(p, n as nat);
    assert(p.len() == n * (l / n));
    lemma_div_multiples_vanish_fancy(l / n, n - 1, n);
    assert(p.len() + n - 1 == n * (l / n) + (n - 1));
}

/// Runs a whole scan over a finite record source, given as the outcome of each read in
/// order. A chunk size of zero is rejected; the first failed read ends the run with its
/// message and the number of the chunk being assembled; otherwise every record is batched,
/// scanned and folded, and the completed run is returned. The whole source is held in
/// memory here; to scan a stream record by record, drive `ChunkRun::step` instead.
pub fn process_csv_chunks(
    headers: Vec<String>,
    source: Vec<Result<Record, String>>,
    config: ProcessingConfig,
) -> (r: Result<ChunkRun, ScanError>)
    requires
        source@.len() < usize::MAX,
    ensures
        config.chunk_size == 0 ==> r == Err::<ChunkRun, ScanError>(ScanError::ConfigurationError),
        config.chunk_size > 0 && reads_ok_before(source@, source@.len() as int) ==> (r matches Ok(run) && {
            &&& run.wf()
            &&& run.state() == RunState::Done
            &&& run.spec_chunk_size() == config.chunk_size
            &&& run.consumed() == ok_records(source@)
            &&& run.spec_aggregator().spec_headers() == headers@
        }),
        forall|i: int| #![trigger source@[i]]
            0 <= i < source@.len() && config.chunk_size > 0 && reads_ok_before(source@, i) && source@[i] is Err
            ==> r == Err::<ChunkRun, ScanError>(ScanError::SourceReadError {
                chunk_number: (i / config.chunk_size as int + 1) as usize,
                message: source@[i]->Err_0,
            }),
{
    let ghost src = source@;
    let ghost hs = headers@;
    let mut run = match ChunkRun::new(headers, config) {
        Ok(run) => run,
        Err(e) => return Err(e),
    };
    for item in it: source.into_iter()
        invariant
            it.seq() == src,
            src.len() < usize::MAX,
            config.chunk_size > 0,
            run.wf(),
            run.state() == RunState::Reading,
            run.spec_chunk_size() == config.chunk_size,
            run.spec_aggregator().spec_headers() == hs,
            reads_ok_before(src, it.index() as int),
            run.consumed() == ok_records(src.take(it.index() as int)),
    {
        let ghost idx = it.index() as int;
        proof {
            assert(src[idx] == item);
        }
        match item {
            Ok(rec) => {
                proof {
                    assert(ok_records(src.take(idx + 1)) =~= ok_records(src.take(idx)).push(rec));
                }
                let _ = run.step(SourceEvent::Record(rec));
            },
            Err(message) => {
                proof {
                    lemma_full_chunk_count(&run);
                    assert(run.consumed().len() == idx);
                    assert forall|i: int| #![trigger src[i]]
                        0 <= i < src.len() && reads_ok_before(src, i) && src[i] is Err implies i == idx by {
                        if i < idx {
                            assert(src[i] is Ok);
                        } else if i > idx {
                            assert(src[idx] is Ok);
                        }
                    }
                }
                return match run.step(SourceEvent::ReadError(message)) {
                    Ok(_) => Err(ScanError::ConfigurationError),
                    Err(e) => Err(e),
                };
            },
        }
    }
    proof {
        assert(src.take(src.len() as int) =~= src);
    }
    let _ = run.step(SourceEvent::End);
    Ok(run)
}

/// After a completed run, the aggregate's total row count equals the number of records read
/// from the source, and the chunk results' row counts sum to the same number.
pub proof fn law_total_rows_match_source(run: ChunkRun)
    requires
        run.wf(),
        run.state() == RunState::Done,
    ensures
        run.spec_aggregator().spec_total_rows() == run.consumed().len(),
        sum_rows(run.spec_results()) == run.consumed().len(),
{
    run.lemma_run_facts();
}

/// Folding the results of a completed run into an aggregate that starts with no rows, one
/// result at a time or all at once, leaves a row total equal to the number of records read.
pub proof fn law_folded_rows_match_source(run: ChunkRun, before: CsvAggregator, after: CsvAggregator)
    requires
        run.wf(),
        run.state() == RunState::Done,
        before.spec_total_rows() == 0,
        folds_to(before, run.spec_results(), after),
    ensures
        after.spec_total_rows() == run.consumed().len(),
{
    run.lemma_run_facts();
}

} // verus!
