//! The chunk processor: applies every check to every field of a batch of records.
use crate::checks::{
    check_matches, CheckKind, EmptyCheck, NullLikeCheck, PatternCheck, WhiteSpaceOnlyCheck,
};
use rayon::iter::{IndexedParallelIterator, IntoParallelRefIterator, ParallelIterator};
use std::collections::HashMap;
use vstd::prelude::*;

verus! {

broadcast use vstd::std_specs::hash::group_hash_axioms;

/// One data row: its field values in column order.
pub type Record = Vec<String>;

/// The field values of a record, as character sequences.
pub open spec fn record_view(r: Record) -> Seq<Seq<char>> {
    r@.map_values(|s: String| s@)
}

/// The records of a batch, as sequences of character sequences.
pub open spec fn records_view(rs: Seq<Record>) -> Seq<Seq<Seq<char>>> {
    rs.map_values(|r: Record| record_view(r))
}

/// 1 when column `col` of `rec` exists and the check `k` matches it, else 0.
pub open spec fn field_hit(rec: Seq<Seq<char>>, k: CheckKind, col: int) -> nat {
    if 0 <= col < rec.len() && check_matches(k, rec[col]) {
        1
    } else {
        0
    }
}

/// How many of the records match the check `k` in column `col`.
pub open spec fn column_count(recs: Seq<Seq<Seq<char>>>, k: CheckKind, col: int) -> nat
    decreases recs.len(),
{
    if recs.len() == 0 {
        0
    } else {
        column_count(recs.drop_last(), k, col) + field_hit(recs.last(), k, col)
    }
}

/// The count that a sparse findings map gives column `c` (absent means zero).
pub open spec fn count_of(m: Map<usize, usize>, c: usize) -> nat {
    if m.contains_key(c) {
        m[c] as nat
    } else {
        0
    }
}

/// A sparse findings map holds no zero counts.
pub open spec fn no_zero_entries(m: Map<usize, usize>) -> bool {
    forall|c: usize| #[trigger] m.contains_key(c) ==> m[c] > 0
}

/// `m` is exactly the column findings of check `k` over the records `recs`.
pub open spec fn is_findings_of(m: Map<usize, usize>, recs: Seq<Seq<Seq<char>>>, k: CheckKind) -> bool {
    &&& no_zero_entries(m)
    &&& forall|c: usize| #[trigger] count_of(m, c) == column_count(recs, k, c as int)
}

/// `cols` lists, in increasing order, the columns of `rec` that the check `k` matches.
pub open spec fn is_matched_columns(cols: Seq<usize>, rec: Seq<Seq<char>>, k: CheckKind) -> bool {
    &&& forall|i: int, j: int| 0 <= i < j < cols.len() ==> cols[i] < cols[j]
    &&& forall|i: int|
        0 <= i < cols.len() ==> (cols[i] as int) < rec.len() && check_matches(
            k,
            rec[cols[i] as int],
        )
    &&& forall|c: int| 0 <= c < rec.len() && check_matches(k, #[trigger] rec[c]) ==> cols.contains(c as usize)
}

/// The columns of one record that each check matched: a worker's local findings.
pub struct RecordFindings {
    pub null_cols: Vec<usize>,
    pub empty_cols: Vec<usize>,
    pub whitespace_cols: Vec<usize>,
}

/// `f` holds the local findings of the record `rec`.
pub open spec fn is_record_findings(f: RecordFindings, rec: Seq<Seq<char>>) -> bool {
    &&& is_matched_columns(f.null_cols@, rec, CheckKind::NullLike)
    &&& is_matched_columns(f.empty_cols@, rec, CheckKind::Empty)
    &&& is_matched_columns(f.whitespace_cols@, rec, CheckKind::WhitespaceOnly)
}

pub proof fn lemma_column_count_bound(recs: Seq<Seq<Seq<char>>>, k: CheckKind, col: int)
    ensures
        column_count(recs, k, col) <= recs.len(),
    decreases recs.len(),
{
    if recs.len() > 0 {
        lemma_column_count_bound(recs.drop_last(), k, col);
    }
}

fn matched_columns<C: PatternCheck>(record: &Record, check: &C, Ghost(kind): Ghost<CheckKind>) -> (cols: Vec<usize>)
    requires
        forall|v: Seq<char>| #[trigger] check.matches_spec(v) == check_matches(kind, v),
    ensures
        is_matched_columns(cols@, record_view(*record), kind),
{
    let ghost rec = record_view(*record);
    let mut cols: Vec<usize> = Vec::new();
    let n = record.len();
    for i in 0..n
        invariant
            n == record@.len(),
            rec == record_view(*record),
            forall|v: Seq<char>| #[trigger] check.matches_spec(v) == check_matches(kind, v),
            forall|a: int, b: int| 0 <= a < b < cols@.len() ==> cols@[a] < cols@[b],
            forall|a: int| 0 <= a < cols@.len() ==> cols@[a] < i,
            forall|a: int|
                0 <= a < cols@.len() ==> (cols@[a] as int) < rec.len() && check_matches(
                    kind,
                    rec[cols@[a] as int],
                ),
            forall|c: int| 0 <= c < i && check_matches(kind, #[trigger] rec[c]) ==> cols@.contains(c as usize),
    {
        let hit = check.check(record[i].as_str());
        proof {
            assert(rec[i as int] == record@[i as int]@);
        }
        let ghost prev = cols@;
        if hit {
            cols.push(i);
            proof {
                assert(cols@[cols@.len() - 1] == i);
                assert forall|c: int| 0 <= c < i + 1 && check_matches(kind, #[trigger] rec[c]) implies cols@.contains(c as usize) by {
                    if c < i {
                        let a = choose|a: int| 0 <= a < prev.len() && prev[a] == c as usize;
                        assert(cols@[a] == c as usize);
                    }
                }
            }
        }
    }
    cols
}

/// Evaluates every check on every field of one record and lists the matching columns.
pub fn process_record(
    record: &Record,
    null_check: &NullLikeCheck,
    empty_check: &EmptyCheck,
    whitespace_check: &WhiteSpaceOnlyCheck,
) -> (f: RecordFindings)
    ensures
        is_record_findings(f, record_view(*record)),
{
    RecordFindings {
        null_cols: matched_columns(record, null_check, Ghost(CheckKind::NullLike)),
        empty_cols: matched_columns(record, empty_check, Ghost(CheckKind::Empty)),
        whitespace_cols: matched_columns(record, whitespace_check, Ghost(CheckKind::WhitespaceOnly)),
    }
}

/// Adds one to the count of every column in `cols`.
fn merge_columns(counts: &mut HashMap<usize, usize>, cols: &Vec<usize>, Ghost(rec): Ghost<Seq<Seq<char>>>, Ghost(k): Ghost<CheckKind>, Ghost(bound): Ghost<nat>)
    requires
        is_matched_columns(cols@, rec, k),
        no_zero_entries(old(counts)@),
        forall|c: usize| #[trigger] count_of(old(counts)@, c) < bound,
        bound <= usize::MAX,
    ensures
        no_zero_entries(final(counts)@),
        forall|c: usize| #[trigger] count_of(final(counts)@, c) == count_of(old(counts)@, c) + field_hit(rec, k, c as int),
{
    let ghost base = counts@;
    let n = cols.len();
    for j in 0..n
        invariant
            n == cols@.len(),
            is_matched_columns(cols@, rec, k),
            no_zero_entries(counts@),
            forall|c: usize| #[trigger] count_of(base, c) < bound,
            bound <= usize::MAX,
            forall|c: usize| #[trigger] count_of(counts@, c) == count_of(base, c) + (if cols@.take(j as int).contains(c) { 1nat } else { 0nat }),
    {
        let c = cols[j];
        proof {
            assert(!cols@.take(j as int).contains(c)) by {
                if cols@.take(j as int).contains(c) {
                    let t0 = cols@.take(j as int);
                    let a = choose|a: int| 0 <= a < t0.len() && t0[a] == c;
                    assert(cols@[a] < cols@[j as int]);
                }
            }
            assert(count_of(counts@, c) == count_of(base, c));
        }
        let cur: usize = match counts.get(&c) {
            Some(v) => *v,
            None => 0,
        };
        let ghost prev = counts@;
        counts.insert(c, cur + 1);
        proof {
            assert forall|x: usize| #[trigger] count_of(counts@, x) == count_of(base, x) + (if cols@.take(j + 1).contains(x) { 1nat } else { 0nat }) by {
                let t1 = cols@.take(j + 1);
                assert(count_of(prev, x) == count_of(base, x) + (if cols@.take(j as int).contains(x) { 1nat } else { 0nat }));
                assert(t1 == cols@.take(j as int).push(c));
                if x != c {
                    assert(t1.contains(x) == cols@.take(j as int).contains(x)) by {
                        if t1.contains(x) {
                            let a = choose|a: int| 0 <= a < t1.len() && t1[a] == x;
                            assert(cols@.take(j as int)[a] == x);
                        }
                    }
                } else {
                    assert(t1[j as int] == c);
                }
            }
        }
    }
    proof {
        assert(cols@.take(n as int) == cols@);
        assert forall|c: usize| #[trigger] count_of(counts@, c) == count_of(base, c) + field_hit(rec, k, c as int) by {
            if cols@.contains(c) {
                let a = choose|a: int| 0 <= a < cols@.len() && cols@[a] == c;
                assert((cols@[a] as int) < rec.len());
            }
        }
    }
}

/// The result of scanning one chunk: per check, the sparse count of matches by column.
#[derive(Debug, Clone)]
pub struct ChunkProcessingResult {
    pub chunk_number: usize,
    pub rows_processed: usize,
    pub null_counts: HashMap<usize, usize>,
    pub empty_counts: HashMap<usize, usize>,
    pub whitespace_counts: HashMap<usize, usize>,
}

/// `r` is the result of scanning the records `recs` as chunk number `n`.
pub open spec fn is_chunk_result_of(r: ChunkProcessingResult, recs: Seq<Seq<Seq<char>>>, n: usize) -> bool {
    &&& r.chunk_number == n
    &&& r.rows_processed == recs.len()
    &&& is_findings_of(r.null_counts@, recs, CheckKind::NullLike)
    &&& is_findings_of(r.empty_counts@, recs, CheckKind::Empty)
    &&& is_findings_of(r.whitespace_counts@, recs, CheckKind::WhitespaceOnly)
}

/// Relies on rayon's `par_iter`, `map` and `collect_into_vec`: each record is mapped by
/// `process_record` on the worker pool, and the results come back in the records' order.
#[verifier::external_body]
fn par_process_records(
    records: &[Record],
    null_check: &NullLikeCheck,
    empty_check: &EmptyCheck,
    whitespace_check: &WhiteSpaceOnlyCheck,
) -> (out: Vec<RecordFindings>)
    ensures
        out@.len() == records@.len(),
        forall|i: int| 0 <= i < records@.len() ==> is_record_findings(#[trigger] out@[i], record_view(records@[i])),
{
    let mut out = Vec::new();
    records
        .par_iter()
        .map(|r| process_record(r, null_check, empty_check, whitespace_check))
        .collect_into_vec(&mut out);
    out
}

/// Scans one chunk. With `enable_parallel` the records are examined on rayon's worker pool,
/// each worker keeping its own findings for the record it owns; the findings are then merged
/// into the chunk's counters once per record. Both modes give the same result.
pub fn process_single_chunk(
    records: &[Record],
    chunk_number: usize,
    null_check: &NullLikeCheck,
    empty_check: &EmptyCheck,
    whitespace_check: &WhiteSpaceOnlyCheck,
    enable_parallel: bool,
) -> (r: ChunkProcessingResult)
    ensures
        is_chunk_result_of(r, records_view(records@), chunk_number),
{
    let ghost recs = records_view(records@);
    let n = records.len();
    let mut null_counts: HashMap<usize, usize> = HashMap::new();
    let mut empty_counts: HashMap<usize, usize> = HashMap::new();
    let mut whitespace_counts: HashMap<usize, usize> = HashMap::new();
    let local: Vec<RecordFindings> = if enable_parallel {
        par_process_records(records, null_check, empty_check, whitespace_check)
    } else {
        Vec::new()
    };
    for i in 0..n
        invariant
            n == records@.len(),
            recs == records_view(records@),
            enable_parallel ==> local@.len() == n,
            enable_parallel ==> forall|a: int| 0 <= a < n ==> is_record_findings(#[trigger] local@[a], record_view(records@[a])),
            is_findings_of(null_counts@, recs.take(i as int), CheckKind::NullLike),
            is_findings_of(empty_counts@, recs.take(i as int), CheckKind::Empty),
            is_findings_of(whitespace_counts@, recs.take(i as int), CheckKind::WhitespaceOnly),
    {
        let ghost pre = recs.take(i as int);
        let ghost rec = record_view(records@[i as int]);
        proof {
            assert(recs.take(i + 1).drop_last() == pre);
            assert(recs.take(i + 1).last() == rec);
            assert forall|c: usize, k: CheckKind| #[trigger] column_count(pre, k, c as int) < i + 1 by {
                lemma_column_count_bound(pre, k, c as int);
            }
        }
        let f = if enable_parallel {
            &local[i]
        } else {
            &process_record(&records[i], null_check, empty_check, whitespace_check)
        };
        merge_columns(&mut null_counts, &f.null_cols, Ghost(rec), Ghost(CheckKind::NullLike), Ghost((i + 1) as nat));
        merge_columns(&mut empty_counts, &f.empty_cols, Ghost(rec), Ghost(CheckKind::Empty), Ghost((i + 1) as nat));
        merge_columns(&mut whitespace_counts, &f.whitespace_cols, Ghost(rec), Ghost(CheckKind::WhitespaceOnly), Ghost((i + 1) as nat));
    }
    proof {
        assert(recs.take(n as int) == recs);
    }
    ChunkProcessingResult {
        chunk_number,
        rows_processed: n,
        null_counts,
        empty_counts,
        whitespace_counts,
    }
}

/// There is one findings map per check and batch: two maps that both count the matches of
/// `k` over `recs` are equal.
pub proof fn lemma_findings_unique(m1: Map<usize, usize>, m2: Map<usize, usize>, recs: Seq<Seq<Seq<char>>>, k: CheckKind)
    requires
        is_findings_of(m1, recs, k),
        is_findings_of(m2, recs, k),
    ensures
        m1 == m2,
{
    assert forall|c: usize| #[trigger] m1.contains_key(c) == m2.contains_key(c) by {
        assert(count_of(m1, c) == count_of(m2, c));
    }
    assert forall|c: usize| #[trigger] m1.contains_key(c) implies m1[c] == m2[c] by {
        assert(count_of(m1, c) == count_of(m2, c));
    }
    assert(m1 =~= m2);
}

/// Sequential and parallel scanning of the same batch and chunk number give identical
/// results: the same row count and the same per-check, per-column count maps. Every result
/// that `process_single_chunk` returns, in either mode, is such a result.
pub proof fn law_parallel_matches_sequential(
    records: Seq<Record>,
    n: usize,
    sequential: ChunkProcessingResult,
    parallel: ChunkProcessingResult,
)
    requires
        is_chunk_result_of(sequential, records_view(records), n),
        is_chunk_result_of(parallel, records_view(records), n),
    ensures
        sequential.chunk_number == parallel.chunk_number,
        sequential.rows_processed == parallel.rows_processed,
        sequential.null_counts@ == parallel.null_counts@,
        sequential.empty_counts@ == parallel.empty_counts@,
        sequential.whitespace_counts@ == parallel.whitespace_counts@,
{
    let recs = records_view(records);
    lemma_findings_unique(sequential.null_counts@, parallel.null_counts@, recs, CheckKind::NullLike);
    lemma_findings_unique(sequential.empty_counts@, parallel.empty_counts@, recs, CheckKind::Empty);
    lemma_findings_unique(sequential.whitespace_counts@, parallel.whitespace_counts@, recs, CheckKind::WhitespaceOnly);
}

} // verus!
