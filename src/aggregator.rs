//! Folding chunk results into run-level totals.
use crate::checks::CheckKind;
use crate::processor::{count_of, no_zero_entries, ChunkProcessingResult};
use std::collections::HashMap;
use vstd::prelude::*;

verus! {

broadcast use {vstd::std_specs::hash::group_hash_axioms, vstd::seq_lib::group_to_multiset_ensures};

/// The findings map of check `k` in a chunk result.
pub open spec fn result_counts(r: ChunkProcessingResult, k: CheckKind) -> Map<usize, usize> {
    match k {
        CheckKind::NullLike => r.null_counts@,
        CheckKind::Empty => r.empty_counts@,
        CheckKind::WhitespaceOnly => r.whitespace_counts@,
    }
}

/// No column of a chunk result counts more matches than the chunk has rows.
pub open spec fn result_bounded(r: ChunkProcessingResult) -> bool {
    forall|k: CheckKind, c: usize| #[trigger] count_of(result_counts(r, k), c) <= r.rows_processed
}

/// The sum of `f` over a sequence of chunk results.
pub open spec fn sum_of(rs: Seq<ChunkProcessingResult>, f: spec_fn(ChunkProcessingResult) -> nat) -> nat
    decreases rs.len(),
{
    if rs.len() == 0 {
        0
    } else {
        sum_of(rs.drop_last(), f) + f(rs.last())
    }
}

/// Rows processed, summed over chunk results.
pub open spec fn sum_rows(rs: Seq<ChunkProcessingResult>) -> nat {
    sum_of(rs, |r: ChunkProcessingResult| r.rows_processed as nat)
}

/// Matches of check `k` in column `c`, summed over chunk results.
pub open spec fn sum_counts(rs: Seq<ChunkProcessingResult>, k: CheckKind, c: usize) -> nat {
    sum_of(rs, |r: ChunkProcessingResult| count_of(result_counts(r, k), c))
}

/// Appending a chunk result adds its rows and counts to the sums.
pub proof fn lemma_sum_push(rs: Seq<ChunkProcessingResult>, r: ChunkProcessingResult)
    ensures
        sum_rows(rs.push(r)) == sum_rows(rs) + r.rows_processed,
        forall|k: CheckKind, c: usize| #[trigger] sum_counts(rs.push(r), k, c) == sum_counts(rs, k, c) + count_of(result_counts(r, k), c),
{
    assert(rs.push(r).drop_last() =~= rs);
}

proof fn lemma_sum_remove(s: Seq<ChunkProcessingResult>, f: spec_fn(ChunkProcessingResult) -> nat, j: int)
    requires
        0 <= j < s.len(),
    ensures
        sum_of(s, f) == sum_of(s.remove(j), f) + f(s[j]),
    decreases s.len(),
{
    if j == s.len() - 1 {
        assert(s.remove(j) =~= s.drop_last());
    } else {
        assert(s.remove(j).drop_last() =~= s.drop_last().remove(j));
        assert(s.remove(j).last() == s.last());
        lemma_sum_remove(s.drop_last(), f, j);
    }
}

proof fn lemma_sum_permutation(s1: Seq<ChunkProcessingResult>, s2: Seq<ChunkProcessingResult>, f: spec_fn(ChunkProcessingResult) -> nat)
    requires
        s1.to_multiset() == s2.to_multiset(),
    ensures
        sum_of(s1, f) == sum_of(s2, f),
    decreases s1.len(),
{
    if s1.len() == 0 {
        assert(s2.to_multiset().len() == 0);
    } else {
        let x = s1.last();
        let d = s1.drop_last();
        assert(s1 =~= d.push(x));
        assert(s1.to_multiset().count(x) > 0);
        assert(s2.contains(x));
        let j = choose|j: int| 0 <= j < s2.len() && s2[j] == x;
        lemma_sum_remove(s2, f, j);
        assert(d.to_multiset() =~= s2.remove(j).to_multiset());
        lemma_sum_permutation(d, s2.remove(j), f);
    }
}

proof fn lemma_sums_permutation(rs1: Seq<ChunkProcessingResult>, rs2: Seq<ChunkProcessingResult>)
    requires
        rs1.to_multiset() == rs2.to_multiset(),
    ensures
        sum_rows(rs1) == sum_rows(rs2),
        forall|k: CheckKind, c: usize| #[trigger] sum_counts(rs1, k, c) == sum_counts(rs2, k, c),
{
    lemma_sum_permutation(rs1, rs2, |r: ChunkProcessingResult| r.rows_processed as nat);
    assert forall|k: CheckKind, c: usize| #[trigger] sum_counts(rs1, k, c) == sum_counts(rs2, k, c) by {
        lemma_sum_permutation(rs1, rs2, |r: ChunkProcessingResult| count_of(result_counts(r, k), c));
    }
}

pub proof fn lemma_sum_counts_bound(rs: Seq<ChunkProcessingResult>, k: CheckKind, c: usize)
    requires
        forall|i: int| 0 <= i < rs.len() ==> result_bounded(#[trigger] rs[i]),
    ensures
        sum_counts(rs, k, c) <= sum_rows(rs),
    decreases rs.len(),
{
    if rs.len() > 0 {
        assert(result_bounded(rs[rs.len() - 1]));
        assert(count_of(result_counts(rs.last(), k), c) <= rs.last().rows_processed);
        assert forall|i: int| 0 <= i < rs.drop_last().len() implies result_bounded(#[trigger] rs.drop_last()[i]) by {
            assert(rs.drop_last()[i] == rs[i]);
        }
        lemma_sum_counts_bound(rs.drop_last(), k, c);
    }
}

proof fn lemma_sum_rows_prefix(rs: Seq<ChunkProcessingResult>, i: int)
    requires
        0 <= i <= rs.len(),
    ensures
        sum_rows(rs.take(i)) <= sum_rows(rs),
    decreases rs.len() - i,
{
    if i < rs.len() {
        lemma_sum_rows_prefix(rs, i + 1);
        assert(rs.take(i + 1).drop_last() =~= rs.take(i));
    } else {
        assert(rs.take(i) =~= rs);
    }
}

proof fn lemma_sum_step(rs: Seq<ChunkProcessingResult>, i: int)
    requires
        0 <= i < rs.len(),
    ensures
        sum_rows(rs.take(i + 1)) == sum_rows(rs.take(i)) + rs[i].rows_processed,
        forall|k: CheckKind, c: usize| #[trigger] sum_counts(rs.take(i + 1), k, c) == sum_counts(rs.take(i), k, c) + count_of(result_counts(rs[i], k), c),
{
    let post = rs.take(i + 1);
    assert(post.drop_last() =~= rs.take(i));
    assert(post.last() == rs[i]);
}

/// The sum of the values that the pairs give key `c`.
pub open spec fn pair_sum(s: Seq<(&usize, &usize)>, c: usize) -> nat
    decreases s.len(),
{
    if s.len() == 0 {
        0
    } else {
        pair_sum(s.drop_last(), c) + (if *s.last().0 == c { *s.last().1 as nat } else { 0nat })
    }
}

proof fn lemma_pair_sum_of_map(s: Seq<(&usize, &usize)>, m: Map<usize, usize>, c: usize)
    requires
        s.no_duplicates(),
        forall|i: int| 0 <= i < s.len() ==> #[trigger] m.contains_key(*s[i].0) && m[*s[i].0] == *s[i].1,
    ensures
        pair_sum(s, c) == (if exists|i: int| 0 <= i < s.len() && *s[i].0 == c { m[c] as nat } else { 0nat }),
    decreases s.len(),
{
    if s.len() > 0 {
        let d = s.drop_last();
        assert forall|i: int| 0 <= i < d.len() implies #[trigger] m.contains_key(*d[i].0) && m[*d[i].0] == *d[i].1 by {
            assert(d[i] == s[i]);
            assert(m.contains_key(*s[i].0));
        }
        assert(d.no_duplicates()) by {
            assert forall|a: int, b: int| 0 <= a < d.len() && 0 <= b < d.len() && a != b implies d[a] != d[b] by {
                assert(d[a] == s[a] && d[b] == s[b]);
            }
        }
        lemma_pair_sum_of_map(d, m, c);
        assert(m.contains_key(*s[s.len() - 1].0));
        if *s.last().0 == c {
            if exists|i: int| 0 <= i < d.len() && *d[i].0 == c {
                let i = choose|i: int| 0 <= i < d.len() && *d[i].0 == c;
                assert(d[i] == s[i]);
                assert(m.contains_key(*s[i].0));
                assert(s[i] == s[s.len() - 1]);
            }
        } else {
            if exists|i: int| 0 <= i < s.len() && *s[i].0 == c {
                let i = choose|i: int| 0 <= i < s.len() && *s[i].0 == c;
                assert(d[i] == s[i]);
            }
            if exists|i: int| 0 <= i < d.len() && *d[i].0 == c {
                let i = choose|i: int| 0 <= i < d.len() && *d[i].0 == c;
                assert(d[i] == s[i]);
            }
        }
    }
}

/// Adds every count of `part` to `total`, column by column.
fn add_counts(total: &mut HashMap<usize, usize>, part: &HashMap<usize, usize>)
    requires
        no_zero_entries(old(total)@),
        forall|c: usize| #[trigger] count_of(old(total)@, c) + count_of(part@, c) <= usize::MAX,
    ensures
        no_zero_entries(final(total)@),
        forall|c: usize| #[trigger] count_of(final(total)@, c) == count_of(old(total)@, c) + count_of(part@, c),
{
    let ghost base = total@;
    for (col, count) in it: part.iter()
        invariant
            no_zero_entries(total@),
            forall|c: usize| #[trigger] count_of(base, c) + count_of(part@, c) <= usize::MAX,
            forall|i: int| 0 <= i < it.seq().len() ==> #[trigger] part@.contains_key(*it.seq()[i].0) && part@[*it.seq()[i].0] == *it.seq()[i].1,
            it.seq().no_duplicates(),
            forall|c: usize| #[trigger] count_of(total@, c) == count_of(base, c) + pair_sum(it.seq().take(it.index() as int), c),
            forall|c: usize| #[trigger] part@.contains_key(c) ==> it.seq().contains((&c, &part@[c])),
            it.index() == it.seq().len() ==> forall|c: usize| #[trigger] count_of(total@, c) == count_of(base, c) + count_of(part@, c),
    {
        let ghost idx = it.index() as int;
        let ghost pre = it.seq().take(idx);
        let ghost post = it.seq().take(idx + 1);
        proof {
            assert(post.drop_last() =~= pre);
            assert(post.last() == (col, count));
            assert(part@.contains_key(*col));
            assert(it.seq().take(idx + 1).no_duplicates()) by {
                assert forall|a: int, b: int| 0 <= a < post.len() && 0 <= b < post.len() && a != b implies post[a] != post[b] by {
                    assert(post[a] == it.seq()[a] && post[b] == it.seq()[b]);
                }
            }
            assert forall|i: int| 0 <= i < pre.len() implies #[trigger] part@.contains_key(*pre[i].0) && part@[*pre[i].0] == *pre[i].1 by {
                assert(pre[i] == it.seq()[i]);
            }
            assert(pre.no_duplicates()) by {
                assert forall|a: int, b: int| 0 <= a < pre.len() && 0 <= b < pre.len() && a != b implies pre[a] != pre[b] by {
                    assert(pre[a] == it.seq()[a] && pre[b] == it.seq()[b]);
                }
            }
            lemma_pair_sum_of_map(pre, part@, *col);
            if exists|i: int| 0 <= i < pre.len() && *pre[i].0 == *col {
                let i = choose|i: int| 0 <= i < pre.len() && *pre[i].0 == *col;
                assert(pre[i] == it.seq()[i]);
                assert(part@.contains_key(*it.seq()[i].0));
                assert(it.seq()[i] == it.seq()[idx]);
            }
            assert(count_of(total@, *col) == count_of(base, *col));
        }
        let ghost prev = total@;
        if *count > 0 {
            let cur: usize = match total.get(col) {
                Some(v) => *v,
                None => 0,
            };
            total.insert(*col, cur + *count);
        }
        proof {
            assert forall|c: usize| #[trigger] count_of(total@, c) == count_of(base, c) + pair_sum(post, c) by {
                assert(count_of(prev, c) == count_of(base, c) + pair_sum(pre, c));
            }
            assert forall|c: usize| idx + 1 == it.seq().len() implies #[trigger] count_of(total@, c) == count_of(base, c) + count_of(part@, c) by {
                assert(post =~= it.seq());
                lemma_pair_sum_of_map(it.seq(), part@, c);
                if exists|i: int| 0 <= i < it.seq().len() && *it.seq()[i].0 == c {
                    let i = choose|i: int| 0 <= i < it.seq().len() && *it.seq()[i].0 == c;
                    assert(part@.contains_key(*it.seq()[i].0));
                }
                if part@.contains_key(c) {
                    assert(it.seq().contains((&c, &part@[c])));
                    let i = choose|i: int| 0 <= i < it.seq().len() && it.seq()[i] == (&c, &part@[c]);
                    assert(*it.seq()[i].0 == c);
                }
            }
        }
    }
}

/// Sums the findings and row counts of all chunk results, over every column index.
pub fn aggregate_results(results: &[ChunkProcessingResult]) -> (r: (
    HashMap<usize, usize>,
    HashMap<usize, usize>,
    HashMap<usize, usize>,
    usize,
))
    requires
        forall|i: int| 0 <= i < results@.len() ==> result_bounded(#[trigger] results@[i]),
        sum_rows(results@) <= usize::MAX,
    ensures
        is_aggregate_of(r, results@),
        r.3 == sum_rows(results@),
        no_zero_entries(r.0@),
        no_zero_entries(r.1@),
        no_zero_entries(r.2@),
        forall|c: usize| #[trigger] count_of(r.0@, c) == sum_counts(results@, CheckKind::NullLike, c),
        forall|c: usize| #[trigger] count_of(r.1@, c) == sum_counts(results@, CheckKind::Empty, c),
        forall|c: usize| #[trigger] count_of(r.2@, c) == sum_counts(results@, CheckKind::WhitespaceOnly, c),
{
    let mut total_null_counts: HashMap<usize, usize> = HashMap::new();
    let mut total_empty_counts: HashMap<usize, usize> = HashMap::new();
    let mut total_whitespace_counts: HashMap<usize, usize> = HashMap::new();
    let mut total_rows: usize = 0;
    let n = results.len();
    for i in 0..n
        invariant
            n == results@.len(),
            forall|a: int| 0 <= a < results@.len() ==> result_bounded(#[trigger] results@[a]),
            sum_rows(results@) <= usize::MAX,
            total_rows == sum_rows(results@.take(i as int)),
            no_zero_entries(total_null_counts@),
            no_zero_entries(total_empty_counts@),
            no_zero_entries(total_whitespace_counts@),
            forall|c: usize| #[trigger] count_of(total_null_counts@, c) == sum_counts(results@.take(i as int), CheckKind::NullLike, c),
            forall|c: usize| #[trigger] count_of(total_empty_counts@, c) == sum_counts(results@.take(i as int), CheckKind::Empty, c),
            forall|c: usize| #[trigger] count_of(total_whitespace_counts@, c) == sum_counts(results@.take(i as int), CheckKind::WhitespaceOnly, c),
    {
        let ghost pre = results@.take(i as int);
        let ghost post = results@.take(i + 1);
        let r = &results[i];
        proof {
            assert(post.drop_last() =~= pre);
            assert(post.last() == *r);
            lemma_sum_rows_prefix(results@, i + 1);
            assert(result_bounded(results@[i as int]));
            assert forall|a: int| 0 <= a < post.len() implies result_bounded(#[trigger] post[a]) by {
                assert(post[a] == results@[a]);
            }
            assert forall|k: CheckKind, c: usize| #[trigger] sum_counts(post, k, c) <= sum_rows(post) by {
                lemma_sum_counts_bound(post, k, c);
            }
            lemma_sum_step(results@, i as int);
            assert forall|c: usize| #[trigger] count_of(total_null_counts@, c) + count_of(r.null_counts@, c) <= usize::MAX by {
                assert(sum_counts(post, CheckKind::NullLike, c) <= sum_rows(post));
            }
            assert forall|c: usize| #[trigger] count_of(total_empty_counts@, c) + count_of(r.empty_counts@, c) <= usize::MAX by {
                assert(sum_counts(post, CheckKind::Empty, c) <= sum_rows(post));
            }
            assert forall|c: usize| #[trigger] count_of(total_whitespace_counts@, c) + count_of(r.whitespace_counts@, c) <= usize::MAX by {
                assert(sum_counts(post, CheckKind::WhitespaceOnly, c) <= sum_rows(post));
            }
        }
        total_rows = total_rows + r.rows_processed;
        add_counts(&mut total_null_counts, &r.null_counts);
        add_counts(&mut total_empty_counts, &r.empty_counts);
        add_counts(&mut total_whitespace_counts, &r.whitespace_counts);
    }
    proof {
        assert(results@.take(n as int) =~= results@);
    }
    (total_null_counts, total_empty_counts, total_whitespace_counts, total_rows)
}

/// `after` is `before` with the chunk results `rs` folded in: the rows and every header
/// column's counts are added; nothing else changes.
pub open spec fn folds_to(before: CsvAggregator, rs: Seq<ChunkProcessingResult>, after: CsvAggregator) -> bool {
    &&& after.spec_headers() == before.spec_headers()
    &&& after.spec_total_rows() == before.spec_total_rows() + sum_rows(rs)
    &&& forall|k: CheckKind, col: int| 0 <= col < before.spec_headers().len() ==> #[trigger] after.spec_total(k, col) == before.spec_total(k, col) + sum_counts(rs, k, col as usize)
    &&& forall|k: CheckKind, col: int| !(0 <= col < before.spec_headers().len()) ==> #[trigger] after.spec_total(k, col) == before.spec_total(k, col)
}

/// Folding the same chunk results into an aggregate in two different orders gives the same
/// row total and the same total for every check and column.
pub proof fn law_fold_order_irrelevant(
    before: CsvAggregator,
    rs1: Seq<ChunkProcessingResult>,
    rs2: Seq<ChunkProcessingResult>,
    after1: CsvAggregator,
    after2: CsvAggregator,
)
    requires
        rs1.to_multiset() == rs2.to_multiset(),
        folds_to(before, rs1, after1),
        folds_to(before, rs2, after2),
    ensures
        after1.spec_total_rows() == after2.spec_total_rows(),
        forall|k: CheckKind, col: int| #[trigger] after1.spec_total(k, col) == after2.spec_total(k, col),
{
    lemma_sums_permutation(rs1, rs2);
    assert forall|k: CheckKind, col: int| #[trigger] after1.spec_total(k, col) == after2.spec_total(k, col) by {
        if 0 <= col < before.spec_headers().len() {
            assert(sum_counts(rs1, k, col as usize) == sum_counts(rs2, k, col as usize));
        }
    }
}

/// Folding no results leaves an aggregate as it is.
pub proof fn lemma_fold_empty(a: CsvAggregator)
    ensures
        folds_to(a, Seq::empty(), a),
{
    assert forall|k: CheckKind, c: usize| #[trigger] sum_counts(Seq::<ChunkProcessingResult>::empty(), k, c) == 0 by {}
}

/// One `add_chunk_results` call with the findings and row count of the result `r` extends a
/// fold by `r`: a caller that folds results one call at a time keeps `folds_to`.
pub proof fn lemma_fold_step(
    before: CsvAggregator,
    rs: Seq<ChunkProcessingResult>,
    mid: CsvAggregator,
    r: ChunkProcessingResult,
    after: CsvAggregator,
)
    requires
        folds_to(before, rs, mid),
        mid.wf(),
        after.wf(),
        after.spec_headers() == mid.spec_headers(),
        after.spec_total_rows() == mid.spec_total_rows() + r.rows_processed,
        forall|col: int| 0 <= col < mid.spec_headers().len() ==> {
            &&& #[trigger] after.spec_total(CheckKind::NullLike, col) == mid.spec_total(CheckKind::NullLike, col) + count_of(r.null_counts@, col as usize)
            &&& after.spec_total(CheckKind::Empty, col) == mid.spec_total(CheckKind::Empty, col) + count_of(r.empty_counts@, col as usize)
            &&& after.spec_total(CheckKind::WhitespaceOnly, col) == mid.spec_total(CheckKind::WhitespaceOnly, col) + count_of(r.whitespace_counts@, col as usize)
        },
    ensures
        folds_to(before, rs.push(r), after),
{
    lemma_sum_push(rs, r);
    assert forall|k: CheckKind, col: int| 0 <= col < before.spec_headers().len() implies #[trigger] after.spec_total(k, col) == before.spec_total(k, col) + sum_counts(rs.push(r), k, col as usize) by {
        assert(mid.spec_total(k, col) == before.spec_total(k, col) + sum_counts(rs, k, col as usize));
        assert(after.spec_total(CheckKind::NullLike, col) == mid.spec_total(CheckKind::NullLike, col) + count_of(r.null_counts@, col as usize));
    }
    assert forall|k: CheckKind, col: int| !(0 <= col < before.spec_headers().len()) implies #[trigger] after.spec_total(k, col) == before.spec_total(k, col) by {
        assert(mid.spec_total(k, col) == before.spec_total(k, col));
    }
}

/// The outcome of `aggregate_results`: row total and per-check totals of the results.
pub open spec fn is_aggregate_of(a: (HashMap<usize, usize>, HashMap<usize, usize>, HashMap<usize, usize>, usize), rs: Seq<ChunkProcessingResult>) -> bool {
    &&& a.3 == sum_rows(rs)
    &&& no_zero_entries(a.0@)
    &&& no_zero_entries(a.1@)
    &&& no_zero_entries(a.2@)
    &&& forall|c: usize| #[trigger] count_of(a.0@, c) == sum_counts(rs, CheckKind::NullLike, c)
    &&& forall|c: usize| #[trigger] count_of(a.1@, c) == sum_counts(rs, CheckKind::Empty, c)
    &&& forall|c: usize| #[trigger] count_of(a.2@, c) == sum_counts(rs, CheckKind::WhitespaceOnly, c)
}

proof fn lemma_sparse_maps_equal(m1: Map<usize, usize>, m2: Map<usize, usize>)
    requires
        no_zero_entries(m1),
        no_zero_entries(m2),
        forall|c: usize| #[trigger] count_of(m1, c) == count_of(m2, c),
    ensures
        m1 == m2,
{
    assert forall|c: usize| #[trigger] m1.contains_key(c) == m2.contains_key(c) by {
        assert(count_of(m1, c) == count_of(m2, c));
    }
    assert forall|c: usize| #[trigger] m1.contains_key(c) implies m1[c] == m2[c] by {
        assert(count_of(m1, c) == count_of(m2, c));
    }
    assert(m1 =~= m2);
}

/// Aggregating the same chunk results in any order gives the same row total and equal
/// per-check column maps.
pub proof fn law_aggregate_order_irrelevant(
    rs1: Seq<ChunkProcessingResult>,
    rs2: Seq<ChunkProcessingResult>,
    a1: (HashMap<usize, usize>, HashMap<usize, usize>, HashMap<usize, usize>, usize),
    a2: (HashMap<usize, usize>, HashMap<usize, usize>, HashMap<usize, usize>, usize),
)
    requires
        rs1.to_multiset() == rs2.to_multiset(),
        is_aggregate_of(a1, rs1),
        is_aggregate_of(a2, rs2),
    ensures
        a1.3 == a2.3,
        a1.0@ == a2.0@,
        a1.1@ == a2.1@,
        a1.2@ == a2.2@,
{
    lemma_sums_permutation(rs1, rs2);
    assert forall|c: usize| #[trigger] count_of(a1.0@, c) == count_of(a2.0@, c) by {
        assert(sum_counts(rs1, CheckKind::NullLike, c) == sum_counts(rs2, CheckKind::NullLike, c));
    }
    assert forall|c: usize| #[trigger] count_of(a1.1@, c) == count_of(a2.1@, c) by {
        assert(sum_counts(rs1, CheckKind::Empty, c) == sum_counts(rs2, CheckKind::Empty, c));
    }
    assert forall|c: usize| #[trigger] count_of(a1.2@, c) == count_of(a2.2@, c) by {
        assert(sum_counts(rs1, CheckKind::WhitespaceOnly, c) == sum_counts(rs2, CheckKind::WhitespaceOnly, c));
    }
    lemma_sparse_maps_equal(a1.0@, a2.0@);
    lemma_sparse_maps_equal(a1.1@, a2.1@);
    lemma_sparse_maps_equal(a1.2@, a2.2@);
}

/// Running per-column totals of the three checks.
#[derive(Clone, Copy, Debug, PartialEq, Eq, Structural)]
pub struct ColumnStats {
    null_like_count: usize,
    empty_count: usize,
    white_space_only_count: usize,
}

impl ColumnStats {
    /// The total that these statistics hold for the check `k`.
    pub closed spec fn count_spec(self, k: CheckKind) -> nat {
        match k {
            CheckKind::NullLike => self.null_like_count as nat,
            CheckKind::Empty => self.empty_count as nat,
            CheckKind::WhitespaceOnly => self.white_space_only_count as nat,
        }
    }

    /// The total for the check `kind`.
    pub fn count(&self, kind: CheckKind) -> (r: usize)
        ensures
            r == self.count_spec(kind),
    {
        match kind {
            CheckKind::NullLike => self.null_like_count,
            CheckKind::Empty => self.empty_count,
            CheckKind::WhitespaceOnly => self.white_space_only_count,
        }
    }
}

/// Elapsed processing time, in whole seconds and the milliseconds beyond them.
#[derive(Clone, Copy, Debug, PartialEq, Eq, Structural)]
pub struct ProcessingTime {
    pub secs: u64,
    pub millis: u32,
}

impl ProcessingTime {
    pub open spec fn wf(self) -> bool {
        self.millis < 1000
    }

    /// The duration in milliseconds.
    pub open spec fn total_millis(self) -> nat {
        self.secs as nat * 1000 + self.millis as nat
    }

    pub fn new(secs: u64, millis: u32) -> (r: ProcessingTime)
        requires
            millis < 1000,
        ensures
            r == (ProcessingTime { secs, millis }),
            r.wf(),
    {
        ProcessingTime { secs, millis }
    }
}

/// The aggregate state of a run: header set, total rows, per-column totals per check and
/// the elapsed processing time once it is known. Columns beyond the header set are not kept.
#[derive(Clone)]
pub struct CsvAggregator {
    headers: Vec<String>,
    column_stats: Vec<ColumnStats>,
    total_rows: usize,
    chunk_size: usize,
    processing_time: Option<ProcessingTime>,
}

impl CsvAggregator {
    pub closed spec fn spec_headers(&self) -> Seq<String> {
        self.headers@
    }

    pub closed spec fn spec_total_rows(&self) -> nat {
        self.total_rows as nat
    }

    pub closed spec fn spec_chunk_size(&self) -> nat {
        self.chunk_size as nat
    }

    pub closed spec fn spec_processing_time(&self) -> Option<ProcessingTime> {
        self.processing_time
    }

    /// The running total of check `k` in column `col` (zero outside the header set).
    pub closed spec fn spec_total(&self, k: CheckKind, col: int) -> nat {
        if 0 <= col < self.column_stats@.len() {
            self.column_stats@[col].count_spec(k)
        } else {
            0
        }
    }

    /// One statistics entry per header, none above the row total, and a well-formed time.
    pub closed spec fn wf(&self) -> bool {
        &&& self.column_stats@.len() == self.headers@.len()
        &&& forall|i: int, k: CheckKind|
            0 <= i < self.column_stats@.len() ==> #[trigger] self.column_stats@[i].count_spec(k)
                <= self.total_rows
        &&& match self.processing_time {
            Some(t) => t.wf(),
            None => true,
        }
    }

    /// A fresh aggregate with zero totals for every header column.
    pub fn new(headers: Vec<String>, chunk_size: usize) -> (r: CsvAggregator)
        ensures
            r.wf(),
            r.spec_headers() == headers@,
            r.spec_chunk_size() == chunk_size,
            r.spec_total_rows() == 0,
            r.spec_processing_time() is None,
            forall|k: CheckKind, col: int| #[trigger] r.spec_total(k, col) == 0,
    {
        let column_count = headers.len();
        let zero = ColumnStats { null_like_count: 0, empty_count: 0, white_space_only_count: 0 };
        let mut column_stats: Vec<ColumnStats> = Vec::new();
        for i in 0..column_count
            invariant
                column_stats@.len() == i,
                forall|j: int| 0 <= j < i ==> #[trigger] column_stats@[j] == zero,
        {
            column_stats.push(zero);
        }
        let r = CsvAggregator { headers, column_stats, total_rows: 0, chunk_size, processing_time: None };
        proof {
            assert forall|k: CheckKind, col: int| #[trigger] r.spec_total(k, col) == 0 by {
                if 0 <= col < r.column_stats@.len() {
                    assert(r.column_stats@[col] == zero);
                }
            }
        }
        r
    }

    /// Folds the findings of one chunk of `chunk_size` rows into the totals: the rows are added
    /// to the row total and each count to its column's total; columns outside the header set
    /// are ignored.
    #[verifier::rlimit(40)]
    pub fn add_chunk_results(
        &mut self,
        null_map: &HashMap<usize, usize>,
        empty_map: &HashMap<usize, usize>,
        white_space_only_map: &HashMap<usize, usize>,
        chunk_size: usize,
    )
        requires
            old(self).wf(),
            old(self).spec_total_rows() + chunk_size <= usize::MAX,
            forall|c: usize| #[trigger] count_of(null_map@, c) <= chunk_size,
            forall|c: usize| #[trigger] count_of(empty_map@, c) <= chunk_size,
            forall|c: usize| #[trigger] count_of(white_space_only_map@, c) <= chunk_size,
        ensures
            final(self).wf(),
            final(self).spec_headers() == old(self).spec_headers(),
            final(self).spec_chunk_size() == old(self).spec_chunk_size(),
            final(self).spec_processing_time() == old(self).spec_processing_time(),
            final(self).spec_total_rows() == old(self).spec_total_rows() + chunk_size,
            forall|col: int| 0 <= col < old(self).spec_headers().len() ==> {
                &&& #[trigger] final(self).spec_total(CheckKind::NullLike, col) == old(self).spec_total(CheckKind::NullLike, col) + count_of(null_map@, col as usize)
                &&& final(self).spec_total(CheckKind::Empty, col) == old(self).spec_total(CheckKind::Empty, col) + count_of(empty_map@, col as usize)
                &&& final(self).spec_total(CheckKind::WhitespaceOnly, col) == old(self).spec_total(CheckKind::WhitespaceOnly, col) + count_of(white_space_only_map@, col as usize)
            },
            forall|k: CheckKind, col: int| !(0 <= col < old(self).spec_headers().len()) ==> #[trigger] final(self).spec_total(k, col) == 0,
    {
        let ghost old_stats = self.column_stats@;
        self.total_rows = self.total_rows + chunk_size;
        let n = self.column_stats.len();
        for col in 0..n
            invariant
                n == self.column_stats@.len(),
                n == old_stats.len(),
                self.headers == old(self).headers,
                self.chunk_size == old(self).chunk_size,
                self.processing_time == old(self).processing_time,
                self.headers@.len() == n,
                self.total_rows == old(self).total_rows + chunk_size,
                self.total_rows <= usize::MAX,
                forall|i: int, k: CheckKind| 0 <= i < n ==> #[trigger] old_stats[i].count_spec(k) <= old(self).total_rows,
                forall|c: usize| #[trigger] count_of(null_map@, c) <= chunk_size,
                forall|c: usize| #[trigger] count_of(empty_map@, c) <= chunk_size,
                forall|c: usize| #[trigger] count_of(white_space_only_map@, c) <= chunk_size,
                forall|i: int| col <= i < n ==> #[trigger] self.column_stats@[i] == old_stats[i],
                forall|i: int| 0 <= i < col ==> {
                    &&& #[trigger] self.column_stats@[i].count_spec(CheckKind::NullLike) == old_stats[i].count_spec(CheckKind::NullLike) + count_of(null_map@, i as usize)
                    &&& self.column_stats@[i].count_spec(CheckKind::Empty) == old_stats[i].count_spec(CheckKind::Empty) + count_of(empty_map@, i as usize)
                    &&& self.column_stats@[i].count_spec(CheckKind::WhitespaceOnly) == old_stats[i].count_spec(CheckKind::WhitespaceOnly) + count_of(white_space_only_map@, i as usize)
                },
        {
            let s = self.column_stats[col];
            proof {
                assert(s == old_stats[col as int]);
                assert(s.count_spec(CheckKind::NullLike) <= old(self).total_rows);
                assert(s.count_spec(CheckKind::Empty) <= old(self).total_rows);
                assert(s.count_spec(CheckKind::WhitespaceOnly) <= old(self).total_rows);
                assert(count_of(null_map@, col) <= chunk_size);
                assert(count_of(empty_map@, col) <= chunk_size);
                assert(count_of(white_space_only_map@, col) <= chunk_size);
            }
            let add_null: usize = match null_map.get(&col) {
                Some(v) => *v,
                None => 0,
            };
            let add_empty: usize = match empty_map.get(&col) {
                Some(v) => *v,
                None => 0,
            };
            let add_ws: usize = match white_space_only_map.get(&col) {
                Some(v) => *v,
                None => 0,
            };
            let updated = ColumnStats {
                null_like_count: s.null_like_count + add_null,
                empty_count: s.empty_count + add_empty,
                white_space_only_count: s.white_space_only_count + add_ws,
            };
            self.column_stats.set(col, updated);
        }
        proof {
            assert forall|i: int, k: CheckKind| 0 <= i < self.column_stats@.len() implies #[trigger] self.column_stats@[i].count_spec(k) <= self.total_rows by {
                assert(old_stats[i].count_spec(k) <= old(self).total_rows);
                assert(count_of(null_map@, i as usize) <= chunk_size);
                assert(count_of(empty_map@, i as usize) <= chunk_size);
                assert(count_of(white_space_only_map@, i as usize) <= chunk_size);
                assert(self.column_stats@[i].count_spec(CheckKind::NullLike) == old_stats[i].count_spec(CheckKind::NullLike) + count_of(null_map@, i as usize));
            }
        }
    }

    /// Records the elapsed processing time of the run.
    pub fn set_processing_time(&mut self, duration: ProcessingTime)
        requires
            old(self).wf(),
            duration.wf(),
        ensures
            final(self).wf(),
            final(self).spec_processing_time() == Some(duration),
            final(self).spec_headers() == old(self).spec_headers(),
            final(self).spec_chunk_size() == old(self).spec_chunk_size(),
            final(self).spec_total_rows() == old(self).spec_total_rows(),
            forall|k: CheckKind, col: int| #[trigger] final(self).spec_total(k, col) == old(self).spec_total(k, col),
    {
        self.processing_time = Some(duration);
    }

    pub fn headers(&self) -> (r: &Vec<String>)
        ensures
            r@ == self.spec_headers(),
    {
        &self.headers
    }

    pub fn total_rows(&self) -> (r: usize)
        ensures
            r == self.spec_total_rows(),
    {
        self.total_rows
    }

    pub fn chunk_size(&self) -> (r: usize)
        ensures
            r == self.spec_chunk_size(),
    {
        self.chunk_size
    }

    pub fn processing_time(&self) -> (r: Option<ProcessingTime>)
        ensures
            r == self.spec_processing_time(),
    {
        self.processing_time
    }

    /// Folds each of the chunk results into the totals, in order.
    pub fn add_all_chunk_results(&mut self, results: &[ChunkProcessingResult])
        requires
            old(self).wf(),
            forall|i: int| 0 <= i < results@.len() ==> result_bounded(#[trigger] results@[i]),
            old(self).spec_total_rows() + sum_rows(results@) <= usize::MAX,
        ensures
            final(self).wf(),
            final(self).spec_chunk_size() == old(self).spec_chunk_size(),
            final(self).spec_processing_time() == old(self).spec_processing_time(),
            folds_to(*old(self), results@, *final(self)),
    {
        let n = results.len();
        for i in 0..n
            invariant
                n == results@.len(),
                self.wf(),
                forall|j: int| 0 <= j < results@.len() ==> result_bounded(#[trigger] results@[j]),
                old(self).spec_total_rows() + sum_rows(results@) <= usize::MAX,
                self.spec_chunk_size() == old(self).spec_chunk_size(),
                self.spec_processing_time() == old(self).spec_processing_time(),
                folds_to(*old(self), results@.take(i as int), *self),
        {
            let r = &results[i];
            proof {
                lemma_sum_step(results@, i as int);
                lemma_sum_rows_prefix(results@, i + 1);
                assert(result_bounded(results@[i as int]));
                assert forall|c: usize| #[trigger] count_of(r.null_counts@, c) <= r.rows_processed by {
                    assert(count_of(result_counts(*r, CheckKind::NullLike), c) <= r.rows_processed);
                }
                assert forall|c: usize| #[trigger] count_of(r.empty_counts@, c) <= r.rows_processed by {
                    assert(count_of(result_counts(*r, CheckKind::Empty), c) <= r.rows_processed);
                }
                assert forall|c: usize| #[trigger] count_of(r.whitespace_counts@, c) <= r.rows_processed by {
                    assert(count_of(result_counts(*r, CheckKind::WhitespaceOnly), c) <= r.rows_processed);
                }
            }
            let ghost before = *self;
            self.add_chunk_results(&r.null_counts, &r.empty_counts, &r.whitespace_counts, r.rows_processed);
            proof {
                let t = results@.take(i + 1);
                assert forall|k: CheckKind, col: int| 0 <= col < old(self).spec_headers().len() implies #[trigger] self.spec_total(k, col) == old(self).spec_total(k, col) + sum_counts(t, k, col as usize) by {
                    assert(before.spec_total(k, col) == old(self).spec_total(k, col) + sum_counts(results@.take(i as int), k, col as usize));
                    assert(self.spec_total(CheckKind::NullLike, col) == before.spec_total(CheckKind::NullLike, col) + count_of(r.null_counts@, col as usize));
                }
                assert forall|k: CheckKind, col: int| !(0 <= col < old(self).spec_headers().len()) implies #[trigger] self.spec_total(k, col) == old(self).spec_total(k, col) by {
                    assert(before.spec_total(k, col) == old(self).spec_total(k, col));
                }
            }
        }
        proof {
            assert(results@.take(n as int) =~= results@);
        }
    }

    /// The running total of the check `kind` in column `col` (zero outside the header set).
    pub fn column_total(&self, kind: CheckKind, col: usize) -> (r: usize)
        ensures
            r == self.spec_total(kind, col as int),
    {
        if col < self.column_stats.len() {
            self.column_stats[col].count(kind)
        } else {
            0
        }
    }
}

} // verus!
