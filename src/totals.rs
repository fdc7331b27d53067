//! Totals of findings maps over all their columns.
use crate::aggregator::{result_counts, sum_of};
use crate::checks::CheckKind;
use crate::processor::ChunkProcessingResult;
use std::collections::HashMap;
use vstd::prelude::*;

verus! {

broadcast use vstd::std_specs::hash::group_hash_axioms;

/// Adds the value that `m` holds for a key to a running sum.
pub open spec fn add_value(m: Map<usize, usize>) -> spec_fn(nat, usize) -> nat {
    |acc: nat, c: usize| acc + m[c] as nat
}

/// The sum of all values of a findings map, over every key.
pub open spec fn map_total(m: Map<usize, usize>) -> nat {
    m.dom().fold(0nat, add_value(m))
}

/// Matches of check `k`, summed over every column of every chunk result.
pub open spec fn check_total(rs: Seq<ChunkProcessingResult>, k: CheckKind) -> nat {
    sum_of(rs, |r: ChunkProcessingResult| map_total(result_counts(r, k)))
}

/// The keys of a sequence of pairs.
pub open spec fn key_set(s: Seq<(&usize, &usize)>) -> Set<usize>
    decreases s.len(),
{
    if s.len() == 0 {
        Set::empty()
    } else {
        key_set(s.drop_last()).insert(*s.last().0)
    }
}

proof fn lemma_key_set(s: Seq<(&usize, &usize)>)
    ensures
        key_set(s).finite(),
        forall|c: usize| #[trigger] key_set(s).contains(c) <==> exists|j: int| 0 <= j < s.len() && *s[j].0 == c,
    decreases s.len(),
{
    if s.len() > 0 {
        let d = s.drop_last();
        lemma_key_set(d);
        assert forall|c: usize| #[trigger] key_set(s).contains(c) <==> exists|j: int| 0 <= j < s.len() && *s[j].0 == c by {
            if key_set(s).contains(c) {
                if c == *s.last().0 {
                    assert(*s[s.len() - 1].0 == c);
                } else {
                    let j = choose|j: int| 0 <= j < d.len() && *d[j].0 == c;
                    assert(s[j] == d[j]);
                }
            }
            if exists|j: int| 0 <= j < s.len() && *s[j].0 == c {
                let j = choose|j: int| 0 <= j < s.len() && *s[j].0 == c;
                if j < d.len() {
                    assert(d[j] == s[j]);
                }
            }
        }
    }
}

/// The sum of all values of `m`.
fn map_value_total(m: &HashMap<usize, usize>) -> (r: u128)
    ensures
        r == map_total(m@),
{
    let n = m.len();
    let ghost f = add_value(m@);
    proof {
        assert forall|a1: usize, a2: usize, b: nat| #[trigger] f(f(b, a2), a1) == f(f(b, a1), a2) by {}
        assert(vstd::set::fold::is_fun_commutative(f));
        lemma_key_set(Seq::<(&usize, &usize)>::empty());
        vstd::set::fold::lemma_fold_empty(0nat, f);
        if n == 0 {
            m@.dom().lemma_len0_is_empty();
        }
    }
    let mut total: u128 = 0;
    for (c, v) in it: m.iter()
        invariant
            n == m@.dom().len(),
            f == add_value(m@),
            vstd::set::fold::is_fun_commutative(f),
            it.seq().len() == n,
            forall|i: int| 0 <= i < it.seq().len() ==> #[trigger] m@.contains_key(*it.seq()[i].0) && m@[*it.seq()[i].0] == *it.seq()[i].1,
            it.seq().no_duplicates(),
            forall|c: usize| #[trigger] m@.contains_key(c) ==> it.seq().contains((&c, &m@[c])),
            total == key_set(it.seq().take(it.index() as int)).fold(0nat, f),
            total <= it.index() * 0xffff_ffff_ffff_ffff,
            it.index() == it.seq().len() ==> total == map_total(m@),
    {
        let ghost idx = it.index() as int;
        let ghost pre = it.seq().take(idx);
        let ghost post = it.seq().take(idx + 1);
        proof {
            assert(post.drop_last() =~= pre);
            assert(post.last() == (c, v));
            assert(m@.contains_key(*c));
            lemma_key_set(pre);
            if key_set(pre).contains(*c) {
                let j = choose|j: int| 0 <= j < pre.len() && *pre[j].0 == *c;
                assert(pre[j] == it.seq()[j]);
                assert(m@.contains_key(*it.seq()[j].0));
                assert(it.seq()[j] == it.seq()[idx]);
            }
            vstd::set::fold::lemma_fold_insert(key_set(pre), 0nat, f, *c);
            assert(key_set(post) == key_set(pre).insert(*c));
            assert((idx + 1) * 0xffff_ffff_ffff_ffff == idx * 0xffff_ffff_ffff_ffff + 0xffff_ffff_ffff_ffff) by (nonlinear_arith);
            assert(idx + 1 <= n);
            assert((idx + 1) * 0xffff_ffff_ffff_ffff <= 0xffff_ffff_ffff_ffff * 0xffff_ffff_ffff_ffff) by (nonlinear_arith)
                requires idx + 1 <= 0xffff_ffff_ffff_ffff;
        }
        total = total + *v as u128;
        proof {
            assert forall|x: usize| idx + 1 == it.seq().len() implies #[trigger] key_set(post).contains(x) == m@.dom().contains(x) by {
                assert(post =~= it.seq());
                lemma_key_set(post);
                if m@.contains_key(x) {
                    assert(it.seq().contains((&x, &m@[x])));
                    let j = choose|j: int| 0 <= j < it.seq().len() && it.seq()[j] == (&x, &m@[x]);
                    assert(*post[j].0 == x);
                }
                if key_set(post).contains(x) {
                    let j = choose|j: int| 0 <= j < post.len() && *post[j].0 == x;
                    assert(m@.contains_key(*it.seq()[j].0));
                }
            }
            assert(idx + 1 == it.seq().len() ==> key_set(post) =~= m@.dom());
        }
    }
    total
}

proof fn lemma_sum_of_prefix(rs: Seq<ChunkProcessingResult>, f: spec_fn(ChunkProcessingResult) -> nat, i: int)
    requires
        0 <= i <= rs.len(),
    ensures
        sum_of(rs.take(i), f) <= sum_of(rs, f),
    decreases rs.len() - i,
{
    if i < rs.len() {
        lemma_sum_of_prefix(rs, f, i + 1);
        assert(rs.take(i + 1).drop_last() =~= rs.take(i));
    } else {
        assert(rs.take(i) =~= rs);
    }
}

/// Matches of the check `kind` over every column of every result.
pub fn check_total_of(results: &[ChunkProcessingResult], kind: CheckKind) -> (r: usize)
    requires
        check_total(results@, kind) <= usize::MAX,
    ensures
        r == check_total(results@, kind),
{
    let ghost f = |r: ChunkProcessingResult| map_total(result_counts(r, kind));
    let mut total: usize = 0;
    let n = results.len();
    for i in 0..n
        invariant
            n == results@.len(),
            f == (|r: ChunkProcessingResult| map_total(result_counts(r, kind))),
            check_total(results@, kind) <= usize::MAX,
            total == sum_of(results@.take(i as int), f),
    {
        let r = &results[i];
        let m = match kind {
            CheckKind::NullLike => &r.null_counts,
            CheckKind::Empty => &r.empty_counts,
            CheckKind::WhitespaceOnly => &r.whitespace_counts,
        };
        let v = map_value_total(m);
        proof {
            let post = results@.take(i + 1);
            assert(post.drop_last() =~= results@.take(i as int));
            assert(post.last() == *r);
            assert(m@ == result_counts(*r, kind));
            lemma_sum_of_prefix(results@, f, i + 1);
        }
        total = total + v as usize;
    }
    proof {
        assert(results@.take(n as int) =~= results@);
    }
    total
}

} // verus!
