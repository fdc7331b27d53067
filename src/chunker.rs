//! The chunk source: groups a stream of records into bounded, ordered batches.
use crate::processor::Record;
use vstd::arithmetic::div_mod::{lemma_div_plus_one, lemma_mod_add_multiples_vanish, lemma_small_mod};
use vstd::prelude::*;

verus! {

/// The batches of `s` with `n` items each, the last one possibly shorter.
pub open spec fn chunks_of<A>(s: Seq<A>, n: nat) -> Seq<Seq<A>>
    decreases s.len(),
{
    if n == 0 || s.len() == 0 {
        seq![]
    } else if s.len() <= n {
        seq![s]
    } else {
        seq![s.take(n as int)] + chunks_of(s.skip(n as int), n)
    }
}

/// The batches laid end to end.
pub open spec fn concat<A>(cs: Seq<Seq<A>>) -> Seq<A>
    decreases cs.len(),
{
    if cs.len() == 0 {
        seq![]
    } else {
        cs[0] + concat(cs.drop_first())
    }
}

pub proof fn lemma_concat_push<A>(cs: Seq<Seq<A>>, c: Seq<A>)
    ensures
        concat(cs.push(c)) == concat(cs) + c,
    decreases cs.len(),
{
    if cs.len() == 0 {
        assert(cs.push(c).drop_first() =~= seq![]);
        assert(concat(cs.push(c).drop_first()) =~= seq![]);
        assert(concat(cs.push(c)) =~= c);
    } else {
        assert(cs.push(c).drop_first() =~= cs.drop_first().push(c));
        lemma_concat_push(cs.drop_first(), c);
        assert(concat(cs.push(c)) =~= concat(cs) + c);
    }
}

proof fn lemma_concat_full_len<A>(cs: Seq<Seq<A>>, n: nat)
    requires
        forall|i: int| 0 <= i < cs.len() ==> (#[trigger] cs[i]).len() == n,
    ensures
        concat(cs).len() == cs.len() * n,
    decreases cs.len(),
{
    if cs.len() > 0 {
        assert forall|i: int| 0 <= i < cs.drop_first().len() implies (#[trigger] cs.drop_first()[i]).len() == n by {
            assert(cs.drop_first()[i] == cs[i + 1]);
        }
        lemma_concat_full_len(cs.drop_first(), n);
        assert(cs.len() * n == n + (cs.len() - 1) * n) by (nonlinear_arith);
    }
}

/// Full batches followed by a shorter remainder are exactly the batches of their concatenation.
proof fn lemma_chunks_of_concat<A>(cs: Seq<Seq<A>>, p: Seq<A>, n: nat)
    requires
        n > 0,
        forall|i: int| 0 <= i < cs.len() ==> (#[trigger] cs[i]).len() == n,
        p.len() < n,
    ensures
        chunks_of(concat(cs) + p, n) == (if p.len() == 0 { cs } else { cs.push(p) }),
        chunks_of(concat(cs), n) == cs,
    decreases cs.len(),
{
    if cs.len() == 0 {
        assert(concat(cs) + p =~= p);
        if p.len() > 0 {
            assert(cs.push(p) =~= seq![p]);
        }
        assert(chunks_of(concat(cs), n) =~= cs);
    } else {
        let rest = cs.drop_first();
        assert forall|i: int| 0 <= i < rest.len() implies (#[trigger] rest[i]).len() == n by {
            assert(rest[i] == cs[i + 1]);
        }
        lemma_chunks_of_concat(rest, p, n);
        lemma_concat_full_len(rest, n);
        let s = concat(cs) + p;
        assert(cs[0].len() == n);
        assert(s =~= cs[0] + (concat(rest) + p));
        if s.len() <= n {
            assert(concat(rest) + p =~= seq![]);
            assert(rest.len() == 0) by {
                if rest.len() > 0 {
                    assert(rest.len() * n >= n) by (nonlinear_arith)
                        requires rest.len() > 0, n > 0;
                }
            }
            assert(s =~= cs[0]);
            assert(cs =~= seq![cs[0]]);
            assert(p.len() == 0);
        } else {
            assert(s.take(n as int) =~= cs[0]);
            assert(s.skip(n as int) =~= concat(rest) + p);
            if p.len() == 0 {
                assert(cs =~= seq![cs[0]] + rest);
            } else {
                assert(cs.push(p) =~= seq![cs[0]] + rest.push(p));
            }
        }
        let t = concat(cs);
        assert(t =~= cs[0] + concat(rest));
        if t.len() <= n {
            assert(rest.len() == 0) by {
                if rest.len() > 0 {
                    assert(rest.len() * n >= n) by (nonlinear_arith)
                        requires rest.len() > 0, n > 0;
                }
            }
            assert(t =~= cs[0]);
            assert(cs =~= seq![cs[0]]);
        } else {
            assert(t.take(n as int) =~= cs[0]);
            assert(t.skip(n as int) =~= concat(rest));
            assert(cs =~= seq![cs[0]] + rest);
        }
    }
}

/// For a batch size `n >= 1` and `R` records: there are `ceil(R / n)` batches, none empty,
/// every batch but the last holds `n` records, the last holds `R mod n` records (or `n` when
/// `n` divides `R`), and the batches laid end to end give back the records in order.
pub proof fn law_chunk_shape<A>(s: Seq<A>, n: nat)
    requires
        n >= 1,
    ensures
        chunks_of(s, n).len() == (s.len() + n - 1) / n as int,
        forall|i: int| 0 <= i < chunks_of(s, n).len() ==> (#[trigger] chunks_of(s, n)[i]).len() > 0,
        forall|i: int| 0 <= i < chunks_of(s, n).len() - 1 ==> (#[trigger] chunks_of(s, n)[i]).len() == n,
        s.len() > 0 ==> chunks_of(s, n).last().len() == (if s.len() % n == 0 { n } else { s.len() % n }),
        concat(chunks_of(s, n)) == s,
    decreases s.len(),
{
    let cs = chunks_of(s, n);
    if s.len() == 0 {
        assert((n - 1) / n as int == 0) by (nonlinear_arith)
            requires n >= 1;
        assert(concat(cs) =~= s);
    } else if s.len() <= n {
        assert((s.len() + n - 1) / n as int == 1) by (nonlinear_arith)
            requires n >= 1, 0 < s.len() <= n;
        if s.len() == n {
            assert(s.len() % n == 0) by (nonlinear_arith)
                requires s.len() == n, n >= 1;
        } else {
            lemma_small_mod(s.len(), n);
        }
        assert(cs.drop_first() =~= seq![]);
        assert(concat(cs.drop_first()) =~= seq![]);
        assert(concat(cs) =~= s);
    } else {
        let rest = s.skip(n as int);
        law_chunk_shape(rest, n);
        let rc = chunks_of(rest, n);
        assert(cs == seq![s.take(n as int)] + rc);
        lemma_div_plus_one(rest.len() + n - 1, n as int);
        assert(s.len() + n - 1 == n + (rest.len() + n - 1));
        lemma_mod_add_multiples_vanish(rest.len() as int, n as int);
        assert(s.len() == n + rest.len());
        assert forall|i: int| 0 <= i < cs.len() implies (#[trigger] cs[i]).len() > 0 by {
            if i > 0 {
                assert(cs[i] == rc[i - 1]);
            }
        }
        assert forall|i: int| 0 <= i < cs.len() - 1 implies (#[trigger] cs[i]).len() == n by {
            if i > 0 {
                assert(cs[i] == rc[i - 1]);
            }
        }
        assert(rest.len() > 0);
        assert(cs.last() == rc.last());
        assert(cs.drop_first() =~= rc);
        assert(concat(cs) =~= s.take(n as int) + concat(rc));
        assert(s =~= s.take(n as int) + rest);
    }
}

/// Groups records into batches of a fixed size as they arrive.
pub struct CsvChunkIterator {
    chunk_size: usize,
    pending: Vec<Record>,
    finished: bool,
    consumed: Ghost<Seq<Record>>,
    emitted: Ghost<Seq<Seq<Record>>>,
}

impl CsvChunkIterator {
    /// The configured batch size.
    pub closed spec fn spec_chunk_size(&self) -> nat {
        self.chunk_size as nat
    }

    /// Every record pushed so far, in order.
    pub closed spec fn consumed(&self) -> Seq<Record> {
        self.consumed@
    }

    /// Every batch handed out so far, in order.
    pub closed spec fn emitted(&self) -> Seq<Seq<Record>> {
        self.emitted@
    }

    /// Whether the end of the record stream has been signalled.
    pub closed spec fn is_finished(&self) -> bool {
        self.finished
    }

    pub closed spec fn wf(&self) -> bool {
        &&& self.chunk_size > 0
        &&& self.pending@.len() < self.chunk_size
        &&& if self.finished {
            &&& self.pending@.len() == 0
            &&& self.emitted@ == chunks_of(self.consumed@, self.chunk_size as nat)
        } else {
            &&& forall|i: int| 0 <= i < self.emitted@.len() ==> (#[trigger] self.emitted@[i]).len() == self.chunk_size
            &&& self.consumed@ == concat(self.emitted@) + self.pending@
        }
    }

    /// What has been handed out is always the batching of what was consumed, once the end is
    /// signalled; before that, the batching of every record up to the last full batch.
    pub proof fn lemma_emitted(&self)
        requires
            self.wf(),
        ensures
            self.spec_chunk_size() > 0,
            !self.is_finished() ==> self.consumed().len() % self.spec_chunk_size() == self.consumed().len() - concat(self.emitted()).len(),
            !self.is_finished() ==> self.emitted() == chunks_of(concat(self.emitted()), self.spec_chunk_size()),
            !self.is_finished() ==> concat(self.emitted()) == self.consumed().take(concat(self.emitted()).len() as int),
            self.is_finished() ==> self.emitted() == chunks_of(self.consumed(), self.spec_chunk_size()),
            concat(self.emitted()).len() <= self.consumed().len(),
            !self.is_finished() ==> forall|i: int| 0 <= i < self.emitted().len() ==> (#[trigger] self.emitted()[i]).len() == self.spec_chunk_size(),
            !self.is_finished() ==> concat(self.emitted()).len() == self.emitted().len() * self.spec_chunk_size(),
    {
        if self.finished {
            law_chunk_shape(self.consumed@, self.chunk_size as nat);
            return;
        }
        let n = self.chunk_size as nat;
        lemma_chunks_of_concat(self.emitted@, self.pending@, n);
        lemma_concat_full_len(self.emitted@, n);
        let e = self.emitted@.len();
        let p = self.pending@.len();
        assert(((e * n + p) as int) % (n as int) == p) by {
            lemma_small_mod(p as nat, n);
            vstd::arithmetic::div_mod::lemma_mod_multiples_vanish(e as int, p as int, n as int);
        }
        assert(self.consumed@.take(concat(self.emitted@).len() as int) =~= concat(self.emitted@));
    }

    /// A chunk source with batches of `chunk_size` records; nothing consumed yet.
    pub fn new(chunk_size: usize) -> (r: CsvChunkIterator)
        requires
            chunk_size > 0,
        ensures
            r.wf(),
            r.spec_chunk_size() == chunk_size,
            r.consumed() == Seq::<Record>::empty(),
            r.emitted() == Seq::<Seq<Record>>::empty(),
            !r.is_finished(),
    {
        let r = CsvChunkIterator {
            chunk_size,
            pending: Vec::new(),
            finished: false,
            consumed: Ghost(Seq::empty()),
            emitted: Ghost(Seq::empty()),
        };
        proof {
            assert(r.consumed@ =~= concat(r.emitted@) + r.pending@);
        }
        r
    }

    /// Takes the next record; hands out a batch when it has become full.
    pub fn push_record(&mut self, record: Record) -> (r: Option<Vec<Record>>)
        requires
            old(self).wf(),
            !old(self).is_finished(),
        ensures
            final(self).wf(),
            !final(self).is_finished(),
            final(self).spec_chunk_size() == old(self).spec_chunk_size(),
            final(self).consumed() == old(self).consumed().push(record),
            (r is Some) == (final(self).consumed().len() % final(self).spec_chunk_size() == 0),
            match r {
                Some(c) => final(self).emitted() == old(self).emitted().push(c@),
                None => final(self).emitted() == old(self).emitted(),
            },
    {
        self.pending.push(record);
        proof {
            self.consumed@ = self.consumed@.push(record);
            assert(self.consumed@ =~= concat(self.emitted@) + self.pending@);
        }
        if self.pending.len() == self.chunk_size {
            let mut chunk: Vec<Record> = Vec::new();
            std::mem::swap(&mut chunk, &mut self.pending);
            proof {
                lemma_concat_push(self.emitted@, chunk@);
                self.emitted@ = self.emitted@.push(chunk@);
                assert(self.consumed@ =~= concat(self.emitted@) + self.pending@);
                self.lemma_emitted();
            }
            Some(chunk)
        } else {
            proof {
                self.lemma_emitted();
            }
            None
        }
    }

    /// Signals the end of the record stream; hands out the last, shorter batch if any.
    pub fn finish(&mut self) -> (r: Option<Vec<Record>>)
        requires
            old(self).wf(),
        ensures
            final(self).wf(),
            final(self).is_finished(),
            final(self).spec_chunk_size() == old(self).spec_chunk_size(),
            final(self).consumed() == old(self).consumed(),
            old(self).is_finished() ==> r is None && final(self).emitted() == old(self).emitted(),
            final(self).emitted() == chunks_of(final(self).consumed(), final(self).spec_chunk_size()),
            (r is Some) == (final(self).emitted().len() > old(self).emitted().len()),
            match r {
                Some(c) => final(self).emitted() == old(self).emitted().push(c@) && c@.len() > 0,
                None => final(self).emitted() == old(self).emitted(),
            },
    {
        if self.finished {
            return None;
        }
        proof {
            lemma_chunks_of_concat(self.emitted@, self.pending@, self.chunk_size as nat);
        }
        if self.pending.len() > 0 {
            let mut chunk: Vec<Record> = Vec::new();
            std::mem::swap(&mut chunk, &mut self.pending);
            proof {
                self.emitted@ = self.emitted@.push(chunk@);
            }
            self.finished = true;
            Some(chunk)
        } else {
            self.finished = true;
            None
        }
    }

    pub fn chunk_size(&self) -> (r: usize)
        ensures
            r == self.spec_chunk_size(),
    {
        self.chunk_size
    }
}

} // verus!
