//! Scored moves and their ranking: by descending score, moves of equal
//! score in the order in which they were generated.

use vstd::prelude::*;
use crate::types::JieqiMove;

verus! {

/// A move with its score, in tenths of a point.
#[derive(Debug, Clone, Copy)]
pub struct ScoredMove {
    pub mv: JieqiMove,
    pub score: i64,
}

/// The ranked list `sorted` with `x` put in its place: behind every entry
/// that scores at least as much as `x`, before the others.
pub open spec fn insert_ranked(sorted: Seq<ScoredMove>, x: ScoredMove) -> Seq<ScoredMove>
    decreases sorted.len(),
{
    if sorted.len() == 0 {
        seq![x]
    } else if sorted.last().score >= x.score {
        sorted.push(x)
    } else {
        insert_ranked(sorted.drop_last(), x).push(sorted.last())
    }
}

/// The entries of `items` ranked: by descending score, entries of equal
/// score in the order in which they stand in `items`.
pub open spec fn ranked(items: Seq<ScoredMove>) -> Seq<ScoredMove>
    decreases items.len(),
{
    if items.len() == 0 {
        Seq::empty()
    } else {
        insert_ranked(ranked(items.drop_last()), items.last())
    }
}

/// Whether the scores of `s` never rise from one entry to the next.
pub open spec fn descending(s: Seq<ScoredMove>) -> bool {
    forall|i: int, j: int| 0 <= i < j < s.len() ==> s[i].score >= s[j].score
}

/// Putting an entry in its place keeps a ranked list ranked, and adds
/// the entry to what the list holds.
pub proof fn lemma_insert_ranked(sorted: Seq<ScoredMove>, x: ScoredMove)
    requires
        descending(sorted),
    ensures
        descending(insert_ranked(sorted, x)),
        insert_ranked(sorted, x).len() == sorted.len() + 1,
        insert_ranked(sorted, x).to_multiset() == sorted.to_multiset().insert(x),
    decreases sorted.len(),
{
    broadcast use vstd::seq_lib::group_to_multiset_ensures;

    if sorted.len() == 0 {
        assert(sorted =~= Seq::empty());
        assert(seq![x] =~= Seq::<ScoredMove>::empty().push(x));
    } else if sorted.last().score >= x.score {
        let r = sorted.push(x);
        assert forall|i: int, j: int| 0 <= i < j < r.len() implies r[i].score >= r[j].score by {
            if j == sorted.len() {
                assert(sorted[i].score >= sorted.last().score || i == sorted.len() - 1);
            }
        }
    } else {
        let head = sorted.drop_last();
        let last = sorted.last();
        assert(descending(head));
        lemma_insert_ranked(head, x);
        let inner = insert_ranked(head, x);
        let r = inner.push(last);
        assert(sorted =~= head.push(last));
        assert forall|i: int, j: int| 0 <= i < j < r.len() implies r[i].score >= r[j].score by {
            if j == inner.len() {
                assert(inner.to_multiset().count(inner[i]) > 0);
                if inner[i] != x {
                    assert(head.to_multiset().count(inner[i]) > 0);
                    assert(head.contains(inner[i]));
                    let k = choose|k: int| 0 <= k < head.len() && head[k] == inner[i];
                    assert(sorted[k].score >= sorted[sorted.len() - 1].score);
                }
            }
        }
        assert(r.to_multiset() =~= sorted.to_multiset().insert(x));
    }
}

/// A ranking is in descending order of score and holds exactly the
/// entries that were ranked, each as often as it was given.
pub proof fn lemma_ranked(items: Seq<ScoredMove>)
    ensures
        descending(ranked(items)),
        ranked(items).len() == items.len(),
        ranked(items).to_multiset() == items.to_multiset(),
    decreases items.len(),
{
    broadcast use vstd::seq_lib::group_to_multiset_ensures;

    if items.len() == 0 {
        assert(items =~= Seq::empty());
    } else {
        lemma_ranked(items.drop_last());
        lemma_insert_ranked(ranked(items.drop_last()), items.last());
        assert(items =~= items.drop_last().push(items.last()));
    }
}

/// The moves of `s`, in its order.
pub open spec fn moves_of(s: Seq<ScoredMove>) -> Seq<JieqiMove> {
    Seq::new(s.len(), |k: int| s[k].mv)
}

/// Whether `ranking` ranks `moves`: it is in descending order of score,
/// and it holds each move as often as `moves` holds it, so every move
/// once where `moves` holds every move once.
pub open spec fn ranks_all(ranking: Seq<ScoredMove>, moves: Seq<JieqiMove>) -> bool {
    descending(ranking) && moves_of(ranking).to_multiset() == moves.to_multiset()
}

/// Whether `raised` is `base` with each score raised by less than
/// `bound`, or kept where `bound` is zero.
pub open spec fn raised_below(base: Seq<ScoredMove>, raised: Seq<ScoredMove>, bound: int) -> bool {
    &&& raised.len() == base.len()
    &&& forall|k: int|
        0 <= k < base.len() ==> (#[trigger] raised[k]).mv == base[k].mv && base[k].score
            <= raised[k].score && (raised[k].score == base[k].score || raised[k].score
            < base[k].score + bound)
}

proof fn lemma_insert_moves(sorted: Seq<ScoredMove>, x: ScoredMove)
    ensures
        moves_of(insert_ranked(sorted, x)).to_multiset() == moves_of(sorted).to_multiset().insert(
            x.mv,
        ),
    decreases sorted.len(),
{
    broadcast use vstd::seq_lib::group_to_multiset_ensures;

    if sorted.len() == 0 {
        assert(moves_of(sorted) =~= Seq::empty());
        assert(moves_of(seq![x]) =~= Seq::<JieqiMove>::empty().push(x.mv));
    } else if sorted.last().score >= x.score {
        assert(moves_of(sorted.push(x)) =~= moves_of(sorted).push(x.mv));
    } else {
        let head = sorted.drop_last();
        let last = sorted.last();
        lemma_insert_moves(head, x);
        let inner = insert_ranked(head, x);
        assert(moves_of(inner.push(last)) =~= moves_of(inner).push(last.mv));
        assert(moves_of(sorted) =~= moves_of(head).push(last.mv));
        assert(moves_of(inner).push(last.mv).to_multiset() =~= moves_of(head).push(
            last.mv,
        ).to_multiset().insert(x.mv));
    }
}

/// A ranking holds the moves that were ranked, each as often as it was
/// given.
pub proof fn lemma_ranked_moves(items: Seq<ScoredMove>)
    ensures
        moves_of(ranked(items)).to_multiset() == moves_of(items).to_multiset(),
        ranks_all(ranked(items), moves_of(items)),
    decreases items.len(),
{
    broadcast use vstd::seq_lib::group_to_multiset_ensures;

    lemma_ranked(items);
    if items.len() == 0 {
        assert(moves_of(items) =~= moves_of(ranked(items)));
    } else {
        lemma_ranked_moves(items.drop_last());
        lemma_insert_moves(ranked(items.drop_last()), items.last());
        assert(moves_of(items) =~= moves_of(items.drop_last()).push(items.last().mv));
    }
}

/// Ranking a list that is in descending order leaves it as it is.
pub proof fn lemma_ranked_keeps_order(s: Seq<ScoredMove>)
    requires
        descending(s),
    ensures
        ranked(s) == s,
    decreases s.len(),
{
    if s.len() == 0 {
        assert(s =~= Seq::empty());
    } else {
        let head = s.drop_last();
        lemma_ranked_keeps_order(head);
        if head.len() > 0 {
            assert(head.last() == s[s.len() - 2]);
            assert(s[s.len() - 2].score >= s[s.len() - 1].score);
        }
        assert(insert_ranked(head, s.last()) =~= head.push(s.last()));
        assert(head.push(s.last()) =~= s);
    }
}

/// Puts `x` in its place in the ranked list `out`.
pub fn insert_scored(out: &mut Vec<ScoredMove>, x: ScoredMove)
    ensures
        final(out)@ == insert_ranked(old(out)@, x),
{
    let ghost before = out@;
    let mut j: usize = out.len();
    out.push(x);
    assert(before.take(j as int) =~= before);
    assert(before.skip(j as int) =~= Seq::empty());
    assert(insert_ranked(before.take(j as int), x) + before.skip(j as int) =~= insert_ranked(
        before,
        x,
    ));
    while j > 0 && out[j - 1].score < x.score
        invariant
            j <= before.len(),
            out@.len() == before.len() + 1,
            out@ == before.take(j as int).push(x) + before.skip(j as int),
            insert_ranked(before, x) == insert_ranked(before.take(j as int), x) + before.skip(
                j as int,
            ),
        decreases j,
    {
        let prev = out[j - 1];
        assert(prev == before[j - 1]);
        out.set(j, prev);
        out.set(j - 1, x);
        proof {
            let head = before.take(j as int);
            assert(head.last() == before[j - 1]);
            assert(head.drop_last() =~= before.take(j - 1));
            assert(insert_ranked(head, x) == insert_ranked(before.take(j - 1), x).push(
                before[j - 1],
            ));
            assert(before.skip(j - 1) =~= seq![before[j - 1]] + before.skip(j as int));
            assert(insert_ranked(before.take(j - 1), x).push(before[j - 1]) + before.skip(
                j as int,
            ) =~= insert_ranked(before.take(j - 1), x) + before.skip(j - 1));
            assert(out@ =~= before.take(j - 1).push(x) + before.skip(j - 1));
        }
        j -= 1;
    }
    proof {
        let head = before.take(j as int);
        if j > 0 {
            assert(head.last() == before[j - 1]);
            assert(out@[j - 1] == before[j - 1]);
        }
        assert(insert_ranked(head, x) == head.push(x));
    }
}

/// The entries of `items`, ranked.
pub fn rank_moves(items: &Vec<ScoredMove>) -> (out: Vec<ScoredMove>)
    ensures
        out@ == ranked(items@),
{
    let mut out: Vec<ScoredMove> = Vec::with_capacity(items.len());
    let mut i: usize = 0;
    assert(items@.take(0) =~= Seq::empty());
    while i < items.len()
        invariant
            i <= items.len(),
            out@ == ranked(items@.take(i as int)),
        decreases items.len() - i,
    {
        assert(items@.take(i + 1).drop_last() =~= items@.take(i as int));
        insert_scored(&mut out, items[i]);
        i += 1;
    }
    assert(items@.take(items.len() as int) =~= items@);
    out
}

/// Ranks `scored` and keeps the first `n` entries of the ranking.
pub fn sort_and_truncate(scored: &mut Vec<ScoredMove>, n: usize)
    ensures
        final(scored)@ == ranked(old(scored)@).take(
            if n < old(scored)@.len() {
                n as int
            } else {
                old(scored)@.len() as int
            },
        ),
{
    let mut out = rank_moves(scored);
    proof {
        lemma_ranked(scored@);
    }
    out.truncate(n);
    if n >= scored.len() {
        assert(out@ =~= ranked(scored@).take(scored@.len() as int));
    }
    *scored = out;
}

} // verus!
