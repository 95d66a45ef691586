//! Stable descending sort of repository records by star count.

use vstd::prelude::*;
use crate::repo::{Repo, RepoModel, models_of};

verus! {

/// Place `x` into `s` after every entry whose star count is at least
/// `x.star_count` and before the first entry with fewer stars.
pub open spec fn insert_desc(s: Seq<RepoModel>, x: RepoModel) -> Seq<RepoModel>
    decreases s.len(),
{
    if s.len() == 0 {
        seq![x]
    } else if s[0].star_count >= x.star_count {
        seq![s[0]] + insert_desc(s.drop_first(), x)
    } else {
        seq![x] + s
    }
}

/// Stable descending insertion sort: entries are taken in their original
/// order and each is placed after all entries with at least its star count,
/// so ties keep their original relative order.
pub open spec fn sort_desc(s: Seq<RepoModel>) -> Seq<RepoModel>
    decreases s.len(),
{
    if s.len() == 0 {
        Seq::empty()
    } else {
        insert_desc(sort_desc(s.drop_last()), s.last())
    }
}

/// Star counts never increase from one entry to the next.
pub open spec fn sorted_desc(s: Seq<RepoModel>) -> bool {
    forall|i: int, j: int| 0 <= i <= j < s.len() ==> s[i].star_count >= s[j].star_count
}

/// The first index of `s` whose entry has fewer than `stars` stars, or
/// `s.len()` when there is none.
pub open spec fn first_below(s: Seq<RepoModel>, stars: u64) -> int
    decreases s.len(),
{
    if s.len() == 0 {
        0
    } else if s[0].star_count >= stars {
        1 + first_below(s.drop_first(), stars)
    } else {
        0
    }
}

proof fn lemma_first_below_props(s: Seq<RepoModel>, stars: u64)
    ensures
        0 <= first_below(s, stars) <= s.len(),
        forall|k: int| 0 <= k < first_below(s, stars) ==> s[k].star_count >= stars,
        first_below(s, stars) < s.len() ==> s[first_below(s, stars)].star_count < stars,
    decreases s.len(),
{
    if s.len() > 0 && s[0].star_count >= stars {
        lemma_first_below_props(s.drop_first(), stars);
        let p = first_below(s, stars);
        assert forall|k: int| 0 <= k < p implies s[k].star_count >= stars by {
            if k > 0 {
                assert(s.drop_first()[k - 1] == s[k]);
            }
        }
        if p < s.len() {
            assert(s.drop_first()[p - 1] == s[p]);
        }
    }
}

/// `insert_desc` splits `s` at the first entry with fewer stars than `x`.
proof fn lemma_insert_desc_split(s: Seq<RepoModel>, x: RepoModel)
    ensures
        insert_desc(s, x) == s.take(first_below(s, x.star_count)) + seq![x] + s.skip(
            first_below(s, x.star_count),
        ),
    decreases s.len(),
{
    let p = first_below(s, x.star_count);
    if s.len() == 0 {
        assert(insert_desc(s, x) =~= s.take(p) + seq![x] + s.skip(p));
    } else if s[0].star_count >= x.star_count {
        lemma_insert_desc_split(s.drop_first(), x);
        let r = s.drop_first();
        let q = first_below(r, x.star_count);
        lemma_first_below_props(s, x.star_count);
        lemma_first_below_props(r, x.star_count);
        assert(insert_desc(s, x) =~= s.take(p) + seq![x] + s.skip(p)) by {
            assert(insert_desc(s, x) == seq![s[0]] + (r.take(q) + seq![x] + r.skip(q)));
            assert(s.take(p) =~= seq![s[0]] + r.take(q));
            assert(s.skip(p) =~= r.skip(q));
        }
    } else {
        assert(insert_desc(s, x) =~= s.take(p) + seq![x] + s.skip(p));
    }
}

proof fn lemma_insert_desc_sorted(s: Seq<RepoModel>, x: RepoModel)
    requires
        sorted_desc(s),
    ensures
        sorted_desc(insert_desc(s, x)),
{
    let p = first_below(s, x.star_count);
    lemma_first_below_props(s, x.star_count);
    lemma_insert_desc_split(s, x);
    let t = s.take(p) + seq![x] + s.skip(p);
    assert forall|i: int, j: int| 0 <= i <= j < t.len() implies t[i].star_count
        >= t[j].star_count by {
        if i < p {
            assert(t[i] == s[i]);
        } else if i == p {
            assert(t[i] == x);
        } else {
            assert(t[i] == s[i - 1]);
        }
        if j < p {
            assert(t[j] == s[j]);
        } else if j == p {
            assert(t[j] == x);
        } else {
            assert(t[j] == s[j - 1]);
        }
    }
}

proof fn lemma_sort_desc_sorted_aux(s: Seq<RepoModel>)
    ensures
        sorted_desc(sort_desc(s)),
    decreases s.len(),
{
    if s.len() > 0 {
        lemma_sort_desc_sorted_aux(s.drop_last());
        lemma_insert_desc_sorted(sort_desc(s.drop_last()), s.last());
    }
}

/// The sorted list never shows a smaller star count before a larger one.
pub proof fn lemma_sort_desc_sorted(s: Seq<RepoModel>)
    ensures
        sorted_desc(sort_desc(s)),
{
    lemma_sort_desc_sorted_aux(s);
}

proof fn lemma_filter_none(s: Seq<RepoModel>, pred: spec_fn(RepoModel) -> bool)
    requires
        forall|i: int| 0 <= i < s.len() ==> !pred(s[i]),
    ensures
        s.filter(pred) == Seq::<RepoModel>::empty(),
    decreases s.len(),
{
    reveal_with_fuel(Seq::<_>::filter, 4);
    if s.len() > 0 {
        lemma_filter_none(s.drop_last(), pred);
    }
}

proof fn lemma_insert_desc_filter(s: Seq<RepoModel>, x: RepoModel, stars: u64)
    requires
        sorted_desc(s),
    ensures
        x.star_count == stars ==> insert_desc(s, x).filter(|r: RepoModel| r.star_count == stars)
            == s.filter(|r: RepoModel| r.star_count == stars) + seq![x],
        x.star_count != stars ==> insert_desc(s, x).filter(|r: RepoModel| r.star_count == stars)
            == s.filter(|r: RepoModel| r.star_count == stars),
{
    broadcast use Seq::filter_distributes_over_add;

    let pred = |r: RepoModel| r.star_count == stars;
    let p = first_below(s, x.star_count);
    lemma_first_below_props(s, x.star_count);
    lemma_insert_desc_split(s, x);
    assert(s =~= s.take(p) + s.skip(p));
    assert(insert_desc(s, x) == (s.take(p) + seq![x]) + s.skip(p));
    assert(s.filter(pred) == s.take(p).filter(pred) + s.skip(p).filter(pred));
    reveal_with_fuel(Seq::<_>::filter, 4);
    assert(seq![x].drop_last() =~= Seq::<RepoModel>::empty());
    if x.star_count == stars {
        assert(seq![x].filter(pred) =~= seq![x]);
        assert forall|i: int| 0 <= i < s.skip(p).len() implies !pred(s.skip(p)[i]) by {
            assert(s.skip(p)[i] == s[p + i]);
            assert(s[p].star_count >= s[p + i].star_count);
        }
        lemma_filter_none(s.skip(p), pred);
        assert(insert_desc(s, x).filter(pred) =~= s.filter(pred) + seq![x]);
    } else {
        assert(seq![x].filter(pred) =~= Seq::<RepoModel>::empty());
        assert(insert_desc(s, x).filter(pred) =~= s.filter(pred));
    }
}

proof fn lemma_sort_desc_stable_aux(s: Seq<RepoModel>, stars: u64)
    ensures
        sort_desc(s).filter(|r: RepoModel| r.star_count == stars) == s.filter(
            |r: RepoModel| r.star_count == stars,
        ),
    decreases s.len(),
{
    broadcast use Seq::filter_distributes_over_add;

    let pred = |r: RepoModel| r.star_count == stars;
    if s.len() == 0 {
        assert(sort_desc(s).filter(pred) =~= s.filter(pred));
    } else {
        let init = s.drop_last();
        let x = s.last();
        lemma_sort_desc_stable_aux(init, stars);
        lemma_sort_desc_sorted(init);
        lemma_insert_desc_filter(sort_desc(init), x, stars);
        assert(s =~= init + seq![x]);
        reveal_with_fuel(Seq::<_>::filter, 4);
        assert(seq![x].drop_last() =~= Seq::<RepoModel>::empty());
        if x.star_count == stars {
            assert(seq![x].filter(pred) =~= seq![x]);
        } else {
            assert(seq![x].filter(pred) =~= Seq::<RepoModel>::empty());
        }
        assert(sort_desc(s).filter(pred) == s.filter(pred));
    }
}

proof fn lemma_insert_desc_multiset(s: Seq<RepoModel>, x: RepoModel)
    ensures
        insert_desc(s, x).to_multiset() == s.to_multiset().insert(x),
{
    let p = first_below(s, x.star_count);
    lemma_first_below_props(s, x.star_count);
    lemma_insert_desc_split(s, x);
    assert(insert_desc(s, x) =~= s.insert(p, x));
    vstd::seq_lib::to_multiset_insert(s, p, x);
}

/// The sorted list holds exactly the input's entries: sorting neither
/// drops, adds nor duplicates a record.
pub proof fn lemma_sort_desc_permutes(s: Seq<RepoModel>)
    ensures
        sort_desc(s).to_multiset() == s.to_multiset(),
    decreases s.len(),
{
    broadcast use vstd::seq_lib::group_to_multiset_ensures;

    if s.len() > 0 {
        let init = s.drop_last();
        let x = s.last();
        lemma_sort_desc_permutes(init);
        lemma_insert_desc_multiset(sort_desc(init), x);
        assert(init.push(x) =~= s);
        assert(sort_desc(s).to_multiset() =~= s.to_multiset());
    }
}

/// Stability: for every star count, the entries carrying it appear in the
/// sorted list exactly as they appeared in the input, in the same order.
pub proof fn lemma_sort_desc_stable(s: Seq<RepoModel>, stars: u64)
    ensures
        sort_desc(s).filter(|r: RepoModel| r.star_count == stars) == s.filter(
            |r: RepoModel| r.star_count == stars,
        ),
{
    lemma_sort_desc_stable_aux(s, stars);
}

fn insertion_point(out: &Vec<Repo>, stars: u64) -> (pos: usize)
    requires
        sorted_desc(models_of(out@)),
    ensures
        pos <= out@.len(),
        pos == first_below(models_of(out@), stars),
{
    proof {
        lemma_first_below_props(models_of(out@), stars);
    }
    let mut pos: usize = 0;
    while pos < out.len() && out[pos].star_count >= stars
        invariant
            0 <= pos <= out@.len(),
            forall|k: int| 0 <= k < pos ==> models_of(out@)[k].star_count >= stars,
        decreases out@.len() - pos,
    {
        pos = pos + 1;
    }
    proof {
        let m = models_of(out@);
        let p = first_below(m, stars);
        lemma_first_below_props(m, stars);
        if pos < p {
            assert(m[pos as int].star_count >= stars);
        }
        if p < pos {
            assert(m[p].star_count >= stars);
        }
    }
    pos
}

/// Sort the records by star count, largest first; records with equal star
/// counts keep their original relative order.
pub fn sort_by_stars_desc(repos: Vec<Repo>) -> (r: Vec<Repo>)
    ensures
        models_of(r@) == sort_desc(models_of(repos@)),
        sorted_desc(models_of(r@)),
{
    let ghost orig = repos@;
    let mut rest = repos;
    let mut out: Vec<Repo> = Vec::new();
    proof {
        assert(models_of(out@) =~= sort_desc(models_of(orig.take(0))));
        assert(rest@ =~= orig.skip(0));
    }
    while rest.len() > 0
        invariant
            rest@.len() <= orig.len(),
            rest@ == orig.skip(orig.len() - rest@.len()),
            models_of(out@) == sort_desc(models_of(orig.take(orig.len() - rest@.len()))),
            sorted_desc(models_of(out@)),
        decreases rest@.len(),
    {
        let ghost i = orig.len() - rest@.len();
        let x = rest.remove(0);
        proof {
            assert(x == orig[i]);
            assert(rest@ =~= orig.skip(i + 1));
        }
        let pos = insertion_point(&out, x.star_count);
        proof {
            lemma_insert_desc_split(models_of(out@), x@);
            lemma_insert_desc_sorted(models_of(out@), x@);
        }
        let ghost before = models_of(out@);
        out.insert(pos, x);
        proof {
            assert(models_of(out@) =~= before.take(pos as int) + seq![x@] + before.skip(
                pos as int,
            ));
            assert(models_of(out@) == insert_desc(before, x@));
            let t = orig.take(i + 1);
            assert(t.drop_last() =~= orig.take(i));
            assert(t.last() == orig[i]);
            assert(models_of(t).drop_last() =~= models_of(t.drop_last()));
            assert(models_of(t).last() == orig[i]@);
            assert(sort_desc(models_of(t)) == insert_desc(
                sort_desc(models_of(orig.take(i))),
                orig[i]@,
            ));
        }
    }
    proof {
        assert(orig.take(orig.len() as int) =~= orig);
    }
    out
}

} // verus!
