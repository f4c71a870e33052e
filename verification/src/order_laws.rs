//! What does not matter to the normal form of subtitles: how they are numbered, in which order they
//! come, and what stands between them without saying anything.
use vstd::prelude::*;
use crate::srt::{
    absorbed, grouped, grown, in_order, inserted, lemma_reach_bound, normal_form, not_after, numbered,
    ordered, proper, reach, short, spoken, EntryModel,
};
use crate::srt_laws::law_sort_is_stable;

verus! {

/// The entry without its number.
pub open spec fn unnumbered(e: EntryModel) -> EntryModel {
    EntryModel { index: 0, ..e }
}

/// The entries without their numbers.
pub open spec fn all_unnumbered(s: Seq<EntryModel>) -> Seq<EntryModel> {
    Seq::new(s.len(), |i: int| unnumbered(s[i]))
}

/// The entries start and end together.
pub open spec fn same_times(a: EntryModel, b: EntryModel) -> bool {
    a.start == b.start && a.end == b.end
}

/// No two entries start and end together.
pub open spec fn distinct_times(s: Seq<EntryModel>) -> bool {
    forall|i: int, j: int|
        0 <= i < j < s.len() ==> !same_times(#[trigger] s[i], #[trigger] s[j])
}

spec fn told_by_times(s: Seq<EntryModel>) -> bool {
    forall|a: EntryModel, b: EntryModel|
        #[trigger] s.contains(a) && #[trigger] s.contains(b) && same_times(a, b) ==> a == b
}

proof fn lemma_inserted_unnumbered(s: Seq<EntryModel>, e: EntryModel)
    ensures
        inserted(all_unnumbered(s), unnumbered(e)) == all_unnumbered(inserted(s, e)),
    decreases s.len(),
{
    let u = all_unnumbered(s);
    if s.len() == 0 || not_after(s.last(), e) {
        assert(u.push(unnumbered(e)) =~= all_unnumbered(s.push(e)));
    } else {
        let d = s.drop_last();
        lemma_inserted_unnumbered(d, e);
        assert(u.drop_last() =~= all_unnumbered(d));
        assert(all_unnumbered(inserted(d, e)).push(u.last()) =~= all_unnumbered(inserted(s, e)));
    }
}

proof fn lemma_ordered_unnumbered(s: Seq<EntryModel>)
    ensures
        ordered(all_unnumbered(s)) == all_unnumbered(ordered(s)),
    decreases s.len(),
{
    if s.len() == 0 {
        assert(all_unnumbered(s) =~= s);
    } else {
        let d = s.drop_last();
        lemma_ordered_unnumbered(d);
        assert(all_unnumbered(s).drop_last() =~= all_unnumbered(d));
        lemma_inserted_unnumbered(ordered(d), s.last());
    }
}

proof fn lemma_grown_unnumbered(e: EntryModel, rest: Seq<EntryModel>)
    ensures
        grown(unnumbered(e), all_unnumbered(rest)) == unnumbered(grown(e, rest)),
        reach(unnumbered(e), all_unnumbered(rest)) == reach(e, rest),
    decreases rest.len(),
{
    if short(e) && rest.len() > 0 {
        let next = absorbed(e, rest[0]);
        lemma_grown_unnumbered(next, rest.drop_first());
        assert(absorbed(unnumbered(e), all_unnumbered(rest)[0]) == unnumbered(next));
        assert(all_unnumbered(rest).drop_first() =~= all_unnumbered(rest.drop_first()));
    }
}

proof fn lemma_grouped_unnumbered(s: Seq<EntryModel>)
    ensures
        grouped(all_unnumbered(s)) == all_unnumbered(grouped(s)),
    decreases s.len(),
{
    if s.len() == 0 {
        assert(all_unnumbered(s) =~= s);
    } else {
        let rest = s.drop_first();
        let k = reach(s[0], rest) as int;
        lemma_reach_bound(s[0], rest);
        lemma_grown_unnumbered(s[0], rest);
        lemma_grouped_unnumbered(rest.skip(k));
        assert(all_unnumbered(s).drop_first() =~= all_unnumbered(rest));
        assert(all_unnumbered(rest).skip(k) =~= all_unnumbered(rest.skip(k)));
        assert(seq![unnumbered(grown(s[0], rest))] + all_unnumbered(grouped(rest.skip(k)))
            =~= all_unnumbered(grouped(s)));
    }
}

proof fn lemma_order_is_unique(s: Seq<EntryModel>, t: Seq<EntryModel>)
    requires
        in_order(s),
        in_order(t),
        s.to_multiset() == t.to_multiset(),
        told_by_times(s),
    ensures
        s == t,
    decreases s.len(),
{
    broadcast use vstd::seq_lib::group_to_multiset_ensures;

    assert(s.len() == s.to_multiset().len());
    assert(t.len() == t.to_multiset().len());
    if s.len() == 0 {
        assert(s =~= t);
    } else {
        let a = s.last();
        let b = t.last();
        let d = s.drop_last();
        let e = t.drop_last();
        assert(s[s.len() - 1] == a);
        assert(t[t.len() - 1] == b);
        assert(s.contains(a));
        assert(t.contains(b));
        assert(s.to_multiset().count(a) > 0);
        assert(s.to_multiset().count(b) > 0);
        assert(t.contains(a));
        assert(s.contains(b));
        let i = choose|i: int| 0 <= i < t.len() && t[i] == a;
        let j = choose|j: int| 0 <= j < s.len() && s[j] == b;
        assert(not_after(t[i], t[t.len() - 1]));
        assert(not_after(s[j], s[s.len() - 1]));
        assert(a == b);
        assert(s =~= d.push(a));
        assert(t =~= e.push(a));
        assert(d.to_multiset() =~= s.to_multiset().remove(a));
        assert(e.to_multiset() =~= t.to_multiset().remove(a));
        assert(told_by_times(d)) by {
            assert forall|x: EntryModel, y: EntryModel| #[trigger]
                d.contains(x) && #[trigger] d.contains(y) && same_times(x, y) implies x == y by {
                let p = choose|p: int| 0 <= p < d.len() && d[p] == x;
                let q = choose|q: int| 0 <= q < d.len() && d[q] == y;
                assert(s[p] == x && s[q] == y);
                assert(s.contains(x) && s.contains(y));
            }
        }
        lemma_order_is_unique(d, e);
    }
}

proof fn lemma_numbering_is_forgotten(s: Seq<EntryModel>)
    ensures
        numbered(all_unnumbered(s)) == numbered(s),
        (forall|i: int| 0 <= i < s.len() ==> proper(#[trigger] s[i])) <==> (forall|i: int|
            0 <= i < s.len() ==> proper(#[trigger] all_unnumbered(s)[i])),
{
    assert(numbered(all_unnumbered(s)) =~= numbered(s));
    let u = all_unnumbered(s);
    if forall|i: int| 0 <= i < s.len() ==> proper(#[trigger] u[i]) {
        assert forall|i: int| 0 <= i < s.len() implies proper(#[trigger] s[i]) by {
            assert(proper(u[i]));
        }
    }
}

/// Subtitles have the same normal form if they say the same at the same times, in whatever order they
/// come, however they are numbered, and whatever stands between them without saying anything. Only
/// where two of them start and end together does it matter which comes first.
pub proof fn law_order_and_numbers_do_not_matter(s: Seq<EntryModel>, t: Seq<EntryModel>)
    requires
        all_unnumbered(spoken(s)).to_multiset() == all_unnumbered(spoken(t)).to_multiset(),
        distinct_times(spoken(s)),
    ensures
        normal_form(s) == normal_form(t),
{
    broadcast use vstd::seq_lib::group_to_multiset_ensures;

    let a = all_unnumbered(spoken(s));
    let b = all_unnumbered(spoken(t));
    assert(a.len() == a.to_multiset().len());
    assert(b.len() == b.to_multiset().len());
    law_sort_is_stable(a, 0, 0);
    law_sort_is_stable(b, 0, 0);
    assert(told_by_times(ordered(a))) by {
        assert forall|x: EntryModel, y: EntryModel| #[trigger]
            ordered(a).contains(x) && #[trigger] ordered(a).contains(y) && same_times(
                x,
                y,
            ) implies x == y by {
            assert(ordered(a).to_multiset().count(x) > 0);
            assert(ordered(a).to_multiset().count(y) > 0);
            assert(a.contains(x));
            assert(a.contains(y));
            let p = choose|p: int| 0 <= p < a.len() && a[p] == x;
            let q = choose|q: int| 0 <= q < a.len() && a[q] == y;
            assert(same_times(spoken(s)[p], spoken(s)[q]));
            assert(p == q);
        }
    }
    lemma_order_is_unique(ordered(a), ordered(b));
    lemma_ordered_unnumbered(spoken(s));
    lemma_ordered_unnumbered(spoken(t));
    lemma_grouped_unnumbered(ordered(spoken(s)));
    lemma_grouped_unnumbered(ordered(spoken(t)));
    let g = grouped(ordered(spoken(s)));
    let h = grouped(ordered(spoken(t)));
    assert(all_unnumbered(g) == all_unnumbered(h));
    assert(all_unnumbered(g).len() == g.len());
    assert(all_unnumbered(h).len() == h.len());
    lemma_numbering_is_forgotten(g);
    lemma_numbering_is_forgotten(h);
}

} // verus!
