//! What holds of every normalised run of subtitles.
use vstd::prelude::*;
use crate::srt::{
    absorbed, grouped, grown, in_order, inserted, lemma_reach_bound, normal_form, not_after, numbered,
    ordered, proper, reach, short, spoken, EntryModel, SrtFailure,
};
use crate::text::{
    blank, lemma_blank_trims_to_nothing, lemma_occurs_in_context, occurs, occurs_at, trimmed, white_space,
};

verus! {

// ---------------------------------------------------------------------------
// Sorting
// ---------------------------------------------------------------------------

/// The entries with the given times, in the order they stand.
pub open spec fn timed_at(s: Seq<EntryModel>, start: int, end: int) -> Seq<EntryModel>
    decreases s.len(),
{
    if s.len() == 0 {
        s
    } else if s.last().start == start && s.last().end == end {
        timed_at(s.drop_last(), start, end).push(s.last())
    } else {
        timed_at(s.drop_last(), start, end)
    }
}

proof fn lemma_inserted(s: Seq<EntryModel>, e: EntryModel)
    requires
        in_order(s),
    ensures
        inserted(s, e).len() == s.len() + 1,
        inserted(s, e).to_multiset() == s.to_multiset().insert(e),
        in_order(inserted(s, e)),
        forall|x: EntryModel|
            #![trigger not_after(x, e)]
            (forall|i: int| 0 <= i < s.len() ==> not_after(#[trigger] s[i], x)) && not_after(e, x)
                ==> forall|i: int|
                0 <= i < inserted(s, e).len() ==> not_after(#[trigger] inserted(s, e)[i], x),
    decreases s.len(),
{
    broadcast use vstd::seq_lib::group_to_multiset_ensures;

    if s.len() == 0 || not_after(s.last(), e) {
        let t = s.push(e);
        assert forall|i: int, j: int| 0 <= i <= j < t.len() implies not_after(
            #[trigger] t[i],
            #[trigger] t[j],
        ) by {
            if j == s.len() && i < j {
                assert(not_after(s[i], s.last()));
            }
        }
    } else {
        let d = s.drop_last();
        assert(in_order(d));
        lemma_inserted(d, e);
        let u = inserted(d, e);
        let t = u.push(s.last());
        assert(not_after(e, s.last()));
        assert forall|i: int| 0 <= i < u.len() implies not_after(#[trigger] u[i], s.last()) by {
            assert forall|k: int| 0 <= k < d.len() implies not_after(#[trigger] d[k], s.last()) by {
                assert(d[k] == s[k]);
            }
            assert(not_after(s.last(), e) || !not_after(s.last(), e));
        }
        assert(t.to_multiset() =~= u.to_multiset().insert(s.last()));
        assert(s =~= d.push(s.last()));
        assert(s.to_multiset() =~= d.to_multiset().insert(s.last()));
        assert(t.to_multiset() =~= s.to_multiset().insert(e));
        assert forall|x: EntryModel|
            #![trigger not_after(x, e)]
            (forall|i: int| 0 <= i < s.len() ==> not_after(#[trigger] s[i], x)) && not_after(
                e,
                x,
            ) implies forall|i: int|
            0 <= i < t.len() ==> not_after(#[trigger] t[i], x) by {
            assert forall|i: int| 0 <= i < d.len() implies not_after(#[trigger] d[i], x) by {
                assert(d[i] == s[i]);
            }
            assert forall|i: int| 0 <= i < t.len() implies not_after(#[trigger] t[i], x) by {
                if i < u.len() {
                    assert(t[i] == u[i]);
                } else {
                    assert(s[s.len() - 1] == s.last());
                }
            }
        }
    }
}

proof fn lemma_inserted_keeps_ties(s: Seq<EntryModel>, e: EntryModel, start: int, end: int)
    ensures
        timed_at(inserted(s, e), start, end) == timed_at(s.push(e), start, end),
    decreases s.len(),
{
    assert(s.push(e).drop_last() =~= s);
    if s.len() == 0 || not_after(s.last(), e) {
    } else {
        let d = s.drop_last();
        lemma_inserted_keeps_ties(d, e, start, end);
        let u = inserted(d, e);
        assert(inserted(s, e) == u.push(s.last()));
        assert(u.push(s.last()).drop_last() =~= u);
        assert(d.push(e).drop_last() =~= d);
        let at_e = e.start == start && e.end == end;
        let at_last = s.last().start == start && s.last().end == end;
        assert(!(at_e && at_last));
        assert(timed_at(d.push(e), start, end) == if at_e {
            timed_at(d, start, end).push(e)
        } else {
            timed_at(d, start, end)
        });
        assert(timed_at(s, start, end) == if at_last {
            timed_at(d, start, end).push(s.last())
        } else {
            timed_at(d, start, end)
        });
        assert(timed_at(u.push(s.last()), start, end) == if at_last {
            timed_at(u, start, end).push(s.last())
        } else {
            timed_at(u, start, end)
        });
    }
}

/// Sorting puts the entries in order, keeps every entry, and keeps the order of entries with equal
/// times.
pub proof fn law_sort_is_stable(s: Seq<EntryModel>, start: int, end: int)
    ensures
        in_order(ordered(s)),
        ordered(s).to_multiset() == s.to_multiset(),
        timed_at(ordered(s), start, end) == timed_at(s, start, end),
    decreases s.len(),
{
    broadcast use vstd::seq_lib::group_to_multiset_ensures;

    if s.len() > 0 {
        let d = s.drop_last();
        law_sort_is_stable(d, start, end);
        lemma_inserted(ordered(d), s.last());
        lemma_inserted_keeps_ties(ordered(d), s.last(), start, end);
        assert(s =~= d.push(s.last()));
        assert(ordered(d).push(s.last()).drop_last() =~= ordered(d));
    }
}

// ---------------------------------------------------------------------------
// Joining
// ---------------------------------------------------------------------------

/// The text of `e` stands in the text of `g`, and the time of `e` lies within the time of `g`.
pub open spec fn covers(g: EntryModel, e: EntryModel) -> bool {
    &&& g.start <= e.start
    &&& e.end <= g.end
    &&& occurs(trimmed(e.text), g.text)
}

/// Some entry of the run covers `e`.
pub open spec fn covered(g: Seq<EntryModel>, e: EntryModel) -> bool {
    exists|i: int| 0 <= i < g.len() && covers(#[trigger] g[i], e)
}

proof fn lemma_trimmed_occurs(s: Seq<char>)
    ensures
        occurs(trimmed(s), s),
    decreases s.len(),
{
    if s.len() > 0 && white_space(s[0]) {
        lemma_trimmed_occurs(s.drop_first());
        lemma_occurs_in_context(trimmed(s), seq![s[0]], s.drop_first(), Seq::empty());
        assert(seq![s[0]] + s.drop_first() + Seq::<char>::empty() =~= s);
    } else if s.len() > 0 && white_space(s.last()) {
        lemma_trimmed_occurs(s.drop_last());
        lemma_occurs_in_context(trimmed(s), Seq::empty(), s.drop_last(), seq![s.last()]);
        assert(Seq::<char>::empty() + s.drop_last() + seq![s.last()] =~= s);
    } else {
        assert(s.subrange(0, s.len() as int) =~= s);
        assert(occurs_at(trimmed(s), s, 0));
    }
}

/// What trims away nothing at its ends stands in the trimmed text wherever it stands in the text.
proof fn lemma_occurs_in_trimmed(pat: Seq<char>, s: Seq<char>)
    requires
        trimmed(pat) == pat,
        pat.len() > 0,
        occurs(pat, s),
    ensures
        occurs(pat, trimmed(s)),
    decreases s.len(),
{
    let i = choose|i: int| occurs_at(pat, s, i);
    lemma_fixed_ends(pat);
    assert(s[i] == s.subrange(i, i + pat.len())[0]);
    assert(s[i + pat.len() - 1] == s.subrange(i, i + pat.len())[pat.len() - 1]);
    if white_space(s[0]) {
        let t = s.drop_first();
        assert(i > 0);
        assert(t.subrange(i - 1, i - 1 + pat.len()) =~= s.subrange(i, i + pat.len()));
        assert(occurs_at(pat, t, i - 1));
        lemma_occurs_in_trimmed(pat, t);
    } else if white_space(s.last()) {
        let t = s.drop_last();
        assert(i + pat.len() < s.len());
        assert(t.subrange(i, i + pat.len()) =~= s.subrange(i, i + pat.len()));
        assert(occurs_at(pat, t, i));
        lemma_occurs_in_trimmed(pat, t);
    }
}

pub(crate) proof fn lemma_fixed_ends(s: Seq<char>)
    requires
        trimmed(s) == s,
        s.len() > 0,
    ensures
        !white_space(s[0]),
        !white_space(s.last()),
{
    lemma_trimmed_shorter(s.drop_first());
    lemma_trimmed_shorter(s.drop_last());
}

proof fn lemma_trimmed_shorter(s: Seq<char>)
    ensures
        trimmed(s).len() <= s.len(),
    decreases s.len(),
{
    if s.len() > 0 {
        lemma_trimmed_shorter(s.drop_first());
        lemma_trimmed_shorter(s.drop_last());
    }
}

pub(crate) proof fn lemma_trimmed_twice(s: Seq<char>)
    ensures
        trimmed(trimmed(s)) == trimmed(s),
    decreases s.len(),
{
    if s.len() > 0 {
        if white_space(s[0]) {
            lemma_trimmed_twice(s.drop_first());
        } else if white_space(s.last()) {
            lemma_trimmed_twice(s.drop_last());
        }
    }
}

/// Two texts side by side are a text in which both stand.
proof fn lemma_side_by_side(t: Seq<char>, u: Seq<char>)
    ensures
        !blank(t + ", "@ + u),
        occurs(u, t + ", "@ + u),
{
    let whole = t + ", "@ + u;
    reveal_strlit(", ");
    assert(whole[t.len() as int] == ',');
    assert(!white_space(','));
    let k = t.len() as int + 2;
    assert(whole.subrange(k, k + u.len()) =~= u);
    assert(occurs_at(u, whole, k));
}

/// What stands in the first of two texts stands in them side by side.
proof fn lemma_stands_in_first(p: Seq<char>, t: Seq<char>, u: Seq<char>)
    requires
        occurs(p, t),
    ensures
        occurs(p, t + ", "@ + u),
{
    lemma_occurs_in_context(p, Seq::empty(), t, ", "@ + u);
    assert(Seq::<char>::empty() + t + (", "@ + u) =~= t + ", "@ + u);
}

/// What an entry says stands in the trimmed text of every entry that covers it.
proof fn lemma_covered_text(g: EntryModel, e: EntryModel)
    requires
        covers(g, e),
        !blank(e.text),
    ensures
        occurs(trimmed(e.text), trimmed(g.text)),
{
    lemma_trimmed_twice(e.text);
    lemma_blank_trims_to_nothing(e.text);
    lemma_occurs_in_trimmed(trimmed(e.text), g.text);
}

/// Joining keeps the start, never shortens, and keeps what was covered.
proof fn lemma_absorbed(g: EntryModel, b: EntryModel, e: EntryModel)
    requires
        !blank(g.text),
        g.start <= b.start,
    ensures
        !blank(absorbed(g, b).text),
        covers(absorbed(g, b), b),
        covers(g, e) && !blank(e.text) ==> covers(absorbed(g, b), e),
{
    lemma_side_by_side(trimmed(g.text), trimmed(b.text));
    if covers(g, e) && !blank(e.text) {
        lemma_covered_text(g, e);
        lemma_stands_in_first(trimmed(e.text), trimmed(g.text), trimmed(b.text));
    }
}

/// An entry joined with what it reaches: it keeps its start, covers all it was joined with, has a
/// text, and is short only where nothing is left to join.
proof fn lemma_grown(e: EntryModel, rest: Seq<EntryModel>)
    requires
        !blank(e.text),
        forall|i: int| 0 <= i < rest.len() ==> e.start <= (#[trigger] rest[i]).start,
    ensures
        ({
            let g = grown(e, rest);
            let k = reach(e, rest);
            &&& g.start == e.start
            &&& g.index == e.index
            &&& !blank(g.text)
            &&& k <= rest.len()
            &&& short(g) ==> k == rest.len()
            &&& forall|x: EntryModel|
                covers(e, x) && !blank(x.text) ==> #[trigger] covers(g, x)
            &&& forall|i: int|
                0 <= i < k && !blank(rest[i].text) ==> covers(g, #[trigger] rest[i])
            &&& forall|m: int|
                e.end <= m && (forall|i: int| 0 <= i < k ==> (#[trigger] rest[i]).end <= m)
                    ==> #[trigger] at_most(g.end, m)
        }),
    decreases rest.len(),
{
    if short(e) && rest.len() > 0 {
        let a = absorbed(e, rest[0]);
        let r = rest.drop_first();
        lemma_absorbed(e, rest[0], e);
        assert forall|i: int| 0 <= i < r.len() implies a.start <= (#[trigger] r[i]).start by {
            assert(r[i] == rest[i + 1]);
        }
        lemma_grown(a, r);
        let g = grown(e, rest);
        let k = reach(e, rest);
        assert forall|x: EntryModel| covers(e, x) && !blank(x.text) implies #[trigger] covers(
            g,
            x,
        ) by {
            lemma_absorbed(e, rest[0], x);
        }
        assert forall|i: int| 0 <= i < k && !blank(rest[i].text) implies covers(
            g,
            #[trigger] rest[i],
        ) by {
            if i > 0 {
                assert(rest[i] == r[i - 1]);
            }
        }
        assert forall|m: int|
            e.end <= m && (forall|i: int| 0 <= i < k ==> (#[trigger] rest[i]).end <= m) implies
            #[trigger] at_most(g.end, m) by {
            assert(rest[0].end <= m);
            assert forall|i: int| 0 <= i < reach(a, r) implies (#[trigger] r[i]).end <= m by {
                assert(r[i] == rest[i + 1]);
            }
        }
    }
}

/// One number is not above another.
pub open spec fn at_most(a: int, b: int) -> bool {
    a <= b
}

/// The groups of an ordered run of spoken entries.
pub(crate) proof fn lemma_grouped(s: Seq<EntryModel>)
    requires
        in_order(s),
        forall|i: int| 0 <= i < s.len() ==> !blank((#[trigger] s[i]).text),
    ensures
        ({
            let g = grouped(s);
            &&& s.len() > 0 ==> g.len() > 0
            &&& g.len() <= s.len()
            &&& in_order(g)
            &&& forall|i: int| 0 <= i < g.len() ==> !blank((#[trigger] g[i]).text)
            &&& forall|i: int| 0 <= i < g.len() - 1 ==> !short(#[trigger] g[i])
            &&& forall|x: EntryModel, i: int|
                (forall|j: int| 0 <= j < s.len() ==> not_after(x, #[trigger] s[j])) && 0 <= i
                    < g.len() ==> #[trigger] not_after(x, g[i])
            &&& forall|j: int|
                0 <= j < s.len() ==> covered(g, #[trigger] s[j])
        }),
    decreases s.len(),
{
    if s.len() > 0 {
        let rest = s.drop_first();
        let k = reach(s[0], rest);
        let g0 = grown(s[0], rest);
        lemma_reach_bound(s[0], rest);
        assert forall|i: int| 0 <= i < rest.len() implies s[0].start <= (
        #[trigger] rest[i]).start by {
            assert(not_after(s[0], s[i + 1]));
        }
        lemma_grown(s[0], rest);
        let t = rest.skip(k as int);
        assert forall|i: int, j: int| 0 <= i <= j < t.len() implies not_after(
            #[trigger] t[i],
            #[trigger] t[j],
        ) by {
            assert(not_after(s[i + k + 1], s[j + k + 1]));
        }
        assert forall|i: int| 0 <= i < t.len() implies !blank((#[trigger] t[i]).text) by {
            assert(t[i] == s[i + k + 1]);
        }
        lemma_grouped(t);
        let h = grouped(t);
        let g = grouped(s);
        assert(g == seq![g0] + h);
        assert(g[0] == g0);
        assert forall|j: int| 0 <= j < t.len() implies not_after(g0, #[trigger] t[j]) by {
            let z = s[j + k + 1];
            assert(t[j] == z);
            assert(not_after(s[0], z));
            if g0.start == z.start {
                assert(s[0].end <= z.end);
                assert forall|i: int| 0 <= i < k implies (#[trigger] rest[i]).end <= z.end by {
                    assert(not_after(s[0], s[i + 1]));
                    assert(not_after(s[i + 1], z));
                }
                assert(at_most(g0.end, z.end));
            }
        }
        assert forall|i: int, j: int| 0 <= i <= j < g.len() implies not_after(
            #[trigger] g[i],
            #[trigger] g[j],
        ) by {
            if i > 0 {
                assert(g[i] == h[i - 1]);
                assert(g[j] == h[j - 1]);
            } else if j > 0 {
                assert(g[j] == h[j - 1]);
                assert(not_after(g0, h[j - 1]));
            }
        }
        assert forall|i: int| 0 <= i < g.len() - 1 implies !short(#[trigger] g[i]) by {
            if i > 0 {
                assert(g[i] == h[i - 1]);
            } else {
                assert(t.len() > 0);
            }
        }
        assert forall|x: EntryModel, i: int|
            (forall|j: int| 0 <= j < s.len() ==> not_after(x, #[trigger] s[j])) && 0 <= i
                < g.len() implies #[trigger] not_after(x, g[i]) by {
            assert(not_after(x, s[0]));
            if i == 0 {
                lemma_covers_self(s[0]);
                assert(covers(g0, s[0]));
            } else {
                assert forall|j: int| 0 <= j < t.len() implies not_after(x, #[trigger] t[j]) by {
                    assert(t[j] == s[j + k + 1]);
                }
                assert(g[i] == h[i - 1]);
            }
        }
        assert forall|j: int| 0 <= j < s.len() implies covered(g, #[trigger] s[j]) by {
            if j == 0 {
                lemma_covers_self(s[0]);
                assert(covers(g[0], s[0]));
            } else if j <= k {
                assert(rest[j - 1] == s[j]);
                assert(covers(g[0], s[j]));
            } else {
                assert(t[j - k - 1] == s[j]);
                assert(covered(h, t[j - k - 1]));
                let i = choose|i: int| 0 <= i < h.len() && covers(#[trigger] h[i], t[j - k - 1]);
                assert(g[i + 1] == h[i]);
                assert(covers(g[i + 1], s[j]));
            }
        }
        assert forall|i: int| 0 <= i < g.len() implies !blank((#[trigger] g[i]).text) by {
            if i > 0 {
                assert(g[i] == h[i - 1]);
            }
        }
    }
}

proof fn lemma_covers_self(e: EntryModel)
    ensures
        covers(e, e),
{
    lemma_trimmed_occurs(e.text);
}

// ---------------------------------------------------------------------------
// The laws
// ---------------------------------------------------------------------------

pub(crate) proof fn lemma_spoken(s: Seq<EntryModel>)
    ensures
        forall|i: int| 0 <= i < spoken(s).len() ==> !blank((#[trigger] spoken(s)[i]).text),
        forall|i: int|
            0 <= i < spoken(s).len() ==> s.contains(#[trigger] spoken(s)[i]),
        forall|i: int|
            0 <= i < s.len() && !blank((#[trigger] s[i]).text) ==> spoken(s).contains(s[i]),
        spoken(s).len() <= s.len(),
    decreases s.len(),
{
    if s.len() > 0 {
        let d = s.drop_last();
        lemma_spoken(d);
        assert forall|i: int| 0 <= i < spoken(s).len() implies s.contains(
            #[trigger] spoken(s)[i],
        ) by {
            if i < spoken(d).len() {
                assert(spoken(s)[i] == spoken(d)[i]);
                let k = choose|k: int| 0 <= k < d.len() && d[k] == spoken(d)[i];
                assert(s[k] == spoken(s)[i]);
            } else {
                assert(s[s.len() - 1] == spoken(s)[i]);
            }
        }
        assert forall|i: int| 0 <= i < s.len() && !blank((#[trigger] s[i]).text) implies spoken(
            s,
        ).contains(s[i]) by {
            if i < d.len() {
                assert(d[i] == s[i]);
                let k = choose|k: int| 0 <= k < spoken(d).len() && spoken(d)[k] == d[i];
                assert(spoken(s)[k] == s[i]);
            } else {
                assert(spoken(s).last() == s[i]);
                assert(spoken(s)[spoken(s).len() - 1] == s[i]);
            }
        }
    }
}

proof fn lemma_ordered_same_members(s: Seq<EntryModel>, e: EntryModel)
    ensures
        ordered(s).contains(e) <==> s.contains(e),
        ordered(s).len() == s.len(),
{
    broadcast use vstd::seq_lib::group_to_multiset_ensures;

    law_sort_is_stable(s, 0, 0);
    assert(ordered(s).contains(e) <==> ordered(s).to_multiset().count(e) > 0);
    assert(s.contains(e) <==> s.to_multiset().count(e) > 0);
    assert(ordered(s).len() == ordered(s).to_multiset().len());
    assert(s.len() == s.to_multiset().len());
}

pub(crate) proof fn lemma_all_groups(s: Seq<EntryModel>)
    ensures
        ({
            let o = ordered(spoken(s));
            &&& in_order(o)
            &&& o.len() == spoken(s).len()
            &&& forall|i: int| 0 <= i < o.len() ==> !blank((#[trigger] o[i]).text)
        }),
{
    let o = ordered(spoken(s));
    lemma_spoken(s);
    law_sort_is_stable(spoken(s), 0, 0);
    lemma_ordered_same_members(spoken(s), EntryModel { index: 0, start: 0, end: 0, text: Seq::empty() });
    assert forall|i: int| 0 <= i < o.len() implies !blank((#[trigger] o[i]).text) by {
        lemma_ordered_same_members(spoken(s), o[i]);
        assert(o.contains(o[i]));
        let k = choose|k: int| 0 <= k < spoken(s).len() && spoken(s)[k] == o[i];
        assert(!blank(spoken(s)[k].text));
    }
}

/// A normal form is not empty, stands in order, holds only entries with a text that end after they
/// start, and all of them but the last are long enough to be spoken alone.
pub proof fn law_normal_form_entries(s: Seq<EntryModel>)
    ensures
        normal_form(s) matches Ok(v) ==> {
            &&& 0 < v.len() <= s.len()
            &&& in_order(v)
            &&& forall|i: int| 0 <= i < v.len() ==> !blank((#[trigger] v[i]).text)
            &&& forall|i: int| 0 <= i < v.len() ==> proper(#[trigger] v[i])
            &&& forall|i: int| 0 <= i < v.len() - 1 ==> !short(#[trigger] v[i])
        },
{
    if let Ok(v) = normal_form(s) {
        lemma_all_groups(s);
        lemma_spoken(s);
        let g = grouped(ordered(spoken(s)));
        lemma_grouped(ordered(spoken(s)));
        assert forall|i: int, j: int| 0 <= i <= j < v.len() implies not_after(
            #[trigger] v[i],
            #[trigger] v[j],
        ) by {
            assert(not_after(g[i], g[j]));
        }
        assert forall|i: int| 0 <= i < v.len() implies !blank((#[trigger] v[i]).text) && proper(
            v[i],
        ) by {
            assert(!blank(g[i].text));
            assert(proper(g[i]));
        }
        assert forall|i: int| 0 <= i < v.len() - 1 implies !short(#[trigger] v[i]) by {
            assert(!short(g[i]));
        }
    }
}

/// The entries of a normal form are numbered one, two, three and so on.
pub proof fn law_normal_form_is_numbered(s: Seq<EntryModel>, i: int)
    requires
        s.len() <= u32::MAX,
    ensures
        normal_form(s) matches Ok(v) ==> (0 <= i < v.len() ==> v[i].index == i + 1),
{
    if let Ok(v) = normal_form(s) {
        law_normal_form_entries(s);
    }
}

/// Nothing that is said is lost: every entry with a text lies within an entry of the normal form,
/// in its time and in its text.
pub proof fn law_normal_form_covers(s: Seq<EntryModel>, j: int)
    requires
        0 <= j < s.len(),
        !blank(s[j].text),
    ensures
        normal_form(s) matches Ok(v) ==> covered(v, s[j]),
{
    if let Ok(v) = normal_form(s) {
        lemma_all_groups(s);
        lemma_spoken(s);
        let o = ordered(spoken(s));
        let g = grouped(o);
        lemma_grouped(o);
        assert(spoken(s).contains(s[j]));
        lemma_ordered_same_members(spoken(s), s[j]);
        let k = choose|k: int| 0 <= k < o.len() && o[k] == s[j];
        assert(covered(g, o[k]));
        let i = choose|i: int| 0 <= i < g.len() && covers(#[trigger] g[i], o[k]);
        assert(covers(v[i], s[j]));
    }
}

/// Only the last group can end before it starts: that one alone decides whether the intervals are
/// refused.
pub proof fn law_only_last_group_is_refused(s: Seq<EntryModel>)
    requires
        spoken(s).len() > 0,
    ensures
        grouped(ordered(spoken(s))).len() > 0,
        normal_form(s) is Err <==> !proper(grouped(ordered(spoken(s))).last()),
{
    lemma_all_groups(s);
    let o = ordered(spoken(s));
    let g = grouped(o);
    lemma_grouped(o);
    if proper(g.last()) {
        assert forall|i: int| 0 <= i < g.len() implies proper(#[trigger] g[i]) by {
            if i < g.len() - 1 {
                assert(!short(g[i]));
            }
        }
    } else {
        assert(!proper(g[g.len() - 1]));
    }
}

proof fn lemma_spoken_fixed(s: Seq<EntryModel>)
    requires
        forall|i: int| 0 <= i < s.len() ==> !blank((#[trigger] s[i]).text),
    ensures
        spoken(s) == s,
    decreases s.len(),
{
    if s.len() > 0 {
        assert forall|i: int| 0 <= i < s.drop_last().len() implies !blank(
            (#[trigger] s.drop_last()[i]).text,
        ) by {
            assert(s.drop_last()[i] == s[i]);
        }
        lemma_spoken_fixed(s.drop_last());
        assert(!blank(s[s.len() - 1].text));
        assert(s.drop_last().push(s.last()) =~= s);
    }
}

proof fn lemma_ordered_fixed(s: Seq<EntryModel>)
    requires
        in_order(s),
    ensures
        ordered(s) == s,
    decreases s.len(),
{
    if s.len() > 0 {
        let d = s.drop_last();
        assert(in_order(d));
        lemma_ordered_fixed(d);
        if d.len() > 0 {
            assert(not_after(s[s.len() - 2], s[s.len() - 1]));
        }
        assert(d.push(s.last()) =~= s);
    }
}

proof fn lemma_grouped_fixed(s: Seq<EntryModel>)
    requires
        forall|i: int| 0 <= i < s.len() - 1 ==> !short(#[trigger] s[i]),
    ensures
        grouped(s) == s,
    decreases s.len(),
{
    if s.len() > 0 {
        let rest = s.drop_first();
        if rest.len() > 0 {
            assert(!short(s[0]));
        }
        assert(reach(s[0], rest) == 0);
        assert(rest.skip(0) =~= rest);
        assert forall|i: int| 0 <= i < rest.len() - 1 implies !short(#[trigger] rest[i]) by {
            assert(rest[i] == s[i + 1]);
        }
        lemma_grouped_fixed(rest);
        assert(seq![s[0]] + rest =~= s);
    }
}

/// A normal form is its own normal form.
pub proof fn law_normalizing_twice(s: Seq<EntryModel>)
    ensures
        normal_form(s) matches Ok(v) ==> normal_form(v) == Ok::<Seq<EntryModel>, SrtFailure>(v),
{
    if let Ok(v) = normal_form(s) {
        law_normal_form_entries(s);
        lemma_spoken_fixed(v);
        lemma_ordered_fixed(v);
        lemma_grouped_fixed(v);
        assert(numbered(v) =~= v);
    }
}

} // verus!
