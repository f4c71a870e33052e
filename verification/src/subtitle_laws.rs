//! What reading subtitles does, entry by entry: times, texts, order and joining.
use vstd::prelude::*;
use crate::srt::{
    absorbed, entry_of_cue, grouped, grown, lemma_reach_bound, normal_form, ordered, parsed, proper, reach,
    short, spoken, timestamp_millis, CueModel, EntryModel, SrtFailure,
};
use crate::srt_laws::{
    law_only_last_group_is_refused, law_sort_is_stable, lemma_all_groups, lemma_fixed_ends, lemma_grouped, lemma_spoken,
    lemma_trimmed_twice, timed_at,
};
use crate::text::{blank, lemma_blank_trims_to_nothing, lemma_trimmed_is_middle, trimmed};

verus! {

/// The milliseconds of a time grow with every hour, minute and second as they should, whatever its
/// other parts are; a millisecond part counts as it is, unless it is too large to be one.
pub proof fn law_times_add_up(h: u8, m: u8, s: u8, x: u16)
    ensures
        h < 255 ==> timestamp_millis(((h + 1) as u8, m, s, x)) == timestamp_millis((h, m, s, x))
            + 3_600_000,
        m < 255 ==> timestamp_millis((h, (m + 1) as u8, s, x)) == timestamp_millis((h, m, s, x))
            + 60_000,
        s < 255 ==> timestamp_millis((h, m, (s + 1) as u8, x)) == timestamp_millis((h, m, s, x))
            + 1000,
        x < 1000 ==> timestamp_millis((0, 0, 0, x)) == x,
        x >= 1000 ==> timestamp_millis((0, 0, 0, x)) == x as int / 1000,
{
}

/// A time is given back by its milliseconds.
pub proof fn law_times_are_read_back(h: u8, m: u8, s: u8, x: u16)
    requires
        m < 60,
        s < 60,
        x < 1000,
    ensures
        timestamp_millis((h, m, s, x)) / 3_600_000 == h,
        (timestamp_millis((h, m, s, x)) / 60_000) % 60 == m,
        (timestamp_millis((h, m, s, x)) / 1000) % 60 == s,
        timestamp_millis((h, m, s, x)) % 1000 == x,
{
}

/// An entry says what its cue says, from when to when it says it.
pub proof fn law_entries_say_what_cues_say(c: CueModel)
    ensures
        entry_of_cue(c).text == c.text,
        entry_of_cue(c).start == timestamp_millis(c.start),
        entry_of_cue(c).end == timestamp_millis(c.end),
        entry_of_cue(c).index == c.num as u32,
{
}

/// What was read becomes subtitles: one entry for every cue, brought into normal form. A text that
/// cannot be read, or that holds no cue, is refused.
pub proof fn law_what_is_read(cues: Seq<CueModel>, fault: Seq<char>, entries: Seq<EntryModel>)
    requires
        entries.len() == cues.len(),
        forall|i: int| 0 <= i < cues.len() ==> #[trigger] entries[i] == entry_of_cue(cues[i]),
    ensures
        parsed(Err(fault)) == Err::<Seq<EntryModel>, SrtFailure>(SrtFailure::Malformed(fault)),
        cues.len() == 0 ==> parsed(Ok(cues)) == Err::<Seq<EntryModel>, SrtFailure>(
            SrtFailure::NoEntries,
        ),
        cues.len() > 0 ==> parsed(Ok(cues)) == normal_form(entries),
{
    assert(Seq::new(cues.len(), |i: int| entry_of_cue(cues[i])) =~= entries);
}

/// Exactly the entries that say something are kept, in the order in which they stand.
pub proof fn law_blank_entries_are_dropped(s: Seq<EntryModel>)
    ensures
        spoken(s) == s.filter(|e: EntryModel| !blank(e.text)),
    decreases s.len(),
{
    reveal(Seq::filter);
    if s.len() > 0 {
        law_blank_entries_are_dropped(s.drop_last());
    } else {
        assert(spoken(s) =~= s.filter(|e: EntryModel| !blank(e.text)));
    }
}

/// Entries are put in the order in which they start, and of those that start together the one that
/// ends first comes first; entries with the same times keep their order. None is lost or added.
pub proof fn law_entries_are_sorted_by_time(s: Seq<EntryModel>, i: int, j: int, start: int, end: int)
    ensures
        ordered(s).to_multiset() == s.to_multiset(),
        0 <= i < j < ordered(s).len() ==> ordered(s)[i].start <= ordered(s)[j].start,
        0 <= i < j < ordered(s).len() && ordered(s)[i].start == ordered(s)[j].start ==> ordered(
            s,
        )[i].end <= ordered(s)[j].end,
        timed_at(ordered(s), start, end) == timed_at(s, start, end),
{
    law_sort_is_stable(s, start, end);
    if 0 <= i < j < ordered(s).len() {
        assert(crate::srt::not_after(ordered(s)[i], ordered(s)[j]));
    }
}

// ---------------------------------------------------------------------------
// Joining
// ---------------------------------------------------------------------------

/// When a run of entries is over: when the last of them ends.
pub open spec fn run_end(run: Seq<EntryModel>) -> int
    decreases run.len(),
{
    if run.len() <= 1 {
        run[0].end
    } else if run.last().end > run_end(run.drop_last()) {
        run.last().end
    } else {
        run_end(run.drop_last())
    }
}

/// How long a run of entries lasts.
pub open spec fn run_length(run: Seq<EntryModel>) -> int {
    run_end(run) - run[0].start
}

/// What is said in a run of entries, with commas between.
pub open spec fn side_by_side(run: Seq<EntryModel>) -> Seq<char>
    decreases run.len(),
{
    if run.len() <= 1 {
        trimmed(run[0].text)
    } else {
        side_by_side(run.drop_last()) + ", "@ + trimmed(run.last().text)
    }
}

/// One entry stands for a run of entries: from the start of the first to the latest end, with what is
/// said in all of them. An entry that stands alone keeps its text as it is.
pub open spec fn stands_for(e: EntryModel, run: Seq<EntryModel>) -> bool {
    &&& run.len() > 0
    &&& e.start == run[0].start
    &&& e.end == run_end(run)
    &&& run.len() == 1 ==> e.text == run[0].text
    &&& run.len() > 1 ==> e.text == side_by_side(run)
}

/// A run goes no further than it must: any shorter one lasts less than half a second.
pub open spec fn no_longer_than_needed(run: Seq<EntryModel>) -> bool {
    forall|m: int| 0 < m < run.len() ==> run_length(#[trigger] run.take(m)) < 500
}

/// Entry `i` of `g` stands for the run of `s` from one cut to the next, which goes no further than it
/// must and, unless it is the last one, lasts half a second.
pub open spec fn stands_for_run(g: Seq<EntryModel>, s: Seq<EntryModel>, cuts: Seq<int>, i: int) -> bool {
    let run = s.subrange(cuts[i], cuts[i + 1]);
    &&& 0 <= cuts[i]
    &&& cuts[i] < cuts[i + 1]
    &&& cuts[i + 1] <= s.len()
    &&& stands_for(g[i], run)
    &&& no_longer_than_needed(run)
    &&& i < g.len() - 1 ==> run_length(run) >= 500
}

/// The entries `g` stand for the runs into which `s` is cut up: each run goes no further than it
/// must, and all of them but the last last half a second.
pub open spec fn stand_for_runs(g: Seq<EntryModel>, s: Seq<EntryModel>, cuts: Seq<int>) -> bool {
    &&& cuts.len() == g.len() + 1
    &&& cuts[0] == 0
    &&& cuts.last() == s.len()
    &&& forall|i: int| 0 <= i < g.len() ==> #[trigger] stands_for_run(g, s, cuts, i)
}

proof fn lemma_kept_ends(t: Seq<char>, u: Seq<char>)
    requires
        t.len() > 0,
        u.len() > 0,
        trimmed(t) == t,
        trimmed(u) == u,
    ensures
        trimmed(t + ", "@ + u) == t + ", "@ + u,
{
    let s = t + ", "@ + u;
    lemma_fixed_ends(t);
    lemma_fixed_ends(u);
    assert(s[0] == t[0]);
    assert(s[s.len() - 1] == u.last());
    assert(s.take(0) =~= Seq::<char>::empty());
    assert(s.skip(s.len() as int) =~= Seq::<char>::empty());
    lemma_trimmed_is_middle(s, 0, s.len() as int);
    assert(s.subrange(0, s.len() as int) =~= s);
}

proof fn lemma_side_by_side(run: Seq<EntryModel>)
    requires
        run.len() > 0,
        forall|i: int| 0 <= i < run.len() ==> !blank((#[trigger] run[i]).text),
    ensures
        side_by_side(run).len() > 0,
        trimmed(side_by_side(run)) == side_by_side(run),
    decreases run.len(),
{
    let last = run.last();
    assert(!blank(run[run.len() - 1].text));
    lemma_blank_trims_to_nothing(last.text);
    lemma_trimmed_twice(last.text);
    if run.len() > 1 {
        let d = run.drop_last();
        assert forall|i: int| 0 <= i < d.len() implies !blank((#[trigger] d[i]).text) by {
            assert(d[i] == run[i]);
        }
        lemma_side_by_side(d);
        lemma_kept_ends(side_by_side(d), trimmed(last.text));
    }
}

proof fn lemma_grown_run(run: Seq<EntryModel>, e: EntryModel, rest: Seq<EntryModel>)
    requires
        stands_for(e, run),
        no_longer_than_needed(run),
        forall|i: int| 0 <= i < run.len() ==> !blank((#[trigger] run[i]).text),
        forall|i: int| 0 <= i < rest.len() ==> !blank((#[trigger] rest[i]).text),
    ensures
        ({
            let k = reach(e, rest) as int;
            let full = run + rest.take(k);
            &&& k <= rest.len()
            &&& stands_for(grown(e, rest), full)
            &&& no_longer_than_needed(full)
            &&& k < rest.len() ==> run_length(full) >= 500
        }),
    decreases rest.len(),
{
    lemma_reach_bound(e, rest);
    if short(e) && rest.len() > 0 {
        let next = rest[0];
        let more = run.push(next);
        let a = absorbed(e, next);
        let r = rest.drop_first();
        assert(more.drop_last() =~= run);
        assert forall|i: int| 0 <= i < more.len() implies !blank((#[trigger] more[i]).text) by {
            if i < run.len() {
                assert(more[i] == run[i]);
            } else {
                assert(more[i] == rest[0]);
            }
        }
        assert forall|i: int| 0 <= i < r.len() implies !blank((#[trigger] r[i]).text) by {
            assert(r[i] == rest[i + 1]);
        }
        assert(trimmed(e.text) == side_by_side(run)) by {
            if run.len() > 1 {
                lemma_side_by_side(run);
            }
        }
        assert(stands_for(a, more));
        assert forall|m: int| 0 < m < more.len() implies run_length(#[trigger] more.take(m))
            < 500 by {
            if m < run.len() {
                assert(more.take(m) =~= run.take(m));
            } else {
                assert(more.take(m) =~= run);
            }
        }
        lemma_grown_run(more, a, r);
        let k = reach(a, r) as int;
        assert(more + r.take(k) =~= run + rest.take(k + 1));
    } else {
        assert(run + rest.take(0) =~= run);
    }
}

proof fn lemma_runs(s: Seq<EntryModel>) -> (cuts: Seq<int>)
    requires
        forall|i: int| 0 <= i < s.len() ==> !blank((#[trigger] s[i]).text),
    ensures
        stand_for_runs(grouped(s), s, cuts),
    decreases s.len(),
{
    if s.len() == 0 {
        let cuts = seq![0int];
        assert(cuts.last() == 0);
        assert(grouped(s).len() == 0);
        cuts
    } else {
        let rest = s.drop_first();
        let k = reach(s[0], rest) as int;
        lemma_reach_bound(s[0], rest);
        assert forall|i: int| 0 <= i < rest.len() implies !blank((#[trigger] rest[i]).text) by {
            assert(rest[i] == s[i + 1]);
        }
        let first = seq![s[0]];
        assert(stands_for(s[0], first));
        lemma_grown_run(first, s[0], rest);
        let t = rest.skip(k);
        assert forall|i: int| 0 <= i < t.len() implies !blank((#[trigger] t[i]).text) by {
            assert(t[i] == s[i + k + 1]);
        }
        let c = lemma_runs(t);
        let g = grouped(s);
        let h = grouped(t);
        let cuts = seq![0int] + Seq::new(c.len(), |i: int| c[i] + k + 1);
        assert(t.len() == s.len() - k - 1);
        assert(g == seq![grown(s[0], rest)] + h);
        assert(cuts[cuts.len() - 1] == c[c.len() - 1] + k + 1);
        assert(cuts.last() == s.len());
        assert(cuts.len() == g.len() + 1);
        assert forall|i: int| 0 <= i < g.len() implies #[trigger] stands_for_run(
            g,
            s,
            cuts,
            i,
        ) by {
            let run = s.subrange(cuts[i], cuts[i + 1]);
            if i == 0 {
                assert(c[0] == 0);
                assert(cuts[1] == k + 1);
                assert(run =~= first + rest.take(k));
                if g.len() > 1 {
                    assert(h.len() > 0);
                    assert(stands_for_run(h, t, c, 0));
                    assert(t.len() > 0);
                }
            } else {
                assert(g[i] == h[i - 1]);
                assert(stands_for_run(h, t, c, i - 1));
                assert(run =~= t.subrange(c[i - 1], c[i]));
            }
        }
        assert(stand_for_runs(g, s, cuts));
        cuts
    }
}

/// Subtitles that are too short are joined with those that follow them, and no others: the entries
/// that say something, in order, are cut up into runs, each of which lasts half a second, with the
/// exception of the last one, and goes no further than it must. Every run becomes one entry with its
/// start, its end and all that is said in it. The entries are refused exactly if there is none, or if
/// one of them would not end after it starts.
pub proof fn law_short_subtitles_are_joined(s: Seq<EntryModel>) -> (r: (Seq<EntryModel>, Seq<int>))
    ensures
        stand_for_runs(r.0, ordered(spoken(s)), r.1),
        normal_form(s) == Err::<Seq<EntryModel>, SrtFailure>(SrtFailure::NoEntries)
            <==> forall|i: int| 0 <= i < s.len() ==> blank((#[trigger] s[i]).text),
        normal_form(s) is Ok <==> r.0.len() > 0 && forall|i: int|
            0 <= i < r.0.len() ==> (#[trigger] r.0[i]).start < r.0[i].end,
        normal_form(s) matches Ok(v) ==> {
            &&& v.len() == r.0.len()
            &&& forall|i: int|
                0 <= i < v.len() ==> {
                    &&& (#[trigger] v[i]).start == r.0[i].start
                    &&& v[i].end == r.0[i].end
                    &&& v[i].text == r.0[i].text
                }
        },
{
    let o = ordered(spoken(s));
    lemma_all_groups(s);
    lemma_spoken(s);
    lemma_grouped(o);
    let cuts = lemma_runs(o);
    let g = grouped(o);
    if spoken(s).len() == 0 {
        assert forall|i: int| 0 <= i < s.len() implies blank((#[trigger] s[i]).text) by {
            if !blank(s[i].text) {
                assert(spoken(s).contains(s[i]));
            }
        }
        assert(g.len() == 0);
    } else {
        assert(!blank(spoken(s)[0].text));
        assert(s.contains(spoken(s)[0]));
        let i = choose|i: int| 0 <= i < s.len() && s[i] == spoken(s)[0];
        assert(!blank(s[i].text));
        if normal_form(s) is Ok {
            assert forall|i: int| 0 <= i < g.len() implies (#[trigger] g[i]).start < g[i].end by {
                assert(proper(g[i]));
            }
            let v = normal_form(s)->Ok_0;
            assert forall|i: int| 0 <= i < g.len() implies {
                &&& (#[trigger] v[i]).start == g[i].start
                &&& v[i].end == g[i].end
                &&& v[i].text == g[i].text
            } by {}
        } else {
            law_only_last_group_is_refused(s);
            assert(!(g[g.len() - 1].start < g[g.len() - 1].end));
        }
        if forall|i: int| 0 <= i < g.len() ==> (#[trigger] g[i]).start < g[i].end {
            assert forall|i: int| 0 <= i < g.len() implies proper(#[trigger] g[i]) by {}
        }
    }
    (g, cuts)
}

} // verus!
