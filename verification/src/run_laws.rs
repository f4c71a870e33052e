//! What holds of a run as a whole: from the subtitles through the tasks to the joined recording.
use vstd::prelude::*;
use crate::audio::split_outcome;
use crate::pipeline::{entries_of, joined_tasks, law_joined_in_order, task_keys};
use crate::srt::{
    absorbed, entry_of_cue, grouped, grown, in_order, lemma_reach_bound, normal_form, not_after, ordered,
    parsed, proper, reach, short, spoken, timestamp_millis, CueModel, EntryModel,
};
use crate::srt_laws::{law_normal_form_entries, law_normal_form_is_numbered, law_sort_is_stable};
use crate::task::{law_tasks_have_files_of_their_own, planned, task_models, task_of, Task};
use crate::tempo::time_in_range;
use crate::text::blank;

verus! {

/// The longest time that can stand in a subtitle file, in milliseconds.
pub const LAST_TIME: i64 = 933_555_999;

/// The entry starts and ends at times that can stand in a subtitle file.
pub open spec fn readable(e: EntryModel) -> bool {
    0 <= e.start <= LAST_TIME && 0 <= e.end <= LAST_TIME
}

/// All entries are readable.
pub open spec fn all_readable(s: Seq<EntryModel>) -> bool {
    forall|i: int| 0 <= i < s.len() ==> readable(#[trigger] s[i])
}

proof fn lemma_cue_is_readable(c: CueModel)
    ensures
        readable(entry_of_cue(c)),
{
    assert(0 <= timestamp_millis(c.start) <= 255 * 3_600_000 + 255 * 60_000 + 255 * 1000 + 999);
    assert(0 <= timestamp_millis(c.end) <= 255 * 3_600_000 + 255 * 60_000 + 255 * 1000 + 999);
}

proof fn lemma_spoken_is_readable(s: Seq<EntryModel>)
    requires
        all_readable(s),
    ensures
        all_readable(spoken(s)),
    decreases s.len(),
{
    if s.len() > 0 {
        assert forall|i: int| 0 <= i < s.drop_last().len() implies readable(
            #[trigger] s.drop_last()[i],
        ) by {
            assert(s.drop_last()[i] == s[i]);
        }
        lemma_spoken_is_readable(s.drop_last());
        assert(readable(s[s.len() - 1]));
        if !blank(s.last().text) {
            let before = spoken(s.drop_last());
            assert forall|i: int| 0 <= i < before.push(s.last()).len() implies readable(
                #[trigger] before.push(s.last())[i],
            ) by {
                if i < before.len() {
                    assert(readable(before[i]));
                }
            }
        }
    }
}

proof fn lemma_ordered_is_readable(s: Seq<EntryModel>)
    requires
        all_readable(s),
    ensures
        all_readable(ordered(s)),
{
    broadcast use vstd::seq_lib::group_to_multiset_ensures;

    law_sort_is_stable(s, 0, 0);
    assert forall|i: int| 0 <= i < ordered(s).len() implies readable(#[trigger] ordered(s)[i]) by {
        let e = ordered(s)[i];
        assert(ordered(s).contains(e));
        assert(ordered(s).to_multiset().count(e) > 0);
        assert(s.to_multiset().count(e) > 0);
        assert(s.contains(e));
    }
}

proof fn lemma_grown_is_readable(e: EntryModel, rest: Seq<EntryModel>)
    requires
        readable(e),
        all_readable(rest),
    ensures
        readable(grown(e, rest)),
    decreases rest.len(),
{
    if short(e) && rest.len() > 0 {
        assert(readable(rest[0]));
        assert forall|i: int| 0 <= i < rest.drop_first().len() implies readable(
            #[trigger] rest.drop_first()[i],
        ) by {
            assert(rest.drop_first()[i] == rest[i + 1]);
        }
        lemma_grown_is_readable(absorbed(e, rest[0]), rest.drop_first());
    }
}

proof fn lemma_grouped_is_readable(s: Seq<EntryModel>)
    requires
        all_readable(s),
    ensures
        all_readable(grouped(s)),
    decreases s.len(),
{
    if s.len() > 0 {
        let rest = s.drop_first();
        let k = reach(s[0], rest) as int;
        lemma_reach_bound(s[0], rest);
        assert forall|i: int| 0 <= i < rest.len() implies readable(#[trigger] rest[i]) by {
            assert(rest[i] == s[i + 1]);
        }
        assert forall|i: int| 0 <= i < rest.skip(k).len() implies readable(
            #[trigger] rest.skip(k)[i],
        ) by {
            assert(rest.skip(k)[i] == rest[i + k]);
        }
        assert(readable(s[0]));
        lemma_grown_is_readable(s[0], rest);
        lemma_grouped_is_readable(rest.skip(k));
        let tail = grouped(rest.skip(k));
        assert forall|i: int| 0 <= i < grouped(s).len() implies readable(#[trigger] grouped(s)[i]) by {
            if i > 0 {
                assert(grouped(s)[i] == tail[i - 1]);
                assert(readable(tail[i - 1]));
            }
        }
    }
}

proof fn lemma_parsed_is_readable(cues: Seq<CueModel>)
    ensures
        parsed(Ok(cues)) matches Ok(v) ==> all_readable(v),
{
    let s = Seq::new(cues.len(), |i: int| entry_of_cue(cues[i]));
    assert forall|i: int| 0 <= i < s.len() implies readable(#[trigger] s[i]) by {
        lemma_cue_is_readable(cues[i]);
    }
    if let Ok(v) = parsed(Ok(cues)) {
        lemma_spoken_is_readable(s);
        lemma_ordered_is_readable(spoken(s));
        let g = grouped(ordered(spoken(s)));
        lemma_grouped_is_readable(ordered(spoken(s)));
        assert forall|i: int| 0 <= i < v.len() implies readable(#[trigger] v[i]) by {
            assert(readable(g[i]));
        }
    }
}

/// Every subtitle that was read can be joined by its time: it ends after it starts, at a time that
/// is handled.
pub proof fn law_subtitles_can_be_joined(cues: Seq<CueModel>, i: int)
    ensures
        parsed(Ok(cues)) matches Ok(v) ==> (0 <= i < v.len() ==> {
            &&& v[i].start < v[i].end
            &&& time_in_range(v[i].start)
            &&& time_in_range(v[i].end)
        }),
{
    if let Ok(v) = parsed(Ok(cues)) {
        lemma_parsed_is_readable(cues);
        law_normal_form_entries(Seq::new(cues.len(), |i: int| entry_of_cue(cues[i])));
        if 0 <= i < v.len() {
            assert(readable(v[i]));
            assert(proper(v[i]));
        }
    }
}

/// Every subtitle that was read but the last can be cut out of a recording that it lies in. The
/// last one may be too short.
pub proof fn law_subtitles_can_be_cut(cues: Seq<CueModel>, i: int, actual: int)
    ensures
        parsed(Ok(cues)) matches Ok(v) ==> (0 <= i < v.len() && v[i].start * 1000 < actual ==> {
            let r = split_outcome(v[i].start, v[i].end, Some(actual));
            &&& i < v.len() - 1 ==> r is Ok
            &&& r is Err ==> r->Err_0 is TooShort
        }),
{
    if let Ok(v) = parsed(Ok(cues)) {
        lemma_parsed_is_readable(cues);
        law_normal_form_entries(Seq::new(cues.len(), |i: int| entry_of_cue(cues[i])));
        if 0 <= i < v.len() {
            assert(readable(v[i]));
            assert(proper(v[i]));
            if i < v.len() - 1 {
                assert(!short(v[i]));
            }
        }
    }
}

/// A part that is cut out lies within the recording, starts where its subtitle does, and lasts as
/// long as its subtitle or up to the end of the recording.
pub proof fn law_parts_lie_within_the_recording(start: int, end: int, actual: int)
    requires
        time_in_range(start),
        time_in_range(end),
    ensures
        split_outcome(start, end, Some(actual)) matches Ok(cut) ==> {
            &&& cut.start == start
            &&& 0 < cut.micros
            &&& cut.start * 1000 + cut.micros <= actual
            &&& cut.micros <= (end - start) * 1000
            &&& cut.micros < (end - start) * 1000 ==> cut.start * 1000 + cut.micros == actual
        },
{
}

proof fn lemma_planned_all(v: Seq<EntryModel>, tmp_dir: Seq<char>, output_dir: Seq<char>)
    requires
        forall|i: int| 0 <= i < v.len() ==> !blank((#[trigger] v[i]).text),
    ensures
        planned(v, tmp_dir, output_dir).len() == v.len(),
        forall|i: int|
            0 <= i < v.len() ==> #[trigger] planned(v, tmp_dir, output_dir)[i] == task_of(
                v[i],
                tmp_dir,
                output_dir,
            ),
    decreases v.len(),
{
    if v.len() > 0 {
        let d = v.drop_last();
        assert forall|i: int| 0 <= i < d.len() implies !blank((#[trigger] d[i]).text) by {
            assert(d[i] == v[i]);
        }
        lemma_planned_all(d, tmp_dir, output_dir);
        assert(!blank(v[v.len() - 1].text));
        assert forall|i: int| 0 <= i < v.len() implies #[trigger] planned(
            v,
            tmp_dir,
            output_dir,
        )[i] == task_of(v[i], tmp_dir, output_dir) by {
            if i < d.len() {
                assert(planned(d, tmp_dir, output_dir)[i] == task_of(d[i], tmp_dir, output_dir));
            }
        }
    }
}

/// Every subtitle of a normal form becomes a task, in the same order, and each has files of its own.
pub proof fn law_subtitles_become_tasks(
    s: Seq<EntryModel>,
    tmp_dir: Seq<char>,
    output_dir: Seq<char>,
    i: int,
    j: int,
)
    requires
        s.len() <= u32::MAX,
    ensures
        normal_form(s) matches Ok(v) ==> {
            let tasks = planned(v, tmp_dir, output_dir);
            &&& tasks.len() == v.len()
            &&& 0 <= i < v.len() ==> tasks[i] == task_of(v[i], tmp_dir, output_dir)
            &&& 0 <= i < j < v.len() ==> tasks[i].tmp_audio != tasks[j].tmp_audio
                && tasks[i].output_path != tasks[j].output_path
        },
{
    if let Ok(v) = normal_form(s) {
        law_normal_form_entries(s);
        lemma_planned_all(v, tmp_dir, output_dir);
        if 0 <= i < j < v.len() {
            law_normal_form_is_numbered(s, i);
            law_normal_form_is_numbered(s, j);
            law_tasks_have_files_of_their_own(v[i], v[j], tmp_dir, output_dir);
        }
    }
}

/// What is joined follows the subtitles in time: of two results, the one whose subtitle starts first
/// comes first.
pub proof fn law_joined_in_time_order(
    s: Seq<EntryModel>,
    tmp_dir: Seq<char>,
    output_dir: Seq<char>,
    tasks: Seq<Task>,
    sizes: Seq<Option<u64>>,
    least: u64,
)
    requires
        s.len() <= u32::MAX,
        normal_form(s) is Ok,
        task_models(tasks) == planned(normal_form(s)->Ok_0, tmp_dir, output_dir),
        sizes.len() == tasks.len(),
        tasks.len() <= usize::MAX,
    ensures
        in_order(entries_of(tasks, joined_tasks(tasks, sizes, least))),
{
    let v = normal_form(s)->Ok_0;
    let chosen = joined_tasks(tasks, sizes, least);
    let keys = task_keys(tasks);
    let joined = entries_of(tasks, chosen);
    law_normal_form_entries(s);
    lemma_planned_all(v, tmp_dir, output_dir);
    law_joined_in_order(tasks, sizes, least);
    assert(tasks.len() == v.len()) by {
        assert(task_models(tasks).len() == tasks.len());
    }
    assert forall|k: int| 0 <= k < tasks.len() implies (#[trigger] tasks[k]).entry@ == v[k] by {
        assert(task_models(tasks)[k] == tasks[k]@);
        assert(planned(v, tmp_dir, output_dir)[k] == task_of(v[k], tmp_dir, output_dir));
    }
    assert forall|i: int, j: int| 0 <= i <= j < joined.len() implies not_after(
        #[trigger] joined[i],
        #[trigger] joined[j],
    ) by {
        let a = chosen[i] as int;
        let b = chosen[j] as int;
        assert(chosen.contains(chosen[i]));
        assert(chosen.contains(chosen[j]));
        law_normal_form_is_numbered(s, a);
        law_normal_form_is_numbered(s, b);
        assert(tasks[a].entry@ == v[a]);
        assert(tasks[b].entry@ == v[b]);
        assert(keys[a] == a + 1);
        assert(keys[b] == b + 1);
        assert(a <= b);
        assert(not_after(v[a], v[b]));
    }
}

} // verus!
