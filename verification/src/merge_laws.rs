//! What joining clips in the time of their subtitles does, step by step.
use vstd::prelude::*;
use vstd::arithmetic::power2::pow2;
use crate::silence::{first_at, law_silences_are_the_unspoken_times, silence_plan, unspoken, Silence};
use crate::tempo::{
    distance, law_a_clip_is_left_only_if_it_fits, law_a_faster_clip_fills_its_time, law_second_pass_comes_nearer,
    law_rounding_is_nearest, law_when_there_is_a_second_pass, Filter,
};
use crate::timed_merge::{fitting, lemma_ratio_fits, MergeAction, MergeFault, MergeState, Outcome, Source, Stage};

verus! {

/// The time of a clip, in microseconds.
pub open spec fn time_to_fill(t: (i64, i64)) -> int {
    1000 * (t.1 as int) - 1000 * (t.0 as int)
}

/// A clip of this length is fitted into its time: it is taken over as it is if it misses its time by
/// less than one per cent, silence is added so that it fills it, or it is played faster by as much as
/// it is too long.
pub open spec fn fits_clip(action: MergeAction, i: int, target: int, len: int) -> bool {
    if 100 * distance(len, target) < target {
        action == (MergeAction::Copy { index: i as usize })
    } else if len < target || target < 0 {
        action matches MergeAction::Filter { index, filter: Filter::Pad { micros } } && index == i && len
            + micros == target
    } else {
        action matches MergeAction::Filter { index, filter: Filter::Tempo { doublings: k, thousandths: t } }
            && index == i && target * pow2(k as nat) < len <= 2 * (target * pow2(k as nat)) && 2
            * distance(1000 * len, t * (target * pow2(k as nat))) <= target * pow2(k as nat)
    }
}

/// Every clip is fitted into the time of its own subtitle.
pub proof fn law_every_clip_is_fitted(pre: MergeState, o: Outcome, post: MergeState, action: MergeAction)
    requires
        pre.inv(),
        o.in_range(),
        pre.stepped(o, &post, action),
        pre.stage == Stage::ProbeInput,
        o matches Outcome::Length(len) && len > 0,
    ensures
        fits_clip(
            action,
            pre.corrected@.len() as int,
            time_to_fill(pre.times@[pre.corrected@.len() as int]),
            o->Length_0 as int,
        ),
        post.corrected@ == pre.corrected@,
        post.stage matches Stage::Speeding { thousandths } ==> {
            let target = time_to_fill(pre.times@[pre.corrected@.len() as int]);
            2 * distance(1000 * o->Length_0, thousandths * target) <= target
        },
{
    let i = pre.corrected@.len() as int;
    let target = crate::timed_merge::target_micros(pre.times@[i]);
    let len = o->Length_0 as int;
    assert(target != 0);
    assert(crate::tempo::time_in_range(pre.times@[i].0 as int));
    law_a_clip_is_left_only_if_it_fits(target, len);
    law_a_faster_clip_fills_its_time(target, len);
    crate::tempo::law_padding_fills_the_time(target, len);
    if post.stage is Speeding {
        law_rounding_is_nearest((1000 * len) as nat, target as nat);
        lemma_ratio_fits(target, len);
    }
}

/// A clip that was played faster gets a second pass exactly if its length is known, misses the time
/// by more than fifty milliseconds and is off by a factor of two at most. The tempo of the second pass
/// brings it to its time.
pub proof fn law_second_passes(pre: MergeState, o: Outcome, post: MergeState, action: MergeAction)
    requires
        pre.inv(),
        o.in_range(),
        pre.stepped(o, &post, action),
        pre.stage == Stage::ProbeSped,
    ensures
        ({
            let i = pre.corrected@.len() as int;
            let target = time_to_fill(pre.times@[i]);
            &&& action is Correct <==> {
                &&& o is Length
                &&& distance(o->Length_0 as int, target) > 50_000
                &&& target <= 2 * o->Length_0 <= 4 * target
            }
            &&& action matches MergeAction::Correct { index, filter } ==> {
                &&& index == i
                &&& filter matches Filter::Tempo { doublings: 0, thousandths: t } && 2 * distance(
                    1000 * o->Length_0,
                    target * t,
                ) <= target
            }
        }),
{
    let i = pre.corrected@.len() as int;
    let target = crate::timed_merge::target_micros(pre.times@[i]);
    assert(crate::tempo::time_in_range(pre.times@[i].0 as int));
    assert(crate::tempo::time_in_range(pre.times@[i].1 as int));
    law_when_there_is_a_second_pass(target, o.spec_length());
    if o is Length {
        law_second_pass_comes_nearer(target, o->Length_0 as int);
    }
}

/// A clip is done. Another one that is left is probed next; behind the last one the silences are made,
/// and where there is none the pieces are joined.
pub open spec fn goes_on(post: MergeState, action: MergeAction) -> bool {
    let done = post.corrected@.len();
    if done < post.times@.len() {
        post.stage == Stage::ProbeInput && action == MergeAction::Probe(Source::Input(done as usize))
    } else if post.silences@.len() > 0 {
        post.stage == (Stage::Silencing { made: 0 }) && (action matches MergeAction::MakeSilence {
            index: 0,
            micros,
        } && micros == 1000 * post.silences@[0].millis)
    } else {
        post.stage == Stage::Joining && action == (MergeAction::Join { remade: false })
    }
}

/// Clips come one after the other, and each is done once: after it was copied, padded, or played
/// faster with or without a second pass. It counts as corrected exactly if its second pass succeeded.
pub proof fn law_clips_come_one_after_the_other(
    pre: MergeState,
    o: Outcome,
    post: MergeState,
    action: MergeAction,
)
    requires
        pre.inv(),
        pre.stepped(o, &post, action),
        post.inv(),
        !(action is Abort),
    ensures
        ({
            let finished = pre.stage == Stage::Copying || pre.stage == Stage::Padding || pre.stage
                == Stage::Correcting || (pre.stage == Stage::ProbeSped && !(action is Correct));
            &&& finished ==> post.corrected@ == pre.corrected@.push(
                pre.stage == Stage::Correcting && !(o is Failed),
            ) && goes_on(post, action)
            &&& !finished ==> post.corrected@ == pre.corrected@
        }),
        pre.stage is Speeding ==> action == MergeAction::Probe(
            Source::Processed(pre.corrected@.len() as usize),
        ),
        post.times@ == pre.times@,
{
    if post.stage is Silencing {
        assert(post.silences@[0].millis > 0);
    }
}

/// Silences are made one after the other, each as long as it is to be, and then the pieces are joined
/// and the result is measured.
pub proof fn law_silences_are_made(pre: MergeState, o: Outcome, post: MergeState, action: MergeAction)
    requires
        pre.inv(),
        pre.stepped(o, &post, action),
        !(action is Abort),
    ensures
        pre.stage matches Stage::Silencing { made } ==> if made + 1 < pre.silences@.len() {
            action matches MergeAction::MakeSilence { index, micros } && index == made + 1 && micros
                == 1000 * pre.silences@[made + 1].millis
        } else {
            action == (MergeAction::Join { remade: false })
        },
        pre.stage == Stage::Joining ==> action == MergeAction::Probe(Source::Joined),
        pre.stage == Stage::RemakingTail ==> action == (MergeAction::Join { remade: true }),
        pre.stage == Stage::Rejoining ==> action == MergeAction::Finish,
        pre.stage is ProbeTail && !(o is Length) ==> action == MergeAction::Finish,
{
    if let Stage::Silencing { made } = pre.stage {
        if made + 1 < pre.silences@.len() {
            assert(pre.silences@[made + 1].millis > 0);
        }
    }
}

/// The silences that are made are the times at which nothing is said, up to the end of the original.
pub proof fn law_silences_fill_what_is_unspoken(pre: MergeState, i: int)
    requires
        pre.inv(),
        !fitting(pre.stage),
        pre.stage != Stage::ProbeOriginal,
        pre.stage != Stage::Ended,
        0 <= i < pre.silences@.len(),
    ensures
        pre.silences@[i].position <= pre.times@.len(),
        pre.silences@[i].millis == unspoken(
            pre.times@,
            pre.original as int / 1000,
            pre.silences@[i].position as int,
        ),
{
    law_silences_are_the_unspoken_times(pre.times@, pre.original as int / 1000);
    assert(silence_plan(pre.times@, pre.original as int / 1000)[i] == pre.silences@[i]);
}

/// There is a silence at the end.
pub open spec fn ends_silently(s: Seq<Silence>, n: int) -> bool {
    exists|i: int| 0 <= i < s.len() && (#[trigger] s[i]).position == n
}

proof fn lemma_end_silence(s: Seq<Silence>, n: int)
    ensures
        first_at(s, n) is Some <==> ends_silently(s, n),
        first_at(s, n) matches Some(i) ==> i < s.len() && s[i as int].position == n,
    decreases s.len(),
{
    if s.len() > 0 {
        let d = s.drop_last();
        lemma_end_silence(d, n);
        if ends_silently(d, n) {
            let i = choose|i: int| 0 <= i < d.len() && (#[trigger] d[i]).position == n;
            assert(s[i].position == n);
        } else if ends_silently(s, n) {
            let i = choose|i: int| 0 <= i < s.len() && (#[trigger] s[i]).position == n;
            if i < d.len() {
                assert(d[i].position == n);
            }
        }
        if s.last().position == n {
            assert(s[s.len() - 1].position == n);
        }
    }
}

/// The length that a tool gave, or nothing.
pub open spec fn length_or_nothing(o: Outcome) -> int {
    if o is Length {
        o->Length_0 as int
    } else {
        0
    }
}

/// A joined recording that misses the length of the original by more than a tenth of a second has its
/// last silence measured, if it has one; any other is finished.
pub proof fn law_when_the_end_is_made_anew(
    pre: MergeState,
    o: Outcome,
    post: MergeState,
    action: MergeAction,
)
    requires
        pre.inv(),
        pre.stepped(o, &post, action),
        pre.stage == Stage::ProbeJoined,
        !(o is Failed),
    ensures
        distance(length_or_nothing(o), pre.original as int) > 100_000 && ends_silently(
            pre.silences@,
            pre.times@.len() as int,
        ) ==> (action matches MergeAction::Probe(Source::Silence(i)) && i < pre.silences@.len()
            && pre.silences@[i as int].position == pre.times@.len()),
        distance(length_or_nothing(o), pre.original as int) <= 100_000 || !ends_silently(
            pre.silences@,
            pre.times@.len() as int,
        ) ==> action == MergeAction::Finish,
{
    lemma_end_silence(pre.silences@, pre.times@.len() as int);
}

/// The silence at the end that is made anew makes the joined recording as long as the original: what
/// was joined, without the last silence as it was and with the new one. It is made exactly if something
/// is left of it.
pub proof fn law_the_new_end_makes_up_the_difference(
    pre: MergeState,
    joined: i64,
    mid: MergeState,
    first: MergeAction,
    last: i64,
    post: MergeState,
    second: MergeAction,
)
    requires
        pre.inv(),
        pre.stage == Stage::ProbeJoined,
        Outcome::Length(joined).in_range(),
        Outcome::Length(last).in_range(),
        pre.stepped(Outcome::Length(joined), &mid, first),
        first is Probe,
        mid.stepped(Outcome::Length(last), &post, second),
    ensures
        second matches MergeAction::MakeTail { micros } ==> joined - last + micros == pre.original
            && micros > 0,
        second is MakeTail <==> joined - last < pre.original,
        !(second is MakeTail) ==> second == MergeAction::Finish,
{
}

/// Lengths that are asked for are taken in: the original's is the length of the recording to be made,
/// and one that is not longer than nothing ends the work, as a tool that fails does, each for its own
/// reason.
pub proof fn law_reasons_of_a_join(pre: MergeState, o: Outcome, post: MergeState, action: MergeAction)
    requires
        pre.inv(),
        pre.stepped(o, &post, action),
    ensures
        ({
            let i = pre.corrected@.len() as usize;
            let empty = !(o is Length) || o->Length_0 <= 0;
            match pre.stage {
                Stage::ProbeOriginal => if o is Failed {
                    action == MergeAction::Abort(MergeFault::OriginalUnreadable)
                } else if empty {
                    action == MergeAction::Abort(MergeFault::OriginalEmpty)
                } else {
                    action == MergeAction::Probe(Source::Input(0)) && post.original == o->Length_0
                },
                Stage::ProbeInput => {
                    &&& o is Failed ==> action == MergeAction::Abort(MergeFault::InputUnreadable(i))
                    &&& !(o is Failed) && empty ==> action == MergeAction::Abort(
                        MergeFault::InputEmpty(i),
                    )
                },
                Stage::Copying => o is Failed ==> action == MergeAction::Abort(
                    MergeFault::CopyFailed(i),
                ),
                Stage::Padding => o is Failed ==> action == MergeAction::Abort(
                    MergeFault::PadFailed(i),
                ),
                Stage::Speeding { thousandths } => o is Failed ==> action == MergeAction::Abort(
                    (MergeFault::SpeedFailed { index: i, thousandths }),
                ),
                Stage::Silencing { .. } | Stage::RemakingTail => o is Failed ==> action
                    == MergeAction::Abort(MergeFault::SilenceFailed),
                Stage::Joining => o is Failed ==> action == MergeAction::Abort(
                    MergeFault::JoinFailed,
                ),
                Stage::ProbeJoined => o is Failed ==> action == MergeAction::Abort(
                    MergeFault::JoinedUnreadable,
                ),
                _ => !(action is Abort),
            }
        }),
        pre.stage != Stage::ProbeOriginal ==> post.original == pre.original,
{
}

/// The times of the clips never change, and the silences only when the last clip is done.
pub proof fn law_what_a_join_keeps(pre: MergeState, o: Outcome, post: MergeState, action: MergeAction)
    requires
        pre.inv(),
        pre.stepped(o, &post, action),
    ensures
        post.times@ == pre.times@,
        post.silences@ == pre.silences@ || (fitting(pre.stage) && post.corrected@.len()
            == pre.times@.len() && post.silences@ == silence_plan(
            pre.times@,
            pre.original as int / 1000,
        )),
        action is Abort || action is Finish <==> post.stage == Stage::Ended,
{
}

} // verus!
