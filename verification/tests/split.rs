use ttsvii::audio::{AudioSplitter, Cut, SplitFault};
use ttsvii::split::{Split, SplitAction, SplitEvent, SplitStage};
use ttsvii::timed_merge::Outcome;

fn begin(start: i64, end: i64) -> Split {
    let (split, action) = AudioSplitter::split_audio(start, end);
    assert_eq!(action, SplitAction::ProbeSource);
    assert_eq!((split.state().start, split.state().end), (start, end));
    split
}

fn ran(split: &mut Split, o: Outcome) -> SplitAction {
    split.step(SplitEvent::Ran(o))
}

#[test]
fn a_part_is_cut_out_and_checked() {
    let mut s = begin(1000, 2500);
    let cut = Cut { start: 1000, micros: 1_000_123 };
    assert_eq!(ran(&mut s, Outcome::Length(2_000_123)), SplitAction::Cut(cut));
    assert_eq!(ran(&mut s, Outcome::Done), SplitAction::Measure);
    assert_eq!(s.step(SplitEvent::Measured(45)), SplitAction::ProbePart);
    assert_eq!(ran(&mut s, Outcome::Length(10_000)), SplitAction::Finish);
    assert_eq!(s.state().stage, SplitStage::Ended);
}

#[test]
fn lengths_that_cannot_be_had_stop_nothing() {
    for unknown in [Outcome::Failed, Outcome::Done] {
        let mut s = begin(1000, 2500);
        let cut = Cut { start: 1000, micros: 1_500_000 };
        assert_eq!(ran(&mut s, unknown), SplitAction::Cut(cut));
        ran(&mut s, Outcome::Done);
        s.step(SplitEvent::Measured(1000));
        assert_eq!(ran(&mut s, unknown), SplitAction::Finish);
    }
}

#[test]
fn times_are_checked_before_any_tool_runs() {
    let refused = |start: i64, end: i64| AudioSplitter::split_audio(start, end).1;
    assert_eq!(refused(-1, 500), SplitAction::Fail(SplitFault::NegativeStart(-1)));
    assert_eq!(refused(500, 400), SplitAction::Fail(SplitFault::NoDuration(-100)));
    assert_eq!(refused(500, 509), SplitAction::Fail(SplitFault::TooShort(9)));
    // A start before the recording is told first.
    assert_eq!(refused(-5, -10), SplitAction::Fail(SplitFault::NegativeStart(-5)));
}

#[test]
fn every_fault_of_a_cut_ends_it() {
    let mut s = begin(1000, 2500);
    let fault = SplitFault::StartsAfterEnd { start: 1000, actual: 1_000_000 };
    assert_eq!(ran(&mut s, Outcome::Length(1_000_000)), SplitAction::Fail(fault));
    assert_eq!(s.state().stage, SplitStage::Ended);

    let mut s = begin(1000, 2500);
    ran(&mut s, Outcome::Failed);
    assert_eq!(ran(&mut s, Outcome::Failed), SplitAction::Fail(SplitFault::ToolFailed));
    assert_eq!(SplitFault::ToolFailed.message("no such file"), "ffmpeg 切分失败: no such file");

    let mut s = begin(1000, 2500);
    ran(&mut s, Outcome::Failed);
    ran(&mut s, Outcome::Done);
    assert_eq!(s.step(SplitEvent::Measured(44)), SplitAction::Fail(SplitFault::TooSmall(44)));

    let mut s = begin(1000, 2500);
    ran(&mut s, Outcome::Failed);
    ran(&mut s, Outcome::Done);
    s.step(SplitEvent::Measured(45));
    assert_eq!(ran(&mut s, Outcome::Length(9_999)), SplitAction::Fail(SplitFault::TooBrief(9_999)));
}
