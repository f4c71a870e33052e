use ttsvii::silence::Piece;
use ttsvii::tempo::Filter;
use ttsvii::timed_merge::{MergeAction, MergeFault, Outcome, Source, Stage, TimedMerge};

#[test]
fn a_merge_goes_from_probing_to_the_end() {
    // Three clips: one that fits, one that is too short, one that is too long.
    let (mut m, _) = TimedMerge::new(vec![(500, 1500), (1500, 2500), (3000, 4000)]);
    assert_eq!(m.step(Outcome::Length(5_000_000)), MergeAction::Probe(Source::Input(0)));
    assert_eq!(m.step(Outcome::Length(1_000_000)), MergeAction::Copy { index: 0 });
    assert_eq!(m.step(Outcome::Done), MergeAction::Probe(Source::Input(1)));
    assert_eq!(
        m.step(Outcome::Length(600_000)),
        MergeAction::Filter { index: 1, filter: Filter::Pad { micros: 400_000 } }
    );
    assert_eq!(m.step(Outcome::Done), MergeAction::Probe(Source::Input(2)));
    assert_eq!(
        m.step(Outcome::Length(1_600_000)),
        MergeAction::Filter { index: 2, filter: Filter::Tempo { doublings: 0, thousandths: 1600 } }
    );
    assert_eq!(m.step(Outcome::Done), MergeAction::Probe(Source::Processed(2)));
    assert_eq!(
        m.step(Outcome::Length(1_100_000)),
        MergeAction::Correct { index: 2, filter: Filter::Tempo { doublings: 0, thousandths: 1100 } }
    );
    assert_eq!(m.step(Outcome::Done), MergeAction::MakeSilence { index: 0, micros: 500_000 });
    assert_eq!(m.step(Outcome::Done), MergeAction::MakeSilence { index: 1, micros: 500_000 });
    assert_eq!(m.step(Outcome::Done), MergeAction::MakeSilence { index: 2, micros: 1_000_000 });
    assert_eq!(m.step(Outcome::Done), MergeAction::Join { remade: false });
    assert_eq!(
        m.pieces(false),
        vec![
            Piece::Silence(0),
            Piece::Clip { index: 0, corrected: false },
            Piece::Clip { index: 1, corrected: false },
            Piece::Silence(1),
            Piece::Clip { index: 2, corrected: true },
            Piece::Silence(2),
        ]
    );
    assert_eq!(m.step(Outcome::Done), MergeAction::Probe(Source::Joined));
    assert_eq!(m.step(Outcome::Length(5_300_000)), MergeAction::Probe(Source::Silence(2)));
    assert_eq!(m.step(Outcome::Length(1_000_000)), MergeAction::MakeTail { micros: 700_000 });
    assert_eq!(m.step(Outcome::Done), MergeAction::Join { remade: true });
    assert_eq!(m.step(Outcome::Failed), MergeAction::Finish);
    assert_eq!(m.state().stage, Stage::Ended);
}

#[test]
fn a_merge_that_fits_ends_after_the_first_join() {
    let (mut m, _) = TimedMerge::new(vec![(0, 1000)]);
    m.step(Outcome::Length(1_000_000));
    assert_eq!(m.step(Outcome::Length(1_005_000)), MergeAction::Copy { index: 0 });
    assert_eq!(m.step(Outcome::Done), MergeAction::Join { remade: false });
    assert_eq!(m.step(Outcome::Done), MergeAction::Probe(Source::Joined));
    assert_eq!(m.step(Outcome::Length(1_100_000)), MergeAction::Finish);
}

#[test]
fn a_joined_recording_without_a_last_silence_stays() {
    let (mut m, _) = TimedMerge::new(vec![(0, 1000)]);
    m.step(Outcome::Length(1_000_000));
    m.step(Outcome::Length(1_000_000));
    m.step(Outcome::Done);
    m.step(Outcome::Done);
    assert_eq!(m.step(Outcome::Length(2_000_000)), MergeAction::Finish);
}

#[test]
fn a_last_silence_that_cannot_be_shortened_stays() {
    let (mut m, _) = TimedMerge::new(vec![(0, 1000)]);
    m.step(Outcome::Length(2_000_000));
    m.step(Outcome::Length(1_000_000));
    assert_eq!(m.step(Outcome::Done), MergeAction::MakeSilence { index: 0, micros: 1_000_000 });
    m.step(Outcome::Done);
    m.step(Outcome::Done);
    assert_eq!(m.step(Outcome::Length(3_000_000)), MergeAction::Probe(Source::Silence(0)));
    assert_eq!(m.step(Outcome::Length(1_000_000)), MergeAction::Finish);
}

fn upto(outcomes: &[Outcome]) -> MergeAction {
    let (mut m, _) = TimedMerge::new(vec![(0, 1000)]);
    let mut last = MergeAction::Finish;
    for o in outcomes {
        last = m.step(*o);
    }
    last
}

#[test]
fn every_fault_of_a_merge_has_its_cause() {
    let two = Outcome::Length(2_000_000);
    let one = Outcome::Length(1_000_000);
    let done = Outcome::Done;
    let failed = Outcome::Failed;
    assert_eq!(upto(&[failed]), MergeAction::Abort(MergeFault::OriginalUnreadable));
    assert_eq!(upto(&[done]), MergeAction::Abort(MergeFault::OriginalEmpty));
    assert_eq!(upto(&[Outcome::Length(0)]), MergeAction::Abort(MergeFault::OriginalEmpty));
    assert_eq!(upto(&[two, failed]), MergeAction::Abort(MergeFault::InputUnreadable(0)));
    assert_eq!(upto(&[two, done]), MergeAction::Abort(MergeFault::InputEmpty(0)));
    assert_eq!(upto(&[two, one, failed]), MergeAction::Abort(MergeFault::CopyFailed(0)));
    assert_eq!(
        upto(&[two, Outcome::Length(500_000), failed]),
        MergeAction::Abort(MergeFault::PadFailed(0))
    );
    assert_eq!(
        upto(&[two, Outcome::Length(3_000_000), failed]),
        MergeAction::Abort(MergeFault::SpeedFailed { index: 0, thousandths: 3000 })
    );
    assert_eq!(upto(&[two, one, done, failed]), MergeAction::Abort(MergeFault::SilenceFailed));
    assert_eq!(upto(&[two, one, done, done, failed]), MergeAction::Abort(MergeFault::JoinFailed));
    assert_eq!(
        upto(&[two, one, done, done, done, failed]),
        MergeAction::Abort(MergeFault::JoinedUnreadable)
    );
}

#[test]
fn faults_of_a_merge_are_told() {
    let p = "\"a.wav\"";
    assert_eq!(MergeFault::OriginalUnreadable.message(p, ""), "无法获取原始音频/视频时长: \"a.wav\"");
    assert_eq!(MergeFault::OriginalEmpty.message(p, ""), "原始音频/视频时长为 0: \"a.wav\"");
    assert_eq!(MergeFault::InputUnreadable(1).message(p, ""), "无法获取音频文件时长: \"a.wav\"");
    assert_eq!(MergeFault::InputEmpty(1).message(p, ""), "音频文件时长为 0: \"a.wav\"");
    assert_eq!(MergeFault::CopyFailed(1).message(p, "disk full"), "disk full");
    assert_eq!(MergeFault::PadFailed(1).message(p, "no"), "ffmpeg 追加静音失败 (文件: \"a.wav\"): no");
    assert_eq!(
        MergeFault::SpeedFailed { index: 1, thousandths: 2345 }.message(p, "no"),
        "ffmpeg 速度调整失败 (文件: \"a.wav\", 速度比例: 2.345): no"
    );
    assert_eq!(MergeFault::SilenceFailed.message(p, "no"), "ffmpeg 生成空白音频失败: no");
    assert_eq!(MergeFault::JoinFailed.message(p, "no"), "ffmpeg 合并失败: no");
    assert_eq!(MergeFault::JoinedUnreadable.message(p, "no"), "无法获取最终音频时长: \"a.wav\"");
}

/// Joins `n` clips that fit, and tells what was said.
fn said(n: usize, gap: i64) -> Vec<(usize, usize, String)> {
    let times = (0..n as i64).map(|i| (i * 1000 + gap, i * 1000 + 1000)).collect();
    let (mut m, mut action) = TimedMerge::new(times);
    assert_eq!(action, MergeAction::Probe(Source::Original));
    let mut said = Vec::new();
    while action != MergeAction::Finish {
        if let Some(p) = m.progress(action) {
            said.push((p.done, p.total, p.text));
        }
        let o = match action {
            MergeAction::Probe(Source::Input(_)) => Outcome::Length((1000 - gap) * 1000),
            MergeAction::Probe(_) => Outcome::Length(n as i64 * 1_000_000),
            _ => Outcome::Done,
        };
        action = m.step(o);
    }
    said
}

#[test]
fn progress_is_told_every_tenth_time_and_at_the_end() {
    let line = |k: usize, n: usize| (k, n, format!("处理文件 {}/{}", k, n));
    let end = |n: usize| (n, n, "速度调整完成".to_string());
    for gap in [0, 100] {
        assert_eq!(said(12, gap), vec![line(10, 12), line(12, 12), end(12)]);
        assert_eq!(said(10, gap), vec![line(10, 10), end(10)]);
        assert_eq!(said(1, gap), vec![line(1, 1), end(1)]);
        assert_eq!(said(23, gap), vec![line(10, 23), line(20, 23), line(23, 23), end(23)]);
    }
}
