use ttsvii::rounds::{
    Batch, BatchSizer, RoundAction, RoundEvent, RoundPlan, RoundStage, Rounds, FAST_NANOS, SLOW_NANOS,
};

#[test]
fn batches_follow_the_latency() {
    let mut s = BatchSizer::new(5);
    assert_eq!(s.current, 5);
    for expected in [6, 7, 8, 9, 10, 10] {
        s.adjust(FAST_NANOS - 1);
        assert_eq!(s.current, expected);
    }
    s.adjust(FAST_NANOS);
    s.adjust(SLOW_NANOS);
    assert_eq!(s.current, 10);
    for expected in [5, 2, 1, 1] {
        s.adjust(SLOW_NANOS + 1);
        assert_eq!(s.current, expected);
    }
    let mut zero = BatchSizer::new(0);
    assert_eq!(zero.current, 1);
    zero.adjust(0);
    assert_eq!(zero.current, 1);
}

fn plan(adaptive: bool, limit: Option<u32>) -> RoundPlan {
    RoundPlan { max_concurrent: 2, rest_secs: 7, adaptive, sound_only: adaptive, limit }
}

fn batch(start: usize, end: usize, len: usize, number: usize, total: usize) -> Batch {
    Batch { start, end, len, number, total }
}

#[test]
fn fixed_batches_tile_the_tasks() {
    let (mut r, action) = Rounds::new(plan(false, None), 2, (10..19).collect());
    assert_eq!(action, RoundAction::Execute(batch(0, 4, 9, 1, 3)));
    assert_eq!(r.batch_tasks(batch(0, 4, 9, 1, 3)), vec![10, 11, 12, 13]);
    assert_eq!(r.step(RoundEvent::Executed { p95: 0 }), RoundAction::Wait { secs: 7 });
    assert_eq!(r.step(RoundEvent::Waited), RoundAction::Execute(batch(4, 8, 9, 2, 3)));
    r.step(RoundEvent::Executed { p95: 0 });
    assert_eq!(r.step(RoundEvent::Waited), RoundAction::Execute(batch(8, 9, 9, 3, 3)));
    assert_eq!(r.step(RoundEvent::Executed { p95: 0 }), RoundAction::Check);
    assert_eq!(r.step(RoundEvent::Checked(vec![Some(45); 9])), RoundAction::Finish);
    assert_eq!(r.state().stage, RoundStage::Ended);
}

#[test]
fn growing_batches_follow_each_other() {
    let (mut r, action) = Rounds::new(plan(true, Some(3)), 1, (0..7).collect());
    assert_eq!(action, RoundAction::Execute(batch(0, 2, 7, 1, 4)));
    assert_eq!(r.batch_count(), 2);
    assert_eq!(r.step(RoundEvent::Executed { p95: 1 }), RoundAction::Wait { secs: 7 });
    // Twice as large now, and starting where the last one ended.
    assert_eq!(r.batch_count(), 4);
    assert_eq!(r.step(RoundEvent::Waited), RoundAction::Execute(batch(2, 6, 7, 1, 2)));
    r.step(RoundEvent::Executed { p95: 1 });
    assert_eq!(r.step(RoundEvent::Waited), RoundAction::Execute(batch(6, 7, 7, 2, 2)));
    assert_eq!(r.step(RoundEvent::Executed { p95: 1 }), RoundAction::Check);
}

#[test]
fn shrinking_batches_leave_no_task_out() {
    let (mut r, action) = Rounds::new(plan(true, Some(3)), 2, (0..8).collect());
    assert_eq!(action, RoundAction::Execute(batch(0, 4, 8, 1, 2)));
    r.step(RoundEvent::Executed { p95: SLOW_NANOS + 1 });
    let mut covered: Vec<usize> = (0..4).collect();
    let mut action = r.step(RoundEvent::Waited);
    while let RoundAction::Execute(b) = action {
        covered.extend(r.batch_tasks(b));
        action = r.step(RoundEvent::Executed { p95: FAST_NANOS });
        if matches!(action, RoundAction::Wait { .. }) {
            action = r.step(RoundEvent::Waited);
        }
    }
    assert_eq!(covered, (0..8).collect::<Vec<usize>>());
    assert_eq!(action, RoundAction::Check);
}

#[test]
fn results_must_hold_sound() {
    let (mut r, _) = Rounds::new(plan(true, Some(3)), 4, vec![3, 5, 7, 9]);
    r.step(RoundEvent::Executed { p95: FAST_NANOS });
    let sizes = vec![Some(45), Some(44), None, Some(0)];
    assert_eq!(r.step(RoundEvent::Checked(sizes)), RoundAction::Wait { secs: 60 });
    assert_eq!(r.state().pending, vec![5, 7, 9]);
    assert_eq!(r.state().round, 2);
    assert_eq!(r.step(RoundEvent::Waited), RoundAction::Execute(batch(0, 3, 3, 1, 1)));
}

#[test]
fn tasks_taken_up_again_are_done_once_their_results_exist() {
    let (mut r, _) = Rounds::new(plan(false, Some(3)), 4, vec![3, 5, 7, 9]);
    r.step(RoundEvent::Executed { p95: 0 });
    let sizes = vec![Some(45), Some(10), None, Some(0)];
    assert_eq!(r.step(RoundEvent::Checked(sizes)), RoundAction::Wait { secs: 60 });
    assert_eq!(r.state().pending, vec![7]);
    r.step(RoundEvent::Waited);
    r.step(RoundEvent::Executed { p95: 0 });
    assert_eq!(r.step(RoundEvent::Checked(vec![Some(1)])), RoundAction::Finish);
}

#[test]
fn rounds_are_limited() {
    let (mut r, _) = Rounds::new(plan(true, Some(3)), 1, vec![0, 1]);
    for _ in 0..2 {
        assert_eq!(r.step(RoundEvent::Executed { p95: FAST_NANOS }), RoundAction::Check);
        assert_eq!(r.step(RoundEvent::Checked(vec![None, None])), RoundAction::Wait { secs: 60 });
        assert_eq!(r.step(RoundEvent::Waited), RoundAction::Execute(batch(0, 2, 2, 1, 1)));
    }
    r.step(RoundEvent::Executed { p95: FAST_NANOS });
    assert_eq!(r.step(RoundEvent::Checked(vec![Some(100), None])), RoundAction::GiveUp);
    assert_eq!(r.state().pending, vec![1]);
}

#[test]
fn rounds_without_a_limit_go_on() {
    let (mut r, _) = Rounds::new(plan(false, None), 1, vec![5]);
    for round in 2..20 {
        r.step(RoundEvent::Executed { p95: 0 });
        assert_eq!(r.step(RoundEvent::Checked(vec![None])), RoundAction::Wait { secs: 60 });
        assert_eq!(r.state().round, round);
        r.step(RoundEvent::Waited);
    }
}

#[test]
fn no_tasks_are_no_work() {
    let (r, action) = Rounds::new(plan(true, Some(3)), 1, vec![]);
    assert_eq!(action, RoundAction::Finish);
    assert_eq!(r.state().stage, RoundStage::Ended);
}

#[test]
fn plans_that_cannot_work_are_told() {
    assert!(plan(true, Some(3)).workable(0));
    assert!(!plan(false, None).workable(0));
    assert!(plan(false, None).workable(usize::MAX / 2));
    assert!(!plan(true, Some(3)).workable(usize::MAX / 2));
    assert!(!plan(true, Some(0)).workable(1));
    let none = RoundPlan { max_concurrent: 0, ..plan(true, None) };
    assert!(!none.workable(1));
}
