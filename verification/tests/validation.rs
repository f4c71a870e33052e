use ttsvii::rounds::Batch;
use ttsvii::validation::{all_tasks, Validation, ValidationAction, ValidationEvent, ValidationStage};

fn batch(start: usize, end: usize, len: usize, number: usize, total: usize) -> Batch {
    Batch { start, end, len, number, total }
}

#[test]
fn valid_results_need_nothing_more() {
    let (mut v, action) = Validation::new(all_tasks(3), 2, 1, 3);
    assert_eq!(action, ValidationAction::Validate);
    assert_eq!(v.state().subjects, vec![0, 1, 2]);
    let action = v.step(ValidationEvent::Validated(vec![true, true, true]));
    assert_eq!(action, ValidationAction::Finish);
    assert_eq!(v.state().stage, ValidationStage::Ended);
    let (_, action) = Validation::new(vec![], 2, 1, 3);
    assert_eq!(action, ValidationAction::Finish);
}

#[test]
fn invalid_results_are_made_anew_and_validated_again() {
    let (mut v, _) = Validation::new(all_tasks(5), 2, 9, 3);
    let action = v.step(ValidationEvent::Validated(vec![false, true, false, true, false]));
    assert_eq!(action, ValidationAction::Execute(batch(0, 2, 3, 1, 2)));
    assert_eq!(v.state().subjects, vec![0, 2, 4]);
    assert_eq!(v.batch_tasks(batch(0, 2, 3, 1, 2)), vec![0, 2]);
    assert_eq!(v.step(ValidationEvent::Executed), ValidationAction::Wait { secs: 9 });
    assert_eq!(v.step(ValidationEvent::Waited), ValidationAction::Execute(batch(2, 3, 3, 2, 2)));
    assert_eq!(v.step(ValidationEvent::Executed), ValidationAction::Wait { secs: 60 });
    assert_eq!(v.state().round, 2);

    // All that was made anew is in question again.
    assert_eq!(v.step(ValidationEvent::Waited), ValidationAction::Validate);
    assert_eq!(v.state().subjects, vec![0, 2, 4]);
    let action = v.step(ValidationEvent::Validated(vec![true, false, true]));
    assert_eq!(action, ValidationAction::Execute(batch(0, 1, 1, 1, 1)));
    assert_eq!(v.state().subjects, vec![2]);
    v.step(ValidationEvent::Executed);
    v.step(ValidationEvent::Waited);
    assert_eq!(v.step(ValidationEvent::Validated(vec![true])), ValidationAction::Finish);
}

#[test]
fn validation_gives_up_after_the_last_round() {
    let (mut v, _) = Validation::new(vec![4, 6], 2, 0, 2);
    v.step(ValidationEvent::Validated(vec![false, false]));
    v.step(ValidationEvent::Executed);
    v.step(ValidationEvent::Waited);
    let action = v.step(ValidationEvent::Validated(vec![true, false]));
    assert_eq!(action, ValidationAction::GiveUp);
    assert_eq!(v.state().subjects, vec![6]);
}
