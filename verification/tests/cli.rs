use ttsvii::cli::{
    resume_cli_task, run_cli_mode, CliAction, CliEvent, CliRun, CliStage, Flow, RunSettings,
};

fn settings() -> RunSettings {
    RunSettings {
        api_url: "u".to_string(),
        output: "o".to_string(),
        max_concurrent: 10,
        split_concurrent: 4,
        batch_size: 5,
        rest_duration: 1,
        retry_count: 3,
    }
}

fn done(run: &mut CliRun) -> CliAction {
    run.step(CliEvent::Done, "")
}

fn failed(run: &mut CliRun, event: CliEvent) -> String {
    match run.step(event, "\"tmp/x\"") {
        CliAction::Fail(m) => m,
        other => panic!("{:?}", other),
    }
}

fn failed_and_cleaned_up(run: &mut CliRun, event: CliEvent) -> String {
    if matches!(run.state().stage, CliStage::Collecting | CliStage::Joining | CliStage::JoiningTimed) {
        assert!(matches!(run.step(event, ""), CliAction::Report));
        assert!(matches!(done(run), CliAction::CleanUp));
        return failed(run, CliEvent::Done);
    }
    assert!(matches!(run.step(event, "\"tmp/x\""), CliAction::CleanUp));
    failed(run, CliEvent::Done)
}

#[test]
fn a_new_run_goes_from_the_tool_to_the_timed_result() {
    let (mut run, action) = run_cli_mode(settings());
    assert!(matches!(action, CliAction::CheckTool));
    assert!(matches!(done(&mut run), CliAction::MakeDirs));
    assert!(matches!(done(&mut run), CliAction::Parse));
    assert!(matches!(done(&mut run), CliAction::Cut));
    assert!(matches!(done(&mut run), CliAction::Work));
    let plan = run.round_plan();
    assert_eq!((plan.max_concurrent, plan.rest_secs, plan.limit), (10, 1, Some(3)));
    assert_eq!((plan.adaptive, plan.sound_only), (true, true));
    assert!(matches!(done(&mut run), CliAction::Validate));
    assert!(matches!(done(&mut run), CliAction::Collect { least: 0 }));
    assert!(matches!(done(&mut run), CliAction::Join { secs: 1800 }));
    assert!(matches!(done(&mut run), CliAction::JoinTimed { secs: 1800 }));
    assert!(matches!(done(&mut run), CliAction::Report));
    assert!(matches!(done(&mut run), CliAction::CleanUp));
    assert!(matches!(done(&mut run), CliAction::Finish));
    assert_eq!(run.state().stage, CliStage::Ended);
}

fn at_work() -> CliRun {
    let (mut run, _) = run_cli_mode(settings());
    for _ in 0..4 {
        done(&mut run);
    }
    run
}

#[test]
fn a_new_run_that_gives_up_is_resumed() {
    let mut run = at_work();
    assert!(matches!(run.step(CliEvent::GaveUp, ""), CliAction::Parse));
    assert_eq!(run.state().flow, Flow::Leftover);
    assert!(matches!(done(&mut run), CliAction::FindPending));
    assert!(matches!(done(&mut run), CliAction::Work));
    let plan = run.round_plan();
    assert_eq!((plan.adaptive, plan.sound_only, plan.limit), (false, false, Some(3)));
    assert!(matches!(done(&mut run), CliAction::Collect { least: 44 }));
    done(&mut run);
    assert!(matches!(done(&mut run), CliAction::JoinTimed { secs: 1800 }));
    assert_eq!(
        failed_and_cleaned_up(&mut run, CliEvent::TimedOut),
        "合并变速音频超时（超过 30 分钟）"
    );
}

#[test]
fn failed_tasks_do_not_stop_a_run() {
    // Tasks that fail again after a new run was taken up once more.
    let mut run = at_work();
    run.step(CliEvent::GaveUp, "");
    done(&mut run);
    assert!(matches!(done(&mut run), CliAction::Work));
    assert!(matches!(run.step(CliEvent::GaveUp, ""), CliAction::Collect { least: 44 }));
    assert!(matches!(done(&mut run), CliAction::Join { .. }));
    assert!(matches!(done(&mut run), CliAction::JoinTimed { .. }));
    assert!(matches!(done(&mut run), CliAction::Report));
    assert!(matches!(done(&mut run), CliAction::CleanUp));
    assert!(matches!(done(&mut run), CliAction::Finish));

    // Results that stay invalid.
    let mut run = at_work();
    assert!(matches!(done(&mut run), CliAction::Validate));
    assert!(matches!(run.step(CliEvent::GaveUp, ""), CliAction::Collect { least: 0 }));

    // Tasks of an earlier run that fail again.
    let (mut run, _) = resume_cli_task(settings(), true);
    for _ in 0..3 {
        done(&mut run);
    }
    assert!(matches!(done(&mut run), CliAction::Work));
    assert_eq!(run.round_plan().limit, Some(3));
    assert!(!run.round_plan().sound_only);
    assert!(matches!(run.step(CliEvent::GaveUp, ""), CliAction::Collect { least: 44 }));
}

#[test]
fn a_run_whose_tasks_all_failed_tells_so() {
    let mut run = at_work();
    run.step(CliEvent::GaveUp, "");
    done(&mut run);
    done(&mut run);
    assert!(matches!(run.step(CliEvent::GaveUp, ""), CliAction::Collect { .. }));
    let nothing = CliEvent::Failed("没有有效的合成音频文件可以合并".to_string());
    assert!(matches!(run.step(nothing, ""), CliAction::Report));
    assert!(matches!(done(&mut run), CliAction::CleanUp));
    assert_eq!(failed(&mut run, CliEvent::Done), "没有有效的合成音频文件可以合并");
}

#[test]
fn parts_that_cannot_be_removed_change_nothing() {
    let mut run = at_work();
    for _ in 0..5 {
        done(&mut run);
    }
    assert!(matches!(done(&mut run), CliAction::CleanUp));
    assert!(matches!(run.step(CliEvent::Failed("busy".to_string()), ""), CliAction::Finish));

    let mut run = at_work();
    assert!(matches!(run.step(CliEvent::Failed("why".to_string()), ""), CliAction::CleanUp));
    assert_eq!(failed(&mut run, CliEvent::Failed("busy".to_string())), "why");
}

#[test]
fn an_earlier_run_that_fails_keeps_its_parts() {
    let (mut run, _) = resume_cli_task(settings(), true);
    for _ in 0..3 {
        done(&mut run);
    }
    assert_eq!(failed(&mut run, CliEvent::Failed("why".to_string())), "why");
}

#[test]
fn an_earlier_run_is_taken_up() {
    let (mut run, action) = resume_cli_task(settings(), true);
    assert!(matches!(action, CliAction::FindParts));
    assert!(matches!(done(&mut run), CliAction::MakeDirs));
    assert!(matches!(done(&mut run), CliAction::Parse));
    assert!(matches!(done(&mut run), CliAction::FindPending));
    // Nothing is pending.
    assert!(matches!(run.step(CliEvent::Absent, ""), CliAction::Collect { least: 44 }));
    assert!(matches!(done(&mut run), CliAction::Join { secs: 1800 }));
    assert!(matches!(done(&mut run), CliAction::FindAudio));
    assert!(matches!(run.step(CliEvent::Absent, ""), CliAction::Report));
    assert!(matches!(done(&mut run), CliAction::CleanUp));
    assert!(matches!(done(&mut run), CliAction::Finish));
}

#[test]
fn an_earlier_run_without_a_recording_ends_with_the_join() {
    let (mut run, _) = resume_cli_task(settings(), false);
    for _ in 0..5 {
        done(&mut run);
    }
    assert!(matches!(done(&mut run), CliAction::Join { .. }));
    assert!(matches!(done(&mut run), CliAction::Report));
    assert!(matches!(done(&mut run), CliAction::CleanUp));
    assert!(matches!(done(&mut run), CliAction::Finish));
}

#[test]
fn failures_of_a_run_are_told() {
    let (mut run, _) = run_cli_mode(settings());
    assert_eq!(failed(&mut run, CliEvent::Failed("x".to_string())), "请确保已安装 ffmpeg 并在 PATH 中");

    let (mut run, _) = run_cli_mode(settings());
    done(&mut run);
    assert_eq!(failed_and_cleaned_up(&mut run, CliEvent::Failed("disk".to_string())), "disk");

    let (mut run, _) = run_cli_mode(settings());
    done(&mut run);
    done(&mut run);
    assert_eq!(
        failed_and_cleaned_up(&mut run, CliEvent::Failed("x".to_string())),
        "解析 SRT 文件失败"
    );

    let (mut run, _) = resume_cli_task(settings(), true);
    assert_eq!(failed(&mut run, CliEvent::Absent), "临时目录不存在: \"tmp/x\"");

    let mut run = at_work();
    done(&mut run);
    done(&mut run);
    done(&mut run);
    assert_eq!(
        failed_and_cleaned_up(&mut run, CliEvent::TimedOut),
        "合并音频超时（超过 30 分钟）"
    );

    let (mut run, _) = resume_cli_task(settings(), true);
    for _ in 0..6 {
        done(&mut run);
    }
    assert_eq!(run.state().stage, CliStage::Joining);
    assert!(matches!(run.step(CliEvent::TimedOut, ""), CliAction::Report));
    assert_eq!(failed(&mut run, CliEvent::Done), "合并音频超时");

    let (mut run, _) = resume_cli_task(settings(), true);
    for _ in 0..8 {
        done(&mut run);
    }
    assert_eq!(run.state().stage, CliStage::JoiningTimed);
    assert!(matches!(run.step(CliEvent::TimedOut, ""), CliAction::Report));
    assert_eq!(failed(&mut run, CliEvent::Done), "合并变速音频超时");
}
