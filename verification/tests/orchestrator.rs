use atem::crop::CropRegion;
use atem::ffmpeg::{convert_first, convert_out, OutFile};
use atem::orchestrator::{
    plan, step, Action, EncodeError, EncodeJob, EncodeRequest, Event, MediaProbe, State,
};
use atem::trim::TimeRange;

const MICRO: u64 = 1_000_000;

fn job(target_size: u64) -> EncodeJob {
    EncodeJob {
        request: EncodeRequest {
            input_path: "/data/clip.mkv".to_string(),
            target_size,
            time_range: TimeRange::new(Some(10 * MICRO), Some(30 * MICRO)),
            crop: Some(CropRegion::new(10 * MICRO, 10 * MICRO, 50 * MICRO, 50 * MICRO)),
        },
        output: OutFile::new("/v/clip-8m.mp4".to_string(), "/v".to_string()),
        passlog: "/tmp/pass".to_string(),
        sink: "/dev/null".to_string(),
    }
}

fn probe() -> MediaProbe {
    MediaProbe { duration: 100 * MICRO, audio_rate: 128 * MICRO }
}

fn exited(success: bool, output_bytes: Option<u64>) -> Event {
    Event::Exited { success, output_bytes }
}

fn in_analysis(job: &EncodeJob) -> State {
    step(job, State::Idle, Event::Probed(probe())).0
}

fn in_output(job: &EncodeJob) -> State {
    step(job, in_analysis(job), exited(true, None)).0
}

fn is_failed(state: &State, error: EncodeError) -> bool {
    matches!(state, State::Failed(e) if *e == error)
}

fn is_abort(action: &Action, error: EncodeError) -> bool {
    matches!(action, Action::Abort(e) if *e == error)
}

#[test]
fn plan_of_the_worked_example() {
    let job = job(20 * MICRO);
    let plan = plan(&job.request, probe(), "/v/clip-8m.mp4").unwrap();
    assert_eq!(plan.video_rate, 1_434_500_000);
    assert_eq!(plan.audio_rate, 128 * MICRO);
    assert_eq!(plan.output_path, "/v/clip-8m.mp4");
}

#[test]
fn no_plan_at_or_below_the_floor() {
    assert!(plan(&job(1_562_500).request, probe(), "out").is_none());
    assert!(plan(&job(1_000_000).request, probe(), "out").is_none());
    assert!(plan(&job(0).request, probe(), "out").is_none());
    assert!(plan(&job(1_562_501).request, probe(), "out").is_some());
}

#[test]
fn feasible_encode_runs_both_passes_and_finishes() {
    let job = job(20 * MICRO);
    assert_eq!(State::Idle.progress(), Some(0));

    let (state, action) = step(&job, State::Idle, Event::Probed(probe()));
    assert_eq!(state.progress(), Some(25));
    match &state {
        State::AnalysisPass(plan) => {
            assert_eq!(plan.video_rate, 1_434_500_000);
            assert_eq!(plan.audio_rate, 128 * MICRO);
            assert_eq!(plan.output_path, "/v/clip-8m.mp4");
        }
        _ => panic!("not in the analysis pass"),
    }
    match action {
        Action::RunAnalysis(args) => {
            assert_eq!(
                args,
                convert_first(
                    "/data/clip.mkv",
                    1_434_500_000,
                    Some(10 * MICRO),
                    Some(30 * MICRO),
                    "/tmp/pass",
                    "/dev/null"
                )
            );
            assert_eq!(&args[13..17], ["-b:v", "1434.5k", "-pass", "1"]);
        }
        _ => panic!("the analysis pass was not started"),
    }

    let (state, action) = step(&job, state, exited(true, None));
    assert_eq!(state.progress(), Some(50));
    assert!(matches!(&state, State::OutputPass(plan) if plan.video_rate == 1_434_500_000));
    match action {
        Action::RunOutput(args) => {
            assert_eq!(
                args,
                convert_out(
                    "/data/clip.mkv",
                    1_434_500_000,
                    128 * MICRO,
                    "/v/clip-8m.mp4",
                    Some(10 * MICRO),
                    Some(30 * MICRO),
                    job.request.crop,
                    "/tmp/pass"
                )
            );
            assert_eq!(&args[11..17], [
                "-filter:v",
                "crop=640:360:128:72,scale=1280:-2",
                "-b:v",
                "1434.5k",
                "-pass",
                "2"
            ]);
            assert_eq!(args.last().unwrap(), "/v/clip-8m.mp4");
        }
        _ => panic!("the output pass was not started"),
    }

    let (state, action) = step(&job, state, exited(true, Some(20_000_000)));
    assert!(matches!(state, State::Done));
    assert_eq!(state.progress(), Some(100));
    match action {
        Action::Finish(out) => {
            assert_eq!(out.full_path, "/v/clip-8m.mp4");
            assert_eq!(out.explorer_dir, "/v");
        }
        _ => panic!("the encode did not finish"),
    }
}

#[test]
fn target_below_the_floor_is_rejected_without_a_run() {
    let job = job(MICRO);
    let (mut state, action) = step(&job, State::Idle, Event::Probed(probe()));
    assert!(matches!(state, State::Rejected));
    assert!(matches!(action, Action::Reject));
    assert_eq!(state.progress(), None);
    for event in [
        Event::Probed(probe()),
        exited(true, Some(5)),
        Event::LaunchFailed,
        exited(false, None),
        Event::ProbeFailed,
    ] {
        let (next, action) = step(&job, state, event);
        assert!(matches!(next, State::Rejected));
        assert!(matches!(action, Action::Nothing));
        state = next;
    }
}

#[test]
fn target_at_the_floor_is_rejected() {
    let (state, action) = step(&job(1_562_500), State::Idle, Event::Probed(probe()));
    assert!(matches!(state, State::Rejected));
    assert!(matches!(action, Action::Reject));
}

#[test]
fn failed_probe_fails_the_encode() {
    let (state, action) = step(&job(20 * MICRO), State::Idle, Event::ProbeFailed);
    assert!(is_failed(&state, EncodeError::ProbeFailure));
    assert!(is_abort(&action, EncodeError::ProbeFailure));
    assert_eq!(state.progress(), None);
}

#[test]
fn probe_without_a_duration_fails_the_encode() {
    let probe = MediaProbe { duration: 0, audio_rate: 128 * MICRO };
    let (state, action) = step(&job(20 * MICRO), State::Idle, Event::Probed(probe));
    assert!(is_failed(&state, EncodeError::ProbeFailure));
    assert!(is_abort(&action, EncodeError::ProbeFailure));
}

#[test]
fn launch_failure_fails_either_pass() {
    let job = job(20 * MICRO);
    let (state, action) = step(&job, in_analysis(&job), Event::LaunchFailed);
    assert!(is_failed(&state, EncodeError::ProcessLaunchFailure));
    assert!(is_abort(&action, EncodeError::ProcessLaunchFailure));
    let (state, action) = step(&job, in_output(&job), Event::LaunchFailed);
    assert!(is_failed(&state, EncodeError::ProcessLaunchFailure));
    assert!(is_abort(&action, EncodeError::ProcessLaunchFailure));
}

#[test]
fn encoder_failure_fails_either_pass() {
    let job = job(20 * MICRO);
    let (state, action) = step(&job, in_analysis(&job), exited(false, None));
    assert!(is_failed(&state, EncodeError::ProcessFailure));
    assert!(is_abort(&action, EncodeError::ProcessFailure));
    let (state, action) = step(&job, in_output(&job), exited(false, Some(1_000)));
    assert!(is_failed(&state, EncodeError::ProcessFailure));
    assert!(is_abort(&action, EncodeError::ProcessFailure));
}

#[test]
fn missing_or_empty_output_fails_the_encode() {
    let job = job(20 * MICRO);
    for bytes in [None, Some(0)] {
        let (state, action) = step(&job, in_output(&job), exited(true, bytes));
        assert!(is_failed(&state, EncodeError::EncodeVerificationFailure));
        assert!(is_abort(&action, EncodeError::EncodeVerificationFailure));
    }
    let (state, _) = step(&job, in_output(&job), exited(true, Some(1)));
    assert!(matches!(state, State::Done));
}

#[test]
fn events_of_another_stage_change_nothing() {
    let job = job(20 * MICRO);
    let (state, action) = step(&job, State::Idle, exited(true, Some(1)));
    assert!(matches!(state, State::Idle));
    assert!(matches!(action, Action::Nothing));
    let (state, action) = step(&job, State::Idle, Event::LaunchFailed);
    assert!(matches!(state, State::Idle));
    assert!(matches!(action, Action::Nothing));
    let (state, action) = step(&job, in_analysis(&job), Event::Probed(probe()));
    assert!(matches!(state, State::AnalysisPass(_)));
    assert!(matches!(action, Action::Nothing));
    let (state, action) = step(&job, in_output(&job), Event::ProbeFailed);
    assert!(matches!(state, State::OutputPass(_)));
    assert!(matches!(action, Action::Nothing));
}

#[test]
fn ended_encode_stays_as_it_is() {
    let job = job(20 * MICRO);
    let done = step(&job, in_output(&job), exited(true, Some(1))).0;
    let (state, action) = step(&job, done, exited(true, Some(1)));
    assert!(matches!(state, State::Done));
    assert!(matches!(action, Action::Nothing));
    let failed = State::Failed(EncodeError::ProcessFailure);
    let (state, action) = step(&job, failed, Event::Probed(probe()));
    assert!(is_failed(&state, EncodeError::ProcessFailure));
    assert!(matches!(action, Action::Nothing));
}

#[test]
fn encoder_is_started_at_most_twice() {
    let job = job(20 * MICRO);
    let events = [
        exited(true, Some(1)),
        Event::Probed(probe()),
        Event::Probed(probe()),
        exited(true, None),
        Event::Probed(probe()),
        exited(true, Some(9)),
        exited(true, Some(9)),
        Event::Probed(probe()),
        exited(true, Some(9)),
    ];
    let mut state = State::Idle;
    let mut starts = 0;
    for event in events {
        let (next, action) = step(&job, state, event);
        if matches!(action, Action::RunAnalysis(_) | Action::RunOutput(_)) {
            starts += 1;
        }
        state = next;
    }
    assert_eq!(starts, 2);
    assert!(matches!(state, State::Done));
}

#[test]
fn source_without_audio_is_planned_with_a_copy() {
    let job = job(20 * MICRO);
    let probe = MediaProbe { duration: 100 * MICRO, audio_rate: 0 };
    let (state, _) = step(&job, State::Idle, Event::Probed(probe));
    let (_, action) = step(&job, state, exited(true, None));
    match action {
        Action::RunOutput(args) => {
            assert_eq!(&args[13..19], ["-b:v", "1562.5k", "-pass", "2", "-c:a", "copy"]);
        }
        _ => panic!("the output pass was not started"),
    }
}

#[test]
fn every_failure_has_its_message() {
    assert_eq!(
        EncodeError::ProbeFailure.message(),
        "the duration or audio bitrate of the input could not be determined"
    );
    assert_eq!(EncodeError::ProcessLaunchFailure.message(), "the encoder could not be started");
    assert_eq!(EncodeError::ProcessFailure.message(), "the encoder reported a failure");
    assert_eq!(
        EncodeError::EncodeVerificationFailure.message(),
        "the encoder left no output, or an empty one"
    );
}
