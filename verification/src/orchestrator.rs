//! The course of one encode: probe, analysis pass, output pass, and a look at what was
//! written.
//!
//! The caller does what cannot be done here (runs the prober and the encoder, looks at the
//! output file) and reports each outcome as an event; `step` decides what comes next.

use vstd::prelude::*;
use crate::crop::CropRegion;
use crate::ffmpeg::{
    convert_first, convert_out, first_pass_args, get_target_size, get_target_video_rate,
    is_feasible, is_minsize, minimum_size, output_pass_args, video_rate, OutFile, OutFileView,
};
use crate::trim::TimeRange;

verus! {

/// What the user asks for: the input, the size to shrink it to in millionths of a mebibyte,
/// the part to keep and the region to crop to.
#[derive(Debug)]
pub struct EncodeRequest {
    pub input_path: String,
    pub target_size: u64,
    pub time_range: TimeRange,
    pub crop: Option<CropRegion>,
}

/// An `EncodeRequest` as plain values.
pub struct EncodeRequestView {
    pub input_path: Seq<char>,
    pub target_size: u64,
    pub time_range: TimeRange,
    pub crop: Option<CropRegion>,
}

impl View for EncodeRequest {
    type V = EncodeRequestView;

    open spec fn view(&self) -> EncodeRequestView {
        EncodeRequestView {
            input_path: self.input_path@,
            target_size: self.target_size,
            time_range: self.time_range,
            crop: self.crop,
        }
    }
}

/// What the prober found: the duration in millionths of a second and the audio bitrate in
/// millionths of a kibibit per second, zero where the source has no usable one.
#[derive(Clone, Copy, Debug)]
pub struct MediaProbe {
    pub duration: u64,
    pub audio_rate: u64,
}

/// The bitrates that meet the request, in millionths of a kibibit per second, and where the
/// output goes.
#[derive(Debug)]
pub struct EncodePlan {
    pub video_rate: i128,
    pub audio_rate: u64,
    pub output_path: String,
}

/// An `EncodePlan` as plain values.
pub struct EncodePlanView {
    pub video_rate: i128,
    pub audio_rate: u64,
    pub output_path: Seq<char>,
}

impl View for EncodePlan {
    type V = EncodePlanView;

    open spec fn view(&self) -> EncodePlanView {
        EncodePlanView {
            video_rate: self.video_rate,
            audio_rate: self.audio_rate,
            output_path: self.output_path@,
        }
    }
}

/// One encode: the request and the places it works with. The pass log must be this
/// encode's alone for as long as it runs.
#[derive(Debug)]
pub struct EncodeJob {
    pub request: EncodeRequest,
    pub output: OutFile,
    pub passlog: String,
    pub sink: String,
}

/// An `EncodeJob` as plain values.
pub struct EncodeJobView {
    pub request: EncodeRequestView,
    pub output: OutFileView,
    pub passlog: Seq<char>,
    pub sink: Seq<char>,
}

impl View for EncodeJob {
    type V = EncodeJobView;

    open spec fn view(&self) -> EncodeJobView {
        EncodeJobView {
            request: self.request@,
            output: self.output@,
            passlog: self.passlog@,
            sink: self.sink@,
        }
    }
}

/// Why an encode failed.
#[derive(Clone, Copy, Debug, PartialEq, Eq, Structural)]
pub enum EncodeError {
    /// The prober gave no usable duration or audio bitrate.
    ProbeFailure,
    /// The encoder could not be started.
    ProcessLaunchFailure,
    /// The encoder ran and reported failure.
    ProcessFailure,
    /// The encoder reported success, but the output is missing or empty.
    EncodeVerificationFailure,
}

/// What the user is told of a failure.
pub open spec fn message_of(error: EncodeError) -> Seq<char> {
    match error {
        EncodeError::ProbeFailure => "the duration or audio bitrate of the input could not be determined"@,
        EncodeError::ProcessLaunchFailure => "the encoder could not be started"@,
        EncodeError::ProcessFailure => "the encoder reported a failure"@,
        EncodeError::EncodeVerificationFailure => "the encoder left no output, or an empty one"@,
    }
}

impl EncodeError {
    /// What to tell the user of this failure.
    pub fn message(&self) -> (text: &'static str)
        ensures
            text@ == message_of(*self),
    {
        match self {
            EncodeError::ProbeFailure => "the duration or audio bitrate of the input could not be determined",
            EncodeError::ProcessLaunchFailure => "the encoder could not be started",
            EncodeError::ProcessFailure => "the encoder reported a failure",
            EncodeError::EncodeVerificationFailure => "the encoder left no output, or an empty one",
        }
    }
}

/// Where an encode stands.
#[derive(Debug)]
pub enum State {
    /// Nothing has run; the prober's answer is awaited.
    Idle,
    /// The analysis pass runs.
    AnalysisPass(EncodePlan),
    /// The output pass runs.
    OutputPass(EncodePlan),
    /// The output is written.
    Done,
    /// The target size leaves no room for video; nothing was run.
    Rejected,
    /// The encode was given up.
    Failed(EncodeError),
}

/// A `State` as plain values.
pub enum StateView {
    Idle,
    AnalysisPass(EncodePlanView),
    OutputPass(EncodePlanView),
    Done,
    Rejected,
    Failed(EncodeError),
}

impl View for State {
    type V = StateView;

    open spec fn view(&self) -> StateView {
        match self {
            State::Idle => StateView::Idle,
            State::AnalysisPass(plan) => StateView::AnalysisPass(plan@),
            State::OutputPass(plan) => StateView::OutputPass(plan@),
            State::Done => StateView::Done,
            State::Rejected => StateView::Rejected,
            State::Failed(error) => StateView::Failed(*error),
        }
    }
}

/// What the caller saw happen.
#[derive(Clone, Copy, Debug)]
pub enum Event {
    /// The prober answered.
    Probed(MediaProbe),
    /// The prober could not be run, or its answer could not be read.
    ProbeFailed,
    /// The encoder could not be started.
    LaunchFailed,
    /// The encoder ran to its end. `output_bytes` is the size of the output file as it is
    /// now, or nothing if there is no such file.
    Exited { success: bool, output_bytes: Option<u64> },
}

/// What the caller is to do next.
#[derive(Debug)]
pub enum Action {
    /// Nothing: the event changes nothing at this stage.
    Nothing,
    /// Run the encoder with these arguments, as the analysis pass.
    RunAnalysis(Vec<String>),
    /// See that the output's directory exists, then run the encoder with these arguments, as
    /// the output pass.
    RunOutput(Vec<String>),
    /// Hand the output to the user.
    Finish(OutFile),
    /// Hand the user the empty result: a larger target is needed.
    Reject,
    /// Tell the user that the encode failed.
    Abort(EncodeError),
}

/// An `Action` as plain values.
pub enum ActionView {
    Nothing,
    RunAnalysis(Seq<Seq<char>>),
    RunOutput(Seq<Seq<char>>),
    Finish(OutFileView),
    Reject,
    Abort(EncodeError),
}

impl View for Action {
    type V = ActionView;

    open spec fn view(&self) -> ActionView {
        match self {
            Action::Nothing => ActionView::Nothing,
            Action::RunAnalysis(args) => ActionView::RunAnalysis(args.deep_view()),
            Action::RunOutput(args) => ActionView::RunOutput(args.deep_view()),
            Action::Finish(out) => ActionView::Finish(out@),
            Action::Reject => ActionView::Reject,
            Action::Abort(error) => ActionView::Abort(*error),
        }
    }
}

/// The plan that meets a target, where there is one: a target at or below the size that the
/// audio alone takes has none.
pub open spec fn plan_of(target_size: u64, probe: MediaProbe, output_path: Seq<char>) -> Option<
    EncodePlanView,
>
    recommends
        probe.duration > 0,
{
    if is_feasible(
        minimum_size(probe.audio_rate as int, probe.duration as int),
        target_size as int,
    ) {
        Some(
            EncodePlanView {
                video_rate: video_rate(
                    target_size as int,
                    probe.duration as int,
                    probe.audio_rate as int,
                ) as i128,
                audio_rate: probe.audio_rate,
                output_path,
            },
        )
    } else {
        None
    }
}

/// The arguments of the analysis pass of a job under a plan.
pub open spec fn analysis_args(job: EncodeJobView, plan: EncodePlanView) -> Seq<Seq<char>> {
    first_pass_args(
        job.request.input_path,
        plan.video_rate as int,
        job.request.time_range,
        job.passlog,
        job.sink,
    )
}

/// The arguments of the output pass of a job under a plan.
pub open spec fn output_args(job: EncodeJobView, plan: EncodePlanView) -> Seq<Seq<char>> {
    output_pass_args(
        job.request.input_path,
        plan.video_rate as int,
        plan.audio_rate as int,
        plan.output_path,
        job.request.time_range,
        job.request.crop,
        job.passlog,
    )
}

/// Whether the output pass left a usable file: the encoder reported success and the file is
/// there and not empty.
pub open spec fn output_written(success: bool, output_bytes: Option<u64>) -> bool {
    success && output_bytes is Some && output_bytes->0 > 0
}

/// The state that follows `state` on `event`.
pub open spec fn next_state(job: EncodeJobView, state: StateView, event: Event) -> StateView {
    match (state, event) {
        (StateView::Idle, Event::ProbeFailed) => StateView::Failed(EncodeError::ProbeFailure),
        (StateView::Idle, Event::Probed(probe)) => if probe.duration == 0 {
            StateView::Failed(EncodeError::ProbeFailure)
        } else {
            match plan_of(job.request.target_size, probe, job.output.full_path) {
                Some(plan) => StateView::AnalysisPass(plan),
                None => StateView::Rejected,
            }
        },
        (StateView::AnalysisPass(_), Event::LaunchFailed) => StateView::Failed(
            EncodeError::ProcessLaunchFailure,
        ),
        (StateView::AnalysisPass(plan), Event::Exited { success, .. }) => if success {
            StateView::OutputPass(plan)
        } else {
            StateView::Failed(EncodeError::ProcessFailure)
        },
        (StateView::OutputPass(_), Event::LaunchFailed) => StateView::Failed(
            EncodeError::ProcessLaunchFailure,
        ),
        (StateView::OutputPass(_), Event::Exited { success, output_bytes }) => if !success {
            StateView::Failed(EncodeError::ProcessFailure)
        } else if output_written(success, output_bytes) {
            StateView::Done
        } else {
            StateView::Failed(EncodeError::EncodeVerificationFailure)
        },
        _ => state,
    }
}

/// What the caller is told on reaching `next` from `state`.
pub open spec fn action_of(job: EncodeJobView, state: StateView, next: StateView) -> ActionView {
    match (state, next) {
        (StateView::Idle, StateView::AnalysisPass(plan)) => ActionView::RunAnalysis(
            analysis_args(job, plan),
        ),
        (StateView::Idle, StateView::Rejected) => ActionView::Reject,
        (StateView::AnalysisPass(_), StateView::OutputPass(plan)) => ActionView::RunOutput(
            output_args(job, plan),
        ),
        (StateView::OutputPass(_), StateView::Done) => ActionView::Finish(job.output),
        (StateView::Idle, StateView::Failed(error)) => ActionView::Abort(error),
        (StateView::AnalysisPass(_), StateView::Failed(error)) => ActionView::Abort(error),
        (StateView::OutputPass(_), StateView::Failed(error)) => ActionView::Abort(error),
        _ => ActionView::Nothing,
    }
}

/// The milestone, in percent, that the user is shown on entering a state; none where the
/// encode ends without an output.
pub open spec fn progress_of(state: StateView) -> Option<u8> {
    match state {
        StateView::Idle => Some(0u8),
        StateView::AnalysisPass(_) => Some(25u8),
        StateView::OutputPass(_) => Some(50u8),
        StateView::Done => Some(100u8),
        StateView::Rejected => None,
        StateView::Failed(_) => None,
    }
}

/// An optional plan as plain values.
pub open spec fn plan_view(plan: Option<EncodePlan>) -> Option<EncodePlanView> {
    match plan {
        Some(plan) => Some(plan@),
        None => None,
    }
}

/// Works out the bitrates that meet the request's target for a probed source.
pub fn plan(request: &EncodeRequest, probe: MediaProbe, output_path: &str) -> (plan: Option<
    EncodePlan,
>)
    requires
        probe.duration > 0,
    ensures
        plan_view(plan) == plan_of(request.target_size, probe, output_path@),
{
    let floor = get_target_size(probe.audio_rate, probe.duration);
    if is_minsize(floor, request.target_size as u128) {
        Some(
            EncodePlan {
                video_rate: get_target_video_rate(
                    request.target_size,
                    probe.duration,
                    probe.audio_rate,
                ),
                audio_rate: probe.audio_rate,
                output_path: output_path.to_owned(),
            },
        )
    } else {
        None
    }
}

impl State {
    /// The milestone to show on entering this state.
    pub fn progress(&self) -> (percent: Option<u8>)
        ensures
            percent == progress_of(self@),
    {
        match self {
            State::Idle => Some(0),
            State::AnalysisPass(_) => Some(25),
            State::OutputPass(_) => Some(50),
            State::Done => Some(100),
            State::Rejected => None,
            State::Failed(_) => None,
        }
    }
}

fn fail(error: EncodeError) -> (next: (State, Action))
    ensures
        next.0@ == StateView::Failed(error),
        next.1@ == ActionView::Abort(error),
{
    (State::Failed(error), Action::Abort(error))
}

/// Takes an encode one event further: the state that follows, and what the caller is to do.
pub fn step(job: &EncodeJob, state: State, event: Event) -> (next: (State, Action))
    ensures
        next.0@ == next_state(job@, state@, event),
        next.1@ == action_of(job@, state@, next.0@),
{
    let range = job.request.time_range;
    match state {
        State::Idle => match event {
            Event::ProbeFailed => fail(EncodeError::ProbeFailure),
            Event::Probed(probe) => {
                if probe.duration == 0 {
                    return fail(EncodeError::ProbeFailure);
                }
                match plan(&job.request, probe, job.output.full_path.as_str()) {
                    Some(plan) => {
                        let args = convert_first(
                            job.request.input_path.as_str(),
                            plan.video_rate,
                            range.start,
                            range.end,
                            job.passlog.as_str(),
                            job.sink.as_str(),
                        );
                        (State::AnalysisPass(plan), Action::RunAnalysis(args))
                    },
                    None => (State::Rejected, Action::Reject),
                }
            },
            _ => (State::Idle, Action::Nothing),
        },
        State::AnalysisPass(plan) => match event {
            Event::LaunchFailed => fail(EncodeError::ProcessLaunchFailure),
            Event::Exited { success, output_bytes: _ } => {
                if !success {
                    return fail(EncodeError::ProcessFailure);
                }
                let args = convert_out(
                    job.request.input_path.as_str(),
                    plan.video_rate,
                    plan.audio_rate,
                    plan.output_path.as_str(),
                    range.start,
                    range.end,
                    job.request.crop,
                    job.passlog.as_str(),
                );
                (State::OutputPass(plan), Action::RunOutput(args))
            },
            _ => (State::AnalysisPass(plan), Action::Nothing),
        },
        State::OutputPass(plan) => match event {
            Event::LaunchFailed => fail(EncodeError::ProcessLaunchFailure),
            Event::Exited { success, output_bytes } => {
                if !success {
                    return fail(EncodeError::ProcessFailure);
                }
                match output_bytes {
                    Some(bytes) => if bytes > 0 {
                        let out = OutFile::new(
                            job.output.full_path.clone(),
                            job.output.explorer_dir.clone(),
                        );
                        (State::Done, Action::Finish(out))
                    } else {
                        fail(EncodeError::EncodeVerificationFailure)
                    },
                    None => fail(EncodeError::EncodeVerificationFailure),
                }
            },
            _ => (State::OutputPass(plan), Action::Nothing),
        },
        State::Done => (State::Done, Action::Nothing),
        State::Rejected => (State::Rejected, Action::Nothing),
        State::Failed(error) => (State::Failed(error), Action::Nothing),
    }
}

/// How far an encode has come: no state is ever followed by one of a lower rank.
pub open spec fn rank(state: StateView) -> nat {
    match state {
        StateView::Idle => 0,
        StateView::AnalysisPass(_) => 1,
        StateView::OutputPass(_) => 2,
        _ => 3,
    }
}

/// Whether an action starts the encoder.
pub open spec fn starts_encoder(action: ActionView) -> bool {
    action is RunAnalysis || action is RunOutput
}

/// How often the encoder is started while the caller reports `events`, one after another,
/// to an encode that stands at `state`.
pub open spec fn encoder_starts(job: EncodeJobView, state: StateView, events: Seq<Event>) -> nat
    decreases events.len(),
{
    if events.len() == 0 {
        0
    } else {
        let next = next_state(job, state, events[0]);
        let started: nat = if starts_encoder(action_of(job, state, next)) {
            1
        } else {
            0
        };
        started + encoder_starts(job, next, events.drop_first())
    }
}

/// An encode never goes back: an event leaves the state as it is or moves it to a later
/// one, and nothing follows a state in which the encode has ended.
pub proof fn lemma_states_only_advance(job: EncodeJobView, state: StateView, event: Event)
    ensures
        rank(state) <= rank(next_state(job, state, event)),
        rank(state) == rank(next_state(job, state, event)) ==> next_state(job, state, event)
            == state,
        rank(state) < 3 ==> rank(next_state(job, state, event)) == rank(state) + 1 || rank(
            next_state(job, state, event),
        ) == 3 || next_state(job, state, event) == state,
{
}

/// The output pass is started only from the analysis pass, with the plan that the analysis
/// pass ran under, and the analysis pass only from the idle state.
pub proof fn lemma_passes_in_order(job: EncodeJobView, state: StateView, event: Event)
    ensures
        action_of(job, state, next_state(job, state, event)) is RunAnalysis ==> state is Idle,
        action_of(job, state, next_state(job, state, event)) is RunOutput ==> (state
            matches StateView::AnalysisPass(plan) && next_state(job, state, event)
            == StateView::OutputPass(plan) && action_of(
            job,
            state,
            next_state(job, state, event),
        ) == ActionView::RunOutput(output_args(job, plan))),
{
}

/// An encode is done only when the output pass reported success and left a file that is
/// not empty.
pub proof fn lemma_done_means_written(job: EncodeJobView, state: StateView, event: Event)
    requires
        !(state is Done),
        next_state(job, state, event) is Done,
    ensures
        state is OutputPass,
        event matches Event::Exited { success, output_bytes } && output_written(
            success,
            output_bytes,
        ),
{
}

/// Whatever the caller reports, the encoder is started at most as often as there are passes
/// still to run.
pub proof fn lemma_encoder_starts_bounded(job: EncodeJobView, state: StateView, events: Seq<Event>)
    ensures
        encoder_starts(job, state, events) <= 2,
        rank(state) == 1 ==> encoder_starts(job, state, events) <= 1,
        rank(state) >= 2 ==> encoder_starts(job, state, events) == 0,
    decreases events.len(),
{
    if events.len() > 0 {
        lemma_encoder_starts_bounded(
            job,
            next_state(job, state, events[0]),
            events.drop_first(),
        );
    }
}

/// A target that the probed source cannot meet is rejected at once, and the encoder is not
/// started then or later, whatever is reported afterwards.
pub proof fn lemma_infeasible_target_starts_nothing(
    job: EncodeJobView,
    probe: MediaProbe,
    later: Seq<Event>,
)
    requires
        probe.duration > 0,
        !is_feasible(
            minimum_size(probe.audio_rate as int, probe.duration as int),
            job.request.target_size as int,
        ),
    ensures
        next_state(job, StateView::Idle, Event::Probed(probe)) == StateView::Rejected,
        action_of(job, StateView::Idle, StateView::Rejected) == ActionView::Reject,
        encoder_starts(job, StateView::Idle, seq![Event::Probed(probe)] + later) == 0,
{
    let events = seq![Event::Probed(probe)] + later;
    assert(events[0] == Event::Probed(probe));
    assert(events.drop_first() =~= later);
    lemma_encoder_starts_bounded(job, StateView::Rejected, later);
}

/// A feasible target on a probed source, an analysis pass and an output pass that succeed,
/// and an output that is there: the encoder is started twice, first for the analysis and
/// then for the output, both times at the planned video bitrate, and the encode is done.
pub proof fn lemma_successful_encode(job: EncodeJobView, probe: MediaProbe, output_bytes: u64)
    requires
        probe.duration > 0,
        is_feasible(
            minimum_size(probe.audio_rate as int, probe.duration as int),
            job.request.target_size as int,
        ),
        output_bytes > 0,
    ensures
        ({
            let plan = plan_of(job.request.target_size, probe, job.output.full_path)->0;
            let exited = Event::Exited { success: true, output_bytes: Some(output_bytes) };
            let first = next_state(job, StateView::Idle, Event::Probed(probe));
            let second = next_state(job, first, exited);
            let third = next_state(job, second, exited);
            &&& first == StateView::AnalysisPass(plan)
            &&& action_of(job, StateView::Idle, first) == ActionView::RunAnalysis(
                analysis_args(job, plan),
            )
            &&& second == StateView::OutputPass(plan)
            &&& action_of(job, first, second) == ActionView::RunOutput(output_args(job, plan))
            &&& third == StateView::Done
            &&& action_of(job, second, third) == ActionView::Finish(job.output)
        }),
{
}

} // verus!
