//! Whole sequences. A sequence is what one request sets off: the calls on
//! the controller from `connect` or `disconnect` to the step that ends it,
//! each call answering the step before. This module says what a sequence
//! comes to when it runs undisturbed, whatever the outside world answers,
//! and proves what holds of every such run.

use crate::controller::{
    CompletionModel, ControllerModel, GoalModel, Phase, ProbeModel, StepModel, GRACE_SECONDS,
};
use crate::invocation::invocation_for;
use crate::relay::{helper_for, secret_variable_text};
use crate::handle::HandleModel;
use crate::request::{checked, FormModel, RequestModel, ValidationError};
use crate::text::trimmed;
use crate::status::{
    connecting_text, disconnected_text, failure_text, outcome_text, FailureModel, OutcomeModel,
    ReporterModel,
};
use vstd::prelude::*;

verus! {

/// What is seen of a started process once the grace period is over.
pub enum Sighting {
    Exited(Seq<char>),
    Running,
    Unknown,
}

/// What the outside world answers to the work that one sequence asks for:
/// where the helper was written, if it was; the process that was started,
/// or the error; and what was seen of it after the grace period.
pub struct Answers<P> {
    pub created: Option<Seq<char>>,
    pub spawned: Result<P, Seq<char>>,
    pub seen: Sighting,
}

/// A sequence that ran to its end: the steps that were asked for, in order,
/// the controller as it was when each of them was handed out, how the
/// sequence ended, and the controller it left behind.
pub struct Run<P> {
    pub steps: Seq<StepModel<P>>,
    pub states: Seq<ControllerModel<P>>,
    pub completion: CompletionModel,
    pub end: ControllerModel<P>,
}

/// What is reported of `process` where `seen` is what was seen of it.
pub open spec fn found<P>(seen: Sighting, process: P) -> ProbeModel<P> {
    match seen {
        Sighting::Exited(status) => ProbeModel::Exited(status),
        Sighting::Running => ProbeModel::Running(process),
        Sighting::Unknown => ProbeModel::Unknown(process),
    }
}

impl GoalModel {
    /// How far a cleanup with this goal is from the end of its sequence.
    pub open spec fn distance(self) -> nat {
        match self {
            GoalModel::Launch(_) => 6,
            _ => 1,
        }
    }
}

impl<P> StepModel<P> {
    /// An upper bound on the number of steps that can still follow this one.
    pub open spec fn distance(self) -> nat {
        match self {
            StepModel::Finished(_) => 0,
            StepModel::EraseHelper { goal, .. } => goal.distance(),
            StepModel::StopProcess { goal, .. } => goal.distance() + 1,
            StepModel::Probe { .. } => 3,
            StepModel::Spawn { .. } => 4,
            StepModel::CreateHelper { .. } => 5,
        }
    }
}

impl<P> ControllerModel<P> {
    /// The call that answers `step`, with the outside world's answer.
    pub open spec fn answer(self, step: StepModel<P>, answers: Answers<P>) -> (
        ControllerModel<P>,
        StepModel<P>,
    ) {
        match step {
            StepModel::StopProcess { goal, .. } => self.process_stopped(goal),
            StepModel::EraseHelper { goal, .. } => self.helper_erased(goal),
            StepModel::CreateHelper { request, .. } => self.helper_created(
                request,
                answers.created,
            ),
            StepModel::Spawn { display_name, .. } => self.spawn_finished(
                display_name,
                answers.spawned,
            ),
            StepModel::Probe { process, display_name, .. } => self.probe_finished(
                display_name,
                found(answers.seen, process),
            ),
            StepModel::Finished(_) => (self, step),
        }
    }

    /// The run that starts with `step` and goes on undisturbed to its end.
    pub open spec fn run(self, step: StepModel<P>, answers: Answers<P>) -> Run<P>
        decreases step.distance(),
    {
        match step {
            StepModel::Finished(completion) => Run {
                steps: Seq::empty(),
                states: Seq::empty(),
                completion,
                end: self,
            },
            _ => {
                let next = self.answer(step, answers);
                let rest = next.0.run(next.1, answers);
                Run { steps: seq![step] + rest.steps, states: seq![self] + rest.states, ..rest }
            },
        }
    }

    /// The undisturbed run of a request to connect.
    pub open spec fn connect_run(
        self,
        form: FormModel,
        answers: Answers<P>,
    ) -> Run<P> {
        let first = self.connect(form);
        first.0.run(first.1, answers)
    }

    /// The undisturbed run of a request to disconnect.
    pub open spec fn disconnect_run(self, answers: Answers<P>) -> Run<P> {
        let first = self.disconnect();
        first.0.run(first.1, answers)
    }
}

/// The steps of an undisturbed cleanup: the process is stopped first, if
/// one is held, and the helper erased after it, if one is held.
pub open spec fn cleanup_steps<P>(c: ControllerModel<P>, goal: GoalModel) -> Seq<StepModel<P>> {
    let stop = match c.handle.process {
        Some(process) => seq![StepModel::StopProcess { process, goal }],
        None => Seq::empty(),
    };
    let erase = match c.handle.helper_path {
        Some(path) => seq![StepModel::EraseHelper { path, goal }],
        None => Seq::empty(),
    };
    stop + erase
}

/// How an attempt for `request` ends, once its form has passed the checks:
/// in the first failure that the answers hold, or with the tunnel up.
pub open spec fn attempt_outcome<P>(request: RequestModel, answers: Answers<P>) -> OutcomeModel {
    if request.password is Some && answers.created is None {
        OutcomeModel::Failed(FailureModel::HelperCreation)
    } else {
        match (answers.spawned, answers.seen) {
            (Err(error), _) => OutcomeModel::Failed(FailureModel::Spawn(error)),
            (Ok(_), Sighting::Exited(status)) => OutcomeModel::Failed(
                FailureModel::EarlyExit(status),
            ),
            (Ok(_), _) => OutcomeModel::Connected(request.display_name()),
        }
    }
}

/// The helper path that an attempt for `request` puts in the handle: the
/// one that was written, where the request has a password.
pub open spec fn helper_in_use<P>(request: RequestModel, answers: Answers<P>) -> Option<
    Seq<char>,
> {
    if request.password is Some {
        answers.created
    } else {
        None
    }
}

/// The steps of an attempt for `request` after its opening cleanup: the
/// helper where there is a password; the tunnel tool if the helper was
/// written or none was needed; the look at the process if it started; and,
/// after a failure to start or an early end, the erasing of the helper if
/// one was written.
pub open spec fn attempt_steps<P>(
    c: ControllerModel<P>,
    request: RequestModel,
    answers: Answers<P>,
) -> Seq<StepModel<P>> {
    let create: Seq<StepModel<P>> = if request.password is Some {
        seq![
            StepModel::CreateHelper {
                helper: helper_for(secret_variable_text(), c.instance),
                request,
            },
        ]
    } else {
        Seq::empty()
    };
    let outcome = attempt_outcome(request, answers);
    if outcome == OutcomeModel::Failed(FailureModel::HelperCreation) {
        create
    } else {
        let spawn = seq![
            StepModel::Spawn {
                invocation: invocation_for(request, helper_in_use(request, answers)),
                display_name: request.display_name(),
            },
        ];
        let probe: Seq<StepModel<P>> = match answers.spawned {
            Ok(process) => seq![
                StepModel::Probe {
                    process,
                    grace_seconds: GRACE_SECONDS,
                    display_name: request.display_name(),
                },
            ],
            Err(_) => Seq::empty(),
        };
        let erase: Seq<StepModel<P>> = match (outcome, helper_in_use(request, answers)) {
            (OutcomeModel::Failed(reason), Some(path)) => seq![
                StepModel::EraseHelper { path, goal: GoalModel::Fail(reason) },
            ],
            _ => Seq::empty(),
        };
        create + spawn + probe + erase
    }
}

/// The controller that an attempt for `request` leaves behind, when it ran
/// undisturbed on controller `c` with the flag down. With the tunnel up it
/// holds the process and the helper in use, and the flag is up. After a
/// failure it holds nothing and the flag is down. The status line tells of
/// the outcome in both cases.
pub open spec fn attempt_end<P>(
    c: ControllerModel<P>,
    request: RequestModel,
    answers: Answers<P>,
) -> ControllerModel<P> {
    let outcome = attempt_outcome(request, answers);
    ControllerModel {
        handle: match (outcome, answers.spawned) {
            (OutcomeModel::Connected(_), Ok(process)) => HandleModel {
                process: Some(process),
                helper_path: helper_in_use(request, answers),
            },
            _ => HandleModel::empty(),
        },
        reporter: ReporterModel { text: outcome_text(outcome), connected: outcome is Connected },
        instance: c.instance,
    }
}

/// Every call brings its sequence nearer to its end, so every sequence
/// ends: no answer of the outside world can keep one going.
pub proof fn lemma_answer_comes_nearer<P>(
    c: ControllerModel<P>,
    step: StepModel<P>,
    answers: Answers<P>,
)
    requires
        !(step is Finished),
    ensures
        c.answer(step, answers).1.distance() < step.distance(),
{
}

/// An undisturbed cleanup for a disconnect or after a failure asks for
/// exactly the steps of `cleanup_steps` and leaves the handle empty. A
/// disconnect lowers the flag and says so; a failure leaves the front end
/// as it was.
pub proof fn lemma_cleanup_run<P>(c: ControllerModel<P>, goal: GoalModel, answers: Answers<P>)
    requires
        !(goal is Launch),
    ensures
        ({
            let first = c.cleanup(goal);
            let run = first.0.run(first.1, answers);
            &&& run.steps == cleanup_steps(c, goal)
            &&& run.end.handle == HandleModel::<P>::empty()
            &&& run.end.instance == c.instance
            &&& goal is Disconnect ==> {
                &&& run.completion == CompletionModel::Disconnected
                &&& run.end.reporter == c.reporter.with_connected(false).with_text(
                    disconnected_text(),
                )
            }
            &&& goal matches GoalModel::Fail(reason) ==> {
                &&& run.completion == CompletionModel::Connect(OutcomeModel::Failed(reason))
                &&& run.end.reporter == c.reporter
            }
        }),
{
    reveal_with_fuel(ControllerModel::run, 4);
    let first = c.cleanup(goal);
    let run = first.0.run(first.1, answers);
    assert(run.steps =~= cleanup_steps(c, goal));
}

/// Disconnecting always ends in the idle state, whatever was held: what
/// was held is stopped and erased, in that order, the flag is down and the
/// status line says so.
pub proof fn lemma_disconnect_run<P>(c: ControllerModel<P>, answers: Answers<P>)
    ensures
        ({
            let run = c.disconnect_run(answers);
            &&& run.steps == cleanup_steps(c, GoalModel::Disconnect)
            &&& run.completion == CompletionModel::Disconnected
            &&& run.end.idle()
            &&& run.end.reporter.text == disconnected_text()
        }),
{
    lemma_cleanup_run(c, GoalModel::Disconnect, answers);
}

/// Disconnecting when nothing is held asks for no work at all: no process
/// is stopped and no file is touched. It still reports the disconnect.
pub proof fn lemma_disconnect_when_nothing_held<P>(c: ControllerModel<P>)
    requires
        c.handle == HandleModel::<P>::empty(),
    ensures
        c.disconnect().1 == StepModel::<P>::Finished(CompletionModel::Disconnected),
        c.disconnect().0.handle == c.handle,
        c.disconnect().0.reporter.text == disconnected_text(),
        !c.disconnect().0.reporter.connected,
{
}

/// In a cleanup, the helper is handed out for erasing only when no process
/// is held any more; and while a process is handed out to be stopped, the
/// helper stays in the handle.
pub proof fn lemma_stop_precedes_erase<P>(c: ControllerModel<P>, goal: GoalModel)
    ensures
        c.cleanup(goal).1 is EraseHelper ==> c.handle.process is None,
        c.handle.process matches Some(process) ==> {
            &&& c.cleanup(goal).1 == (StepModel::StopProcess { process, goal })
            &&& c.cleanup(goal).0.handle.helper_path == c.handle.helper_path
        },
{
}

/// With the flag up, a request to connect touches nothing and says that a
/// tunnel is up already.
pub proof fn lemma_connect_when_connected<P>(
    c: ControllerModel<P>,
    form: FormModel,
)
    requires
        c.reporter.connected,
    ensures
        ({
            let first = c.connect(form);
            &&& first.1 == StepModel::<P>::Finished(
                CompletionModel::Connect(OutcomeModel::AlreadyConnected),
            )
            &&& first.0.handle == c.handle
            &&& first.0.reporter.connected
            &&& first.0.reporter.text == outcome_text(OutcomeModel::AlreadyConnected)
        }),
{
}

/// A form without a host or without a user name, white space aside, is
/// turned down at once: nothing leaves the handle, nothing is put in it, no
/// helper and no process is asked for, and the status line tells of the
/// failed check.
pub proof fn lemma_connect_with_invalid_form<P>(
    c: ControllerModel<P>,
    form: FormModel,
)
    requires
        !c.reporter.connected,
        trimmed(form.host).len() == 0 || trimmed(form.username).len() == 0,
    ensures
        ({
            let first = c.connect(form);
            &&& first.1 matches StepModel::Finished(
                CompletionModel::Connect(OutcomeModel::Failed(FailureModel::Validation(e))),
            )
            &&& checked(form) == Err::<RequestModel, ValidationError>(e)
            &&& first.0.handle == c.handle
            &&& !first.0.reporter.connected
            &&& first.0.reporter.text == "Server and Username required"@
        }),
{
}

/// What is left of an attempt from the look at the started process on.
proof fn lemma_probe_run<P>(d: ControllerModel<P>, process: P, name: Seq<char>, answers: Answers<P>)
    requires
        d.handle.process is None,
    ensures
        ({
            let probe = StepModel::Probe {
                process,
                grace_seconds: GRACE_SECONDS,
                display_name: name,
            };
            let run = d.run(probe, answers);
            &&& run.end.instance == d.instance
            &&& match answers.seen {
                Sighting::Exited(status) => {
                    let reason = FailureModel::EarlyExit(status);
                    &&& run.steps == seq![probe] + cleanup_steps(d, GoalModel::Fail(reason))
                    &&& run.completion == CompletionModel::Connect(OutcomeModel::Failed(reason))
                    &&& run.end.handle == HandleModel::<P>::empty()
                    &&& run.end.reporter == d.reporter.with_text(failure_text(reason))
                },
                _ => {
                    &&& run.steps == seq![probe]
                    &&& run.completion == CompletionModel::Connect(OutcomeModel::Connected(name))
                    &&& run.end.handle == d.handle.with_process(process)
                    &&& run.end.reporter == d.reporter.with_connected(true).with_text(
                        outcome_text(OutcomeModel::Connected(name)),
                    )
                },
            }
        }),
{
    reveal_with_fuel(ControllerModel::run, 2);
    let probe = StepModel::Probe { process, grace_seconds: GRACE_SECONDS, display_name: name };
    let run = d.run(probe, answers);
    match answers.seen {
        Sighting::Exited(status) => {
            let reason = FailureModel::EarlyExit(status);
            let said = d.saying(failure_text(reason));
            lemma_cleanup_run(said, GoalModel::Fail(reason), answers);
            assert(cleanup_steps(said, GoalModel::Fail(reason)) =~= cleanup_steps(
                d,
                GoalModel::Fail(reason),
            ));
        },
        _ => {
            assert(run.steps =~= seq![probe]);
        },
    }
}

/// What is left of an attempt from the start of the tunnel tool on.
proof fn lemma_spawn_run<P>(d: ControllerModel<P>, spawn: StepModel<P>, answers: Answers<P>)
    requires
        d.handle.process is None,
        spawn is Spawn,
    ensures
        ({
            let name = spawn->Spawn_display_name;
            let run = d.run(spawn, answers);
            match answers.spawned {
                Err(error) => {
                    let reason = FailureModel::Spawn(error);
                    &&& run.end.instance == d.instance
                    &&& run.steps == seq![spawn] + cleanup_steps(d, GoalModel::Fail(reason))
                    &&& run.completion == CompletionModel::Connect(OutcomeModel::Failed(reason))
                    &&& run.end.handle == HandleModel::<P>::empty()
                    &&& run.end.reporter == d.reporter.with_text(failure_text(reason))
                },
                Ok(process) => {
                    let probe = StepModel::Probe {
                        process,
                        grace_seconds: GRACE_SECONDS,
                        display_name: name,
                    };
                    let rest = d.run(probe, answers);
                    &&& run.steps == seq![spawn] + rest.steps
                    &&& run.completion == rest.completion
                    &&& run.end == rest.end
                },
            }
        }),
{
    reveal_with_fuel(ControllerModel::run, 2);
    match answers.spawned {
        Err(error) => {
            let reason = FailureModel::Spawn(error);
            let said = d.saying(failure_text(reason));
            lemma_cleanup_run(said, GoalModel::Fail(reason), answers);
            assert(cleanup_steps(said, GoalModel::Fail(reason)) =~= cleanup_steps(
                d,
                GoalModel::Fail(reason),
            ));
            let next = d.answer(spawn, answers);
            assert(next == said.cleanup(GoalModel::Fail(reason)));
            let rest = next.0.run(next.1, answers);
            assert(d.run(spawn, answers).steps == seq![spawn] + rest.steps);
        },
        Ok(process) => {},
    }
}

/// The cleanup that opens an attempt asks for the steps of `cleanup_steps`,
/// leaves the handle empty, and goes on with the launch.
proof fn lemma_opening_run<P>(c: ControllerModel<P>, request: RequestModel, answers: Answers<P>)
    ensures
        ({
            let goal = GoalModel::Launch(request);
            let first = c.cleanup(goal);
            let run = first.0.run(first.1, answers);
            let cleaned = ControllerModel { handle: HandleModel::<P>::empty(), ..c };
            let tail = cleaned.helper_erased(goal).0.run(cleaned.helper_erased(goal).1, answers);
            &&& run.steps == cleanup_steps(c, goal) + tail.steps
            &&& run.completion == tail.completion
            &&& run.end == tail.end
        }),
{
    reveal_with_fuel(ControllerModel::run, 3);
    let goal = GoalModel::Launch(request);
    let first = c.cleanup(goal);
    let run = first.0.run(first.1, answers);
    let cleaned = ControllerModel { handle: HandleModel::<P>::empty(), ..c };
    let tail = cleaned.helper_erased(goal).0.run(cleaned.helper_erased(goal).1, answers);
    assert(c.handle.without_process().without_helper() == HandleModel::<P>::empty());
    assert(run.steps =~= cleanup_steps(c, goal) + tail.steps);
}

/// What is left of an attempt once its opening cleanup is over.
proof fn lemma_launch_run<P>(d: ControllerModel<P>, request: RequestModel, answers: Answers<P>)
    requires
        d.handle == HandleModel::<P>::empty(),
        !d.reporter.connected,
    ensures
        ({
            let first = d.helper_erased(GoalModel::Launch(request));
            let run = first.0.run(first.1, answers);
            &&& run.steps == attempt_steps(d, request, answers)
            &&& run.completion == CompletionModel::Connect(attempt_outcome(request, answers))
            &&& run.end == attempt_end(d, request, answers)
        }),
{
    reveal_with_fuel(ControllerModel::run, 2);
    let name = request.display_name();
    let first = d.helper_erased(GoalModel::Launch(request));
    let run = first.0.run(first.1, answers);
    let steps = attempt_steps(d, request, answers);
    if request.password is Some && answers.created is None {
        assert(run.steps =~= steps);
    } else {
        // The controller and the step from which the tunnel tool is started.
        let (e, spawn) = if request.password is Some {
            d.helper_created(request, answers.created)
        } else {
            first
        };
        lemma_spawn_run(e, spawn, answers);
        match answers.spawned {
            Err(error) => {
                let reason = FailureModel::Spawn(error);
                assert(run.steps =~= steps);
            },
            Ok(process) => {
                lemma_probe_run(e, process, name, answers);
                assert(run.steps =~= steps);
            },
        }
    }
}

/// An undisturbed attempt to connect with a form that passes the checks,
/// on a controller whose flag is down. Whatever was held is cleaned up
/// first. Then the attempt takes the steps of `attempt_steps`, ends as
/// `attempt_outcome` says and leaves the controller of `attempt_end`: only
/// a tunnel that is up raises the flag and leaves anything in the handle,
/// and every failure leaves the handle empty and the flag down.
pub proof fn lemma_connect_run<P>(
    c: ControllerModel<P>,
    form: FormModel,
    answers: Answers<P>,
)
    requires
        !c.reporter.connected,
        checked(form) is Ok,
    ensures
        ({
            let request = checked(form)->Ok_0;
            let run = c.connect_run(form, answers);
            &&& run.steps == cleanup_steps(c, GoalModel::Launch(request)) + attempt_steps(
                c,
                request,
                answers,
            )
            &&& run.completion == CompletionModel::Connect(attempt_outcome(request, answers))
            &&& run.end == attempt_end(c, request, answers)
        }),
{
    let request = checked(form)->Ok_0;
    let goal = GoalModel::Launch(request);
    let announced = c.saying(connecting_text(request.display_name()));
    lemma_opening_run(announced, request, answers);
    let cleaned = ControllerModel { handle: HandleModel::<P>::empty(), ..announced };
    lemma_launch_run(cleaned, request, answers);
    assert(cleanup_steps(announced, goal) =~= cleanup_steps(c, goal));
}

/// A helper that was written is erased when the tunnel tool ends within
/// the grace period, and the flag stays down: the attempt ends as a
/// failure, the last step it asks for erases the helper file, and nothing
/// is left in the handle.
pub proof fn lemma_early_exit_erases_helper<P>(
    c: ControllerModel<P>,
    form: FormModel,
    answers: Answers<P>,
)
    requires
        !c.reporter.connected,
        checked(form) matches Ok(request)
            && request.password is Some,
        answers.created is Some,
        answers.spawned is Ok,
        answers.seen is Exited,
    ensures
        ({
            let run = c.connect_run(form, answers);
            let reason = FailureModel::EarlyExit(answers.seen->Exited_0);
            &&& run.steps.len() > 0
            &&& run.steps.last() == (StepModel::<P>::EraseHelper {
                path: answers.created->0,
                goal: GoalModel::Fail(reason),
            })
            &&& run.completion == CompletionModel::Connect(OutcomeModel::Failed(reason))
            &&& !run.end.reporter.connected
            &&& run.end.handle == HandleModel::<P>::empty()
        }),
{
    lemma_connect_run(c, form, answers);
}

/// Whether a process is stopped, if at all, before anything else is asked
/// for: a step that stops a process is the first of its run.
pub open spec fn stops_first<P>(steps: Seq<StepModel<P>>) -> bool {
    forall|i: int| 0 <= i < steps.len() && (#[trigger] steps[i]) is StopProcess ==> i == 0
}

/// In every undisturbed run, of a connect as of a disconnect, the process
/// is stopped before any helper file is erased: no step that stops a
/// process follows a step that erases a helper.
pub proof fn lemma_runs_stop_before_erasing<P>(
    c: ControllerModel<P>,
    form: FormModel,
    answers: Answers<P>,
)
    ensures
        stops_first(c.disconnect_run(answers).steps),
        stops_first(c.connect_run(form, answers).steps),
        forall|i: int, j: int|
            #![trigger c.disconnect_run(answers).steps[i], c.disconnect_run(answers).steps[j]]
            0 <= i < j < c.disconnect_run(answers).steps.len() && c.disconnect_run(
                answers,
            ).steps[i] is EraseHelper ==> !(c.disconnect_run(answers).steps[j] is StopProcess),
        forall|i: int, j: int|
            #![trigger
                c.connect_run(form, answers).steps[i],
                c.connect_run(form, answers).steps[j]
            ]
            0 <= i < j < c.connect_run(form, answers).steps.len() && c.connect_run(form, answers).steps[i] is EraseHelper ==> !(c.connect_run(form, answers).steps[j] is StopProcess),
{
    lemma_disconnect_run(c, answers);
    let run = c.connect_run(form, answers);
    if !c.reporter.connected && checked(form) is Ok {
        lemma_connect_run(c, form, answers);
        let request = checked(form)->Ok_0;
        let opening = cleanup_steps(c, GoalModel::Launch(request));
        let rest = attempt_steps(c, request, answers);
        assert forall|i: int| 0 <= i < run.steps.len() && (#[trigger] run.steps[i]) is StopProcess
            implies i == 0 by {
            if i >= opening.len() {
                assert(run.steps[i] == rest[i - opening.len()]);
            }
        }
    } else {
        reveal_with_fuel(ControllerModel::run, 1);
    }
}

/// Undisturbed runs keep the controller in one of its two resting states:
/// idle, with nothing held and the flag down, or established, with a
/// process held and the flag up. From either, every connect and every
/// disconnect ends in one of them again.
pub proof fn lemma_runs_end_at_rest<P>(
    c: ControllerModel<P>,
    form: FormModel,
    answers: Answers<P>,
)
    requires
        c.idle() || c.established(),
    ensures
        c.disconnect_run(answers).end.idle(),
        ({
            let end = c.connect_run(form, answers).end;
            end.idle() || end.established()
        }),
{
    lemma_disconnect_run(c, answers);
    if !c.reporter.connected && checked(form) is Ok {
        lemma_connect_run(c, form, answers);
    } else {
        reveal_with_fuel(ControllerModel::run, 1);
    }
}

/// The phases follow each other as they should. All the work of a
/// disconnect is done while disconnecting, and the disconnect ends idle.
/// All the work of a connect is done while connecting, and the connect ends
/// with the tunnel up exactly when the controller's flag is up at the end.
pub proof fn lemma_phases_of_runs<P>(
    c: ControllerModel<P>,
    form: FormModel,
    answers: Answers<P>,
)
    ensures
        ({
            let run = c.disconnect_run(answers);
            &&& forall|i: int|
                0 <= i < run.steps.len() ==> (#[trigger] run.steps[i]).phase()
                    == Phase::Disconnecting
            &&& StepModel::<P>::Finished(run.completion).phase() == Phase::Idle
        }),
        ({
            let run = c.connect_run(form, answers);
            &&& forall|i: int|
                0 <= i < run.steps.len() ==> (#[trigger] run.steps[i]).phase() == Phase::Connecting
            &&& StepModel::<P>::Finished(run.completion).phase() == if run.end.reporter.connected {
                Phase::Connected
            } else {
                Phase::Idle
            }
        }),
{
    lemma_disconnect_run(c, answers);
    let run = c.connect_run(form, answers);
    if !c.reporter.connected && checked(form) is Ok {
        lemma_connect_run(c, form, answers);
        let request = checked(form)->Ok_0;
        let opening = cleanup_steps(c, GoalModel::Launch(request));
        let rest = attempt_steps(c, request, answers);
        assert forall|i: int| 0 <= i < run.steps.len() implies (#[trigger] run.steps[i]).phase()
            == Phase::Connecting by {
            if i < opening.len() {
                assert(run.steps[i] == opening[i]);
            } else {
                assert(run.steps[i] == rest[i - opening.len()]);
            }
        }
    } else {
        reveal_with_fuel(ControllerModel::run, 1);
    }
}

/// The processes that are alive at one moment of a sequence: the one in
/// the handle, and the one that the step of the moment has handed out to be
/// watched or stopped.
pub open spec fn processes_alive<P>(c: ControllerModel<P>, step: StepModel<P>) -> Seq<P> {
    c.handle.processes() + match step {
        StepModel::StopProcess { process, .. } => seq![process],
        StepModel::Probe { process, .. } => seq![process],
        _ => Seq::empty(),
    }
}

/// The helper files that exist at one moment of a sequence: the one whose
/// path is in the handle, and the one that the step of the moment has
/// handed out to be erased.
pub open spec fn helpers_alive<P>(c: ControllerModel<P>, step: StepModel<P>) -> Seq<Seq<char>> {
    c.handle.helper_paths() + match step {
        StepModel::EraseHelper { path, .. } => seq![path],
        _ => Seq::empty(),
    }
}

/// Whether a moment of a sequence is as every call leaves it when no other
/// sequence runs beside: the process slot is empty until the sequence ends,
/// and the helper slot is empty while a helper is out to be erased.
pub open spec fn settled<P>(c: ControllerModel<P>, step: StepModel<P>) -> bool {
    &&& step is Finished || c.handle.process is None
    &&& step is EraseHelper ==> c.handle.helper_path is None
}

proof fn lemma_run_stays_settled<P>(c: ControllerModel<P>, step: StepModel<P>, answers: Answers<P>)
    requires
        settled(c, step),
    ensures
        c.run(step, answers).states.len() == c.run(step, answers).steps.len(),
        forall|i: int|
            0 <= i < c.run(step, answers).steps.len() ==> settled(
                #[trigger] c.run(step, answers).states[i],
                c.run(step, answers).steps[i],
            ),
    decreases step.distance(),
{
    if !(step is Finished) {
        let next = c.answer(step, answers);
        lemma_run_stays_settled(next.0, next.1, answers);
        let run = c.run(step, answers);
        let rest = next.0.run(next.1, answers);
        assert forall|i: int| 0 <= i < run.steps.len() implies settled(
            #[trigger] run.states[i],
            run.steps[i],
        ) by {
            if i > 0 {
                assert(run.states[i] == rest.states[i - 1]);
                assert(run.steps[i] == rest.steps[i - 1]);
            }
        }
    }
}

/// At every moment of an undisturbed run, of a connect as of a disconnect
/// and from whatever state, at most one process is alive and at most one
/// helper file exists, counting what the handle holds and what is out with
/// whoever does the work.
pub proof fn lemma_one_of_each_at_every_moment<P>(
    c: ControllerModel<P>,
    form: FormModel,
    answers: Answers<P>,
)
    ensures
        ({
            let run = c.connect_run(form, answers);
            &&& run.states.len() == run.steps.len()
            &&& forall|i: int|
                0 <= i < run.steps.len() ==> processes_alive(
                    #[trigger] run.states[i],
                    run.steps[i],
                ).len() <= 1 && helpers_alive(run.states[i], run.steps[i]).len() <= 1
        }),
        ({
            let run = c.disconnect_run(answers);
            &&& run.states.len() == run.steps.len()
            &&& forall|i: int|
                0 <= i < run.steps.len() ==> processes_alive(
                    #[trigger] run.states[i],
                    run.steps[i],
                ).len() <= 1 && helpers_alive(run.states[i], run.steps[i]).len() <= 1
        }),
{
    let first = c.connect(form);
    lemma_run_stays_settled(first.0, first.1, answers);
    let first = c.disconnect();
    lemma_run_stays_settled(first.0, first.1, answers);
}

/// One call on the controller, with its arguments as plain values.
pub enum Call<P> {
    Connect { form: FormModel },
    Disconnect,
    ProcessStopped { goal: GoalModel },
    HelperErased { goal: GoalModel },
    HelperCreated { request: RequestModel, created: Option<Seq<char>> },
    SpawnFinished { display_name: Seq<char>, spawned: Result<P, Seq<char>> },
    ProbeFinished { display_name: Seq<char>, found: ProbeModel<P> },
}

impl<P> ControllerModel<P> {
    /// The controller after `call`.
    pub open spec fn after(self, call: Call<P>) -> ControllerModel<P> {
        match call {
            Call::Connect { form } => self.connect(form).0,
            Call::Disconnect => self.disconnect().0,
            Call::ProcessStopped { goal } => self.process_stopped(goal).0,
            Call::HelperErased { goal } => self.helper_erased(goal).0,
            Call::HelperCreated { request, created } => self.helper_created(request, created).0,
            Call::SpawnFinished { display_name, spawned } => self.spawn_finished(
                display_name,
                spawned,
            ).0,
            Call::ProbeFinished { display_name, found } => self.probe_finished(
                display_name,
                found,
            ).0,
        }
    }

    /// The step that `call` answers with.
    pub open spec fn step_of(self, call: Call<P>) -> StepModel<P> {
        match call {
            Call::Connect { form } => self.connect(form).1,
            Call::Disconnect => self.disconnect().1,
            Call::ProcessStopped { goal } => self.process_stopped(goal).1,
            Call::HelperErased { goal } => self.helper_erased(goal).1,
            Call::HelperCreated { request, created } => self.helper_created(request, created).1,
            Call::SpawnFinished { display_name, spawned } => self.spawn_finished(
                display_name,
                spawned,
            ).1,
            Call::ProbeFinished { display_name, found } => self.probe_finished(
                display_name,
                found,
            ).1,
        }
    }

    /// The controller after `calls`, one after the other.
    pub open spec fn after_all(self, calls: Seq<Call<P>>) -> ControllerModel<P>
        decreases calls.len(),
    {
        if calls.len() == 0 {
            self
        } else {
            self.after_all(calls.drop_last()).after(calls.last())
        }
    }
}

/// Whatever the call and whatever the state, what a step hands out has
/// left the handle: a process that is out to be stopped is no longer in the
/// process slot, and a helper that is out to be erased is no longer in the
/// helper slot. No second sequence can find it there and act on it again.
pub proof fn lemma_handed_out_is_taken<P>(c: ControllerModel<P>, call: Call<P>)
    ensures
        c.step_of(call) is StopProcess ==> c.after(call).handle.process is None,
        c.step_of(call) is EraseHelper ==> c.after(call).handle.helper_path is None,
{
}

/// Whatever calls are made, in whatever order and from however many
/// sequences at once, the handle holds at most one process and at most one
/// helper path after each of them, and the controller stays the one of its
/// instance. The flag goes up only in a call that reports a process that
/// outlived the grace period.
pub proof fn lemma_any_calls_hold_at_most_one<P>(c: ControllerModel<P>, calls: Seq<Call<P>>)
    ensures
        c.after_all(calls).handle.processes().len() <= 1,
        c.after_all(calls).handle.helper_paths().len() <= 1,
        c.after_all(calls).instance == c.instance,
        forall|d: ControllerModel<P>, call: Call<P>|
            !d.reporter.connected && (#[trigger] d.after(call)).reporter.connected ==> (call matches Call::ProbeFinished {
                found,
                ..
            } && !(found is Exited)),
    decreases calls.len(),
{
    if calls.len() > 0 {
        lemma_any_calls_hold_at_most_one(c, calls.drop_last());
    }
}

} // verus!
