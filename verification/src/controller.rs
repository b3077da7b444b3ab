//! The tunnel controller. It decides; it never touches a process or a file.
//!
//! Every call takes the result of the work that was asked for last and
//! answers with the next piece of work, a [`Step`]: stop this process, erase
//! this file, write this helper, start this program, watch this process.
//! Whoever drives the controller does the work and calls back. A step
//! carries everything that the call after it needs, so sequences that run
//! side by side share nothing but the controller, and each call on it is
//! one indivisible change.

use crate::handle::{HandleModel, TunnelHandle};
use crate::invocation::{invocation_for, Invocation, InvocationModel};
use crate::relay::{helper_for, secret_variable, secret_variable_text, CredentialHelper, HelperModel};
use crate::request::{checked, form_of, text_of, ConnectionRequest, FormModel, RequestModel};
use crate::status::{
    connecting_status, connecting_text, disconnected_status, disconnected_text, failure_text,
    outcome_text, ConnectionOutcome, FailureModel, FailureReason, OutcomeModel, ReporterModel,
    StatusReporter,
};
use vstd::prelude::*;

verus! {

/// How long a started tunnel tool is left alone before it is looked at.
pub const GRACE_SECONDS: u64 = 4;

/// Where a sequence stands.
#[derive(Clone, Copy, Debug, PartialEq, Eq, Structural)]
pub enum Phase {
    /// No tunnel is up and none is being put up.
    Idle,
    /// An attempt to connect is under way.
    Connecting,
    /// The tunnel is up.
    Connected,
    /// A disconnect is under way.
    Disconnecting,
}

/// What a cleanup leads to once the process is stopped and the helper
/// erased, as plain values.
pub enum GoalModel {
    Disconnect,
    Launch(RequestModel),
    Fail(FailureModel),
}

/// What was found when a started process was looked at, as plain values.
pub enum ProbeModel<P> {
    Exited(Seq<char>),
    Running(P),
    Unknown(P),
}

/// How a sequence ended, as plain values.
pub enum CompletionModel {
    Connect(OutcomeModel),
    Disconnected,
}

/// A step, as plain values.
pub enum StepModel<P> {
    StopProcess { process: P, goal: GoalModel },
    EraseHelper { path: Seq<char>, goal: GoalModel },
    CreateHelper { helper: HelperModel, request: RequestModel },
    Spawn { invocation: InvocationModel, display_name: Seq<char> },
    Probe { process: P, grace_seconds: u64, display_name: Seq<char> },
    Finished(CompletionModel),
}

/// A controller, as plain values.
pub struct ControllerModel<P> {
    pub handle: HandleModel<P>,
    pub reporter: ReporterModel,
    pub instance: u32,
}

/// What a cleanup leads to once the process is stopped and the helper
/// erased.
pub enum Goal {
    /// The end of a disconnect.
    Disconnect,
    /// The start of the tunnel tool for this request.
    Launch(ConnectionRequest),
    /// The end of an attempt that failed for this reason.
    Fail(FailureReason),
}

/// What was found when a started process was looked at after the grace
/// period.
pub enum ProbeOutcome<P> {
    /// It had ended already; the text is its exit status.
    Exited(String),
    /// It was running.
    Running(P),
    /// Its state could not be read; it is taken to be running.
    Unknown(P),
}

/// How a sequence ended.
#[derive(Debug, PartialEq, Eq)]
pub enum Completion {
    /// An attempt to connect ended in this outcome.
    Connect(ConnectionOutcome),
    /// A disconnect ended.
    Disconnected,
}

/// The next piece of work, or the end of the sequence.
pub enum Step<P> {
    /// End `process` and wait until it is gone, errors ignored; then call
    /// `process_stopped` with `goal`.
    StopProcess { process: P, goal: Goal },
    /// Remove the file at `path`, a missing file and errors ignored; then
    /// call `helper_erased` with `goal`.
    EraseHelper { path: String, goal: Goal },
    /// Write `helper` into the temporary directory; then call
    /// `helper_created` with `request` and the path that was written, or
    /// with nothing where writing or protecting the file failed.
    CreateHelper { helper: CredentialHelper, request: ConnectionRequest },
    /// Start `invocation`; then call `spawn_finished` with `display_name`
    /// and the process, or with the system's error.
    Spawn { invocation: Invocation, display_name: String },
    /// Leave `process` alone for `grace_seconds`, then look whether it has
    /// ended; then call `probe_finished` with `display_name` and what was
    /// found.
    Probe { process: P, grace_seconds: u64, display_name: String },
    /// The sequence is over.
    Finished(Completion),
}

/// The tunnel controller, for processes of type `P`.
pub struct Controller<P> {
    handle: TunnelHandle<P>,
    reporter: StatusReporter,
    instance: u32,
}

impl View for Goal {
    type V = GoalModel;

    open spec fn view(&self) -> GoalModel {
        match *self {
            Goal::Disconnect => GoalModel::Disconnect,
            Goal::Launch(request) => GoalModel::Launch(request@),
            Goal::Fail(reason) => GoalModel::Fail(reason@),
        }
    }
}

impl<P> View for ProbeOutcome<P> {
    type V = ProbeModel<P>;

    open spec fn view(&self) -> ProbeModel<P> {
        match *self {
            ProbeOutcome::Exited(status) => ProbeModel::Exited(status@),
            ProbeOutcome::Running(process) => ProbeModel::Running(process),
            ProbeOutcome::Unknown(process) => ProbeModel::Unknown(process),
        }
    }
}

impl View for Completion {
    type V = CompletionModel;

    open spec fn view(&self) -> CompletionModel {
        match *self {
            Completion::Connect(outcome) => CompletionModel::Connect(outcome@),
            Completion::Disconnected => CompletionModel::Disconnected,
        }
    }
}

impl<P> View for Step<P> {
    type V = StepModel<P>;

    open spec fn view(&self) -> StepModel<P> {
        match *self {
            Step::StopProcess { process, goal } => StepModel::StopProcess { process, goal: goal@ },
            Step::EraseHelper { path, goal } => StepModel::EraseHelper { path: path@, goal: goal@ },
            Step::CreateHelper { helper, request } => StepModel::CreateHelper {
                helper: helper@,
                request: request@,
            },
            Step::Spawn { invocation, display_name } => StepModel::Spawn {
                invocation: invocation@,
                display_name: display_name@,
            },
            Step::Probe { process, grace_seconds, display_name } => StepModel::Probe {
                process,
                grace_seconds,
                display_name: display_name@,
            },
            Step::Finished(completion) => StepModel::Finished(completion@),
        }
    }
}

impl<P> View for Controller<P> {
    type V = ControllerModel<P>;

    closed spec fn view(&self) -> ControllerModel<P> {
        ControllerModel { handle: self.handle@, reporter: self.reporter@, instance: self.instance }
    }
}

impl<P> StepModel<P> {
    /// Where the sequence stands when it hands out this step. Work for a
    /// disconnect is done while disconnecting, all other work while
    /// connecting. A sequence ends with the tunnel up where an attempt put
    /// it up or found it up, and idle in every other case.
    pub open spec fn phase(self) -> Phase {
        match self {
            StepModel::StopProcess { goal: GoalModel::Disconnect, .. } => Phase::Disconnecting,
            StepModel::EraseHelper { goal: GoalModel::Disconnect, .. } => Phase::Disconnecting,
            StepModel::Finished(CompletionModel::Connect(OutcomeModel::Connected(_))) => {
                Phase::Connected
            },
            StepModel::Finished(CompletionModel::Connect(OutcomeModel::AlreadyConnected)) => {
                Phase::Connected
            },
            StepModel::Finished(_) => Phase::Idle,
            _ => Phase::Connecting,
        }
    }
}

impl<P> Step<P> {
    /// Where the sequence stands when it hands out this step.
    pub fn phase(&self) -> (phase: Phase)
        ensures
            phase == self@.phase(),
    {
        match self {
            Step::StopProcess { goal: Goal::Disconnect, .. } => Phase::Disconnecting,
            Step::EraseHelper { goal: Goal::Disconnect, .. } => Phase::Disconnecting,
            Step::Finished(Completion::Connect(ConnectionOutcome::Connected(_))) => Phase::Connected,
            Step::Finished(Completion::Connect(ConnectionOutcome::AlreadyConnected)) => {
                Phase::Connected
            },
            Step::Finished(_) => Phase::Idle,
            _ => Phase::Connecting,
        }
    }
}

/// What starting a process gave, as plain values.
pub open spec fn spawn_model<P>(spawned: Result<P, String>) -> Result<P, Seq<char>> {
    match spawned {
        Ok(process) => Ok(process),
        Err(error) => Err(error@),
    }
}

impl<P> ControllerModel<P> {
    /// The controller of instance `instance` before anything happened.
    pub open spec fn initial(instance: u32) -> ControllerModel<P> {
        ControllerModel {
            handle: HandleModel::empty(),
            reporter: ReporterModel { text: Seq::empty(), connected: false },
            instance,
        }
    }

    /// This controller with `text` as its status line.
    pub open spec fn saying(self, text: Seq<char>) -> ControllerModel<P> {
        ControllerModel { reporter: self.reporter.with_text(text), ..self }
    }

    /// Whether nothing is held and the flag is down.
    pub open spec fn idle(self) -> bool {
        &&& !self.reporter.connected
        &&& self.handle.process is None
        &&& self.handle.helper_path is None
    }

    /// Whether a process is held and the flag is up.
    pub open spec fn established(self) -> bool {
        &&& self.reporter.connected
        &&& self.handle.process is Some
    }

    /// The end of a cleanup: what `goal` asks for, now that nothing is left
    /// to stop or to erase. A disconnect lowers the flag and says so. A
    /// launch asks for the helper where the request has a password, and for
    /// the tunnel tool itself where it has none. A failure ends the attempt;
    /// its status line was written when it was found.
    pub open spec fn helper_erased(self, goal: GoalModel) -> (ControllerModel<P>, StepModel<P>) {
        match goal {
            GoalModel::Disconnect => (
                ControllerModel {
                    reporter: self.reporter.with_connected(false).with_text(disconnected_text()),
                    ..self
                },
                StepModel::Finished(CompletionModel::Disconnected),
            ),
            GoalModel::Launch(request) => if request.password is Some {
                (
                    self,
                    StepModel::CreateHelper {
                        helper: helper_for(secret_variable_text(), self.instance),
                        request,
                    },
                )
            } else {
                (
                    self,
                    StepModel::Spawn {
                        invocation: invocation_for(request, None),
                        display_name: request.display_name(),
                    },
                )
            },
            GoalModel::Fail(reason) => (
                self,
                StepModel::Finished(CompletionModel::Connect(OutcomeModel::Failed(reason))),
            ),
        }
    }

    /// The second half of a cleanup: the helper path leaves the handle to be
    /// erased; where none is held the cleanup is over.
    pub open spec fn process_stopped(self, goal: GoalModel) -> (
        ControllerModel<P>,
        StepModel<P>,
    ) {
        match self.handle.helper_path {
            Some(path) => (
                ControllerModel { handle: self.handle.without_helper(), ..self },
                StepModel::EraseHelper { path, goal },
            ),
            None => self.helper_erased(goal),
        }
    }

    /// The first half of a cleanup: the process leaves the handle to be
    /// stopped, and the helper stays where it is; where no process is held
    /// the second half follows at once.
    pub open spec fn cleanup(self, goal: GoalModel) -> (ControllerModel<P>, StepModel<P>) {
        match self.handle.process {
            Some(process) => (
                ControllerModel { handle: self.handle.without_process(), ..self },
                StepModel::StopProcess { process, goal },
            ),
            None => self.process_stopped(goal),
        }
    }

    /// A request to connect. With the flag up nothing is touched. A form
    /// that fails the checks is turned down and nothing is touched. Else the
    /// attempt is announced and starts with a cleanup.
    pub open spec fn connect(
        self,
        form: FormModel,
    ) -> (ControllerModel<P>, StepModel<P>) {
        if self.reporter.connected {
            (
                self.saying(outcome_text(OutcomeModel::AlreadyConnected)),
                StepModel::Finished(CompletionModel::Connect(OutcomeModel::AlreadyConnected)),
            )
        } else {
            match checked(form) {
                Err(e) => (
                    self.saying(failure_text(FailureModel::Validation(e))),
                    StepModel::Finished(
                        CompletionModel::Connect(
                            OutcomeModel::Failed(FailureModel::Validation(e)),
                        ),
                    ),
                ),
                Ok(request) => self.saying(connecting_text(request.display_name())).cleanup(
                    GoalModel::Launch(request),
                ),
            }
        }
    }

    /// A request to disconnect: a cleanup that ends the tunnel.
    pub open spec fn disconnect(self) -> (ControllerModel<P>, StepModel<P>) {
        self.cleanup(GoalModel::Disconnect)
    }

    /// The helper was written at `created`, or could not be. A path goes
    /// into the handle at once and the tunnel tool is asked for; a failure
    /// ends the attempt.
    pub open spec fn helper_created(self, request: RequestModel, created: Option<Seq<char>>) -> (
        ControllerModel<P>,
        StepModel<P>,
    ) {
        match created {
            Some(path) => (
                ControllerModel { handle: self.handle.with_helper(path), ..self },
                StepModel::Spawn {
                    invocation: invocation_for(request, Some(path)),
                    display_name: request.display_name(),
                },
            ),
            None => (
                self.saying(failure_text(FailureModel::HelperCreation)),
                StepModel::Finished(
                    CompletionModel::Connect(OutcomeModel::Failed(FailureModel::HelperCreation)),
                ),
            ),
        }
    }

    /// The tunnel tool was started, or could not be. A process is watched
    /// for the grace period; a failure is announced and cleaned up after.
    pub open spec fn spawn_finished(self, display_name: Seq<char>, spawned: Result<P, Seq<char>>) -> (
        ControllerModel<P>,
        StepModel<P>,
    ) {
        match spawned {
            Ok(process) => (
                self,
                StepModel::Probe { process, grace_seconds: GRACE_SECONDS, display_name },
            ),
            Err(error) => self.saying(failure_text(FailureModel::Spawn(error))).cleanup(
                GoalModel::Fail(FailureModel::Spawn(error)),
            ),
        }
    }

    /// The grace period is over. A process that has ended is announced as a
    /// failure and cleaned up after. Any other goes into the handle, the
    /// flag goes up and the tunnel is announced.
    pub open spec fn probe_finished(self, display_name: Seq<char>, found: ProbeModel<P>) -> (
        ControllerModel<P>,
        StepModel<P>,
    ) {
        match found {
            ProbeModel::Exited(status) => self.saying(
                failure_text(FailureModel::EarlyExit(status)),
            ).cleanup(GoalModel::Fail(FailureModel::EarlyExit(status))),
            ProbeModel::Running(process) => self.connected_with(display_name, process),
            ProbeModel::Unknown(process) => self.connected_with(display_name, process),
        }
    }

    /// The successful end of an attempt.
    pub open spec fn connected_with(self, display_name: Seq<char>, process: P) -> (
        ControllerModel<P>,
        StepModel<P>,
    ) {
        (
            ControllerModel {
                handle: self.handle.with_process(process),
                reporter: self.reporter.with_connected(true).with_text(
                    outcome_text(OutcomeModel::Connected(display_name)),
                ),
                ..self
            },
            StepModel::Finished(CompletionModel::Connect(OutcomeModel::Connected(display_name))),
        )
    }
}

impl<P> Controller<P> {
    /// A controller that holds nothing, for the program instance numbered
    /// `instance`.
    pub fn new(instance: u32) -> (c: Controller<P>)
        ensures
            c@ == ControllerModel::<P>::initial(instance),
    {
        Controller { handle: TunnelHandle::new(), reporter: StatusReporter::new(), instance }
    }

    /// The status line.
    pub fn status(&self) -> (r: &str)
        ensures
            r@ == self@.reporter.text,
    {
        self.reporter.text()
    }

    /// Whether a tunnel is up.
    pub fn is_connected(&self) -> (b: bool)
        ensures
            b == self@.reporter.connected,
    {
        self.reporter.is_connected()
    }

    /// The handle, to look at.
    pub fn handle(&self) -> (h: &TunnelHandle<P>)
        ensures
            h@ == self@.handle,
    {
        &self.handle
    }

    /// Call when a helper file was erased, or right after `process_stopped`
    /// found none to erase: ends the cleanup and goes on to what `goal` asks
    /// for.
    pub fn helper_erased(&mut self, goal: Goal) -> (step: Step<P>)
        ensures
            (final(self)@, step@) == old(self)@.helper_erased(goal@),
    {
        match goal {
            Goal::Disconnect => {
                self.reporter.set_connected(false);
                self.reporter.publish(disconnected_status());
                Step::Finished(Completion::Disconnected)
            },
            Goal::Launch(request) => {
                if request.password().is_some() {
                    Step::CreateHelper {
                        helper: CredentialHelper::new(secret_variable(), self.instance),
                        request,
                    }
                } else {
                    Step::Spawn {
                        invocation: Invocation::for_request(&request, None),
                        display_name: request.display_name(),
                    }
                }
            },
            Goal::Fail(reason) => Step::Finished(
                Completion::Connect(ConnectionOutcome::Failed(reason)),
            ),
        }
    }

    /// Call when a process was stopped: takes the helper path out of the
    /// handle and asks for the file to be erased.
    pub fn process_stopped(&mut self, goal: Goal) -> (step: Step<P>)
        ensures
            (final(self)@, step@) == old(self)@.process_stopped(goal@),
    {
        match self.handle.take_helper() {
            Some(path) => Step::EraseHelper { path, goal },
            None => self.helper_erased(goal),
        }
    }

    fn cleanup(&mut self, goal: Goal) -> (step: Step<P>)
        ensures
            (final(self)@, step@) == old(self)@.cleanup(goal@),
    {
        match self.handle.take_process() {
            Some(process) => Step::StopProcess { process, goal },
            None => self.process_stopped(goal),
        }
    }

    /// Starts an attempt to connect with what the form holds.
    pub fn connect(
        &mut self,
        label: Option<&str>,
        host: &str,
        port_text: &str,
        username: &str,
        password: Option<&str>,
    ) -> (step: Step<P>)
        ensures
            (final(self)@, step@) == old(self)@.connect(
                form_of(label, host, port_text, username, password),
            ),
    {
        if self.reporter.is_connected() {
            let outcome = ConnectionOutcome::AlreadyConnected;
            self.reporter.publish(outcome.status_text());
            return Step::Finished(Completion::Connect(outcome));
        }
        match ConnectionRequest::from_form(label, host, port_text, username, password) {
            Err(e) => {
                let reason = FailureReason::Validation(e);
                self.reporter.publish(reason.status_text());
                Step::Finished(Completion::Connect(ConnectionOutcome::Failed(reason)))
            },
            Ok(request) => {
                self.reporter.publish(connecting_status(request.display_name().as_str()));
                self.cleanup(Goal::Launch(request))
            },
        }
    }

    /// Starts a disconnect. It may be called at any time.
    pub fn disconnect(&mut self) -> (step: Step<P>)
        ensures
            (final(self)@, step@) == old(self)@.disconnect(),
    {
        self.cleanup(Goal::Disconnect)
    }

    /// Call when the helper file was written at `created`, or with nothing
    /// when it could not be written or protected.
    pub fn helper_created(&mut self, request: ConnectionRequest, created: Option<String>) -> (step:
        Step<P>)
        ensures
            (final(self)@, step@) == old(self)@.helper_created(request@, text_of(created)),
    {
        match created {
            Some(path) => {
                let invocation = Invocation::for_request(&request, Some(path.as_str()));
                self.handle.store_helper(path);
                Step::Spawn { invocation, display_name: request.display_name() }
            },
            None => {
                let reason = FailureReason::HelperCreation;
                self.reporter.publish(reason.status_text());
                Step::Finished(Completion::Connect(ConnectionOutcome::Failed(reason)))
            },
        }
    }

    /// Call when the tunnel tool was started, or with the system's error
    /// when it could not be.
    pub fn spawn_finished(&mut self, display_name: String, spawned: Result<P, String>) -> (step:
        Step<P>)
        ensures
            (final(self)@, step@) == old(self)@.spawn_finished(display_name@, spawn_model(spawned)),
    {
        match spawned {
            Ok(process) => Step::Probe { process, grace_seconds: GRACE_SECONDS, display_name },
            Err(error) => {
                let reason = FailureReason::Spawn(error);
                self.reporter.publish(reason.status_text());
                self.cleanup(Goal::Fail(reason))
            },
        }
    }

    /// Call when the grace period is over, with what was found.
    pub fn probe_finished(&mut self, display_name: String, found: ProbeOutcome<P>) -> (step: Step<
        P,
    >)
        ensures
            (final(self)@, step@) == old(self)@.probe_finished(display_name@, found@),
    {
        match found {
            ProbeOutcome::Exited(status) => {
                let reason = FailureReason::EarlyExit(status);
                self.reporter.publish(reason.status_text());
                self.cleanup(Goal::Fail(reason))
            },
            ProbeOutcome::Running(process) => self.connected_with(display_name, process),
            ProbeOutcome::Unknown(process) => self.connected_with(display_name, process),
        }
    }

    fn connected_with(&mut self, display_name: String, process: P) -> (step: Step<P>)
        ensures
            (final(self)@, step@) == old(self)@.connected_with(display_name@, process),
    {
        let outcome = ConnectionOutcome::Connected(display_name);
        self.handle.store(process);
        self.reporter.set_connected(true);
        self.reporter.publish(outcome.status_text());
        Step::Finished(Completion::Connect(outcome))
    }
}

} // verus!
