//! How a context carries out a request, step by step.

use vstd::prelude::*;

use crate::api::credentials::{
    capture_after_navigation, capture_commands, capture_on_page, clicks_submit, nothing_captured,
    noticed_credential, origin_key, origin_of, AutoCredentialCapture, CaptureView,
};
use crate::api::diagnostics::{
    carries, failure_from_error, failure_of, DiagnosticsChange, NativeOperationError, NativeView,
};
use crate::commands::command::{clone_commands, commands_view, Command, CommandView};
use crate::commands::matcher::opt_view;
use crate::config_store::{CredentialInput, InputView};
use crate::dom::node::{DomSnapshot, NodeView};
use crate::runtime::executor::RuntimeStatus;
use crate::session::cookies::{SessionState, SessionView};
use crate::text::{concat2, opt_text};
use crate::transport::bridge::{error_text, AegisError, ErrorView};

verus! {

/// A request to execute commands.
#[derive(Debug)]
pub struct ExecuteBody {
    pub commands: Vec<Command>,
}

/// A request to a context.
#[derive(Debug)]
pub enum ContextRequest {
    InjectSession(SessionState),
    SnapshotSession,
    SaveSessionProfile,
    LoadSessionProfile,
    Navigate(String),
    Execute(Vec<Command>),
    SnapshotDom,
    Events(u64),
    EnableTrace(String),
}

/// The contents of a `ContextRequest`.
pub enum RequestView {
    InjectSession(SessionView),
    SnapshotSession,
    SaveSessionProfile,
    LoadSessionProfile,
    Navigate(Seq<char>),
    Execute(Seq<CommandView>),
    SnapshotDom,
    Events(u64),
    EnableTrace(Seq<char>),
}

impl View for ContextRequest {
    type V = RequestView;

    open spec fn view(&self) -> RequestView {
        match self {
            ContextRequest::InjectSession(s) => RequestView::InjectSession(s@),
            ContextRequest::SnapshotSession => RequestView::SnapshotSession,
            ContextRequest::SaveSessionProfile => RequestView::SaveSessionProfile,
            ContextRequest::LoadSessionProfile => RequestView::LoadSessionProfile,
            ContextRequest::Navigate(url) => RequestView::Navigate(url@),
            ContextRequest::Execute(commands) => RequestView::Execute(commands_view(commands@)),
            ContextRequest::SnapshotDom => RequestView::SnapshotDom,
            ContextRequest::Events(since) => RequestView::Events(*since),
            ContextRequest::EnableTrace(path) => RequestView::EnableTrace(path@),
        }
    }
}

/// The name of the operation that a request starts.
pub open spec fn operation_of(r: RequestView) -> Seq<char> {
    match r {
        RequestView::InjectSession(_) => "inject_session"@,
        RequestView::SnapshotSession => "snapshot_session"@,
        RequestView::SaveSessionProfile => "save_session_profile"@,
        RequestView::LoadSessionProfile => "load_session_profile"@,
        RequestView::Navigate(_) => "navigate"@,
        RequestView::Execute(_) => "execute"@,
        RequestView::SnapshotDom => "snapshot_dom"@,
        RequestView::Events(_) => "events"@,
        RequestView::EnableTrace(_) => "enable_trace"@,
    }
}

/// What the operation that a request starts is said to be doing.
pub open spec fn stage_of(r: RequestView) -> Seq<char> {
    match r {
        RequestView::InjectSession(_) => "injecting session"@,
        RequestView::SnapshotSession => "capturing session state"@,
        RequestView::SaveSessionProfile => "persisting session profile"@,
        RequestView::LoadSessionProfile => "loading session profile"@,
        RequestView::Navigate(url) => "navigating to "@ + url,
        RequestView::Execute(_) => "executing browser command batch"@,
        RequestView::SnapshotDom => "capturing DOM snapshot"@,
        RequestView::Events(_) => "draining runtime events"@,
        RequestView::EnableTrace(_) => "enabling trace recording"@,
    }
}

impl ContextRequest {
    /// The name of the operation that the request starts.
    pub fn operation(&self) -> (res: &'static str)
        ensures
            res@ == operation_of(self@),
    {
        match self {
            ContextRequest::InjectSession(_) => "inject_session",
            ContextRequest::SnapshotSession => "snapshot_session",
            ContextRequest::SaveSessionProfile => "save_session_profile",
            ContextRequest::LoadSessionProfile => "load_session_profile",
            ContextRequest::Navigate(_) => "navigate",
            ContextRequest::Execute(_) => "execute",
            ContextRequest::SnapshotDom => "snapshot_dom",
            ContextRequest::Events(_) => "events",
            ContextRequest::EnableTrace(_) => "enable_trace",
        }
    }

    /// What the operation that the request starts is said to be doing.
    pub fn stage(&self) -> (res: String)
        ensures
            res@ == stage_of(self@),
    {
        match self {
            ContextRequest::InjectSession(_) => "injecting session".to_owned(),
            ContextRequest::SnapshotSession => "capturing session state".to_owned(),
            ContextRequest::SaveSessionProfile => "persisting session profile".to_owned(),
            ContextRequest::LoadSessionProfile => "loading session profile".to_owned(),
            ContextRequest::Navigate(url) => concat2("navigating to ", url.as_str()),
            ContextRequest::Execute(_) => "executing browser command batch".to_owned(),
            ContextRequest::SnapshotDom => "capturing DOM snapshot".to_owned(),
            ContextRequest::Events(_) => "draining runtime events".to_owned(),
            ContextRequest::EnableTrace(_) => "enabling trace recording".to_owned(),
        }
    }
}

/// What a context waits for while it carries out a request.
#[derive(Debug, Clone, Copy, PartialEq, Eq, Structural)]
pub enum ContextPhase {
    Injecting,
    Saving,
    CapturingSession,
    LoadingProfile,
    Navigating,
    CapturingDom,
    Executing,
    StoringCredential,
    ReadingEvents,
    EnablingTrace,
}

/// Something that a context is to do for a request.
#[derive(Debug)]
pub enum ContextAction {
    Inject(SessionState),
    SaveProfile(SessionState),
    CaptureSession,
    LoadProfile,
    Navigate(String),
    CaptureDom,
    Execute(Vec<Command>),
    StoreCredential(CredentialInput),
    ReadEvents(u64),
    EnableTrace(String),
}

/// The contents of a `ContextAction`.
pub enum ActionView {
    Inject(SessionView),
    SaveProfile(SessionView),
    CaptureSession,
    LoadProfile,
    Navigate(Seq<char>),
    CaptureDom,
    Execute(Seq<CommandView>),
    StoreCredential(InputView),
    ReadEvents(u64),
    EnableTrace(Seq<char>),
}

impl View for ContextAction {
    type V = ActionView;

    open spec fn view(&self) -> ActionView {
        match self {
            ContextAction::Inject(s) => ActionView::Inject(s@),
            ContextAction::SaveProfile(s) => ActionView::SaveProfile(s@),
            ContextAction::CaptureSession => ActionView::CaptureSession,
            ContextAction::LoadProfile => ActionView::LoadProfile,
            ContextAction::Navigate(url) => ActionView::Navigate(url@),
            ContextAction::CaptureDom => ActionView::CaptureDom,
            ContextAction::Execute(commands) => ActionView::Execute(commands_view(commands@)),
            ContextAction::StoreCredential(input) => ActionView::StoreCredential(input@),
            ContextAction::ReadEvents(since) => ActionView::ReadEvents(*since),
            ContextAction::EnableTrace(path) => ActionView::EnableTrace(path@),
        }
    }
}

/// What came of an action.
#[derive(Debug)]
pub enum ContextEvent {
    /// It was done.
    Done,
    /// The session was captured.
    Session(SessionState),
    /// The profile was read; it may hold a session.
    Profile(Option<SessionState>),
    /// The document was captured.
    Dom(DomSnapshot),
    /// It failed.
    Failed(AegisError),
}

/// The contents of a `ContextEvent`.
pub enum OutcomeView {
    Done,
    Session(SessionView),
    Profile(Option<SessionView>),
    Dom(Seq<NodeView>),
    Failed(ErrorView),
}

/// The contents of an optional session.
pub open spec fn opt_session(s: Option<SessionState>) -> Option<SessionView> {
    match s {
        Some(x) => Some(x@),
        None => None,
    }
}

impl View for ContextEvent {
    type V = OutcomeView;

    open spec fn view(&self) -> OutcomeView {
        match *self {
            ContextEvent::Done => OutcomeView::Done,
            ContextEvent::Session(s) => OutcomeView::Session(s@),
            ContextEvent::Profile(s) => OutcomeView::Profile(opt_session(s)),
            ContextEvent::Dom(d) => OutcomeView::Dom(d@),
            ContextEvent::Failed(e) => OutcomeView::Failed(e@),
        }
    }
}

/// How a request is answered.
#[derive(Debug)]
pub enum ContextAnswer {
    /// It was done.
    Nothing,
    /// With the captured session.
    Session(SessionState),
    /// With the profile of the context.
    Profile,
    /// With the events of the navigation.
    NavigationEvents,
    /// With the report of the execution.
    Report,
    /// With the captured document.
    Dom(DomSnapshot),
    /// With the events that were read.
    EventWindow,
}

/// The contents of a `ContextAnswer`.
pub enum AnswerView {
    Nothing,
    Session(SessionView),
    Profile,
    NavigationEvents,
    Report,
    Dom(Seq<NodeView>),
    EventWindow,
}

/// What is to be done next for a request.
#[derive(Debug)]
pub enum ContextStep {
    /// Go on with an action.
    Act(ContextAction),
    /// The request succeeded.
    Answer(ContextAnswer),
    /// The request failed while something was being done.
    Fail { error: AegisError, stage: &'static str },
}

/// The contents of a `ContextStep`.
pub enum ContextStepView {
    Act(ActionView),
    Answer(AnswerView),
    Fail(ErrorView, Seq<char>),
}

impl View for ContextStep {
    type V = ContextStepView;

    open spec fn view(&self) -> ContextStepView {
        match *self {
            ContextStep::Act(a) => ContextStepView::Act(a@),
            ContextStep::Answer(a) => ContextStepView::Answer(
                match a {
                    ContextAnswer::Nothing => AnswerView::Nothing,
                    ContextAnswer::Session(s) => AnswerView::Session(s@),
                    ContextAnswer::Profile => AnswerView::Profile,
                    ContextAnswer::NavigationEvents => AnswerView::NavigationEvents,
                    ContextAnswer::Report => AnswerView::Report,
                    ContextAnswer::Dom(d) => AnswerView::Dom(d@),
                    ContextAnswer::EventWindow => AnswerView::EventWindow,
                },
            ),
            ContextStep::Fail { error, stage } => ContextStepView::Fail(error@, stage@),
        }
    }
}

/// Whether a batch may fill in or submit a form.
pub open spec fn touches_forms(commands: Seq<CommandView>) -> bool {
    exists|i: int|
        0 <= i < commands.len() && (#[trigger] commands[i] is SetValue || commands[i] is Click)
}

/// Whether a batch may fill in or submit a form.
pub fn commands_touch_forms(commands: &[Command]) -> (res: bool)
    ensures
        res == touches_forms(commands_view(commands@)),
{
    let ghost all = commands_view(commands@);
    let mut i: usize = 0;
    while i < commands.len()
        invariant
            i <= commands@.len(),
            all == commands_view(commands@),
            forall|j: int| 0 <= j < i ==> !(#[trigger] all[j] is SetValue || all[j] is Click),
        decreases commands@.len() - i,
    {
        assert(all[i as int] == commands@[i as int]@);
        match &commands[i] {
            Command::SetValue { .. } | Command::Click { .. } => {
                return true;
            },
            _ => {},
        }
        i += 1;
    }
    false
}

/// How far a request has come: what is waited for, and the origin for which a login is to be
/// stored once the commands have run.
#[verifier::ext_equal]
pub struct RunView {
    pub request: RequestView,
    pub phase: ContextPhase,
    pub origin: Option<Seq<char>>,
}

/// What is waited for first.
pub open spec fn first_phase(r: RequestView, auto_store: bool) -> ContextPhase {
    match r {
        RequestView::InjectSession(_) => ContextPhase::Injecting,
        RequestView::SnapshotSession => ContextPhase::CapturingSession,
        RequestView::SaveSessionProfile => ContextPhase::CapturingSession,
        RequestView::LoadSessionProfile => ContextPhase::LoadingProfile,
        RequestView::Navigate(_) => ContextPhase::Navigating,
        RequestView::Execute(commands) => if auto_store && touches_forms(commands) {
            ContextPhase::CapturingDom
        } else {
            ContextPhase::Executing
        },
        RequestView::SnapshotDom => ContextPhase::CapturingDom,
        RequestView::Events(_) => ContextPhase::ReadingEvents,
        RequestView::EnableTrace(_) => ContextPhase::EnablingTrace,
    }
}

/// What is done first: a page on which a login may be filled in or submitted is captured
/// before the commands run, if logins are stored.
pub open spec fn first_action(r: RequestView, auto_store: bool) -> ActionView {
    match r {
        RequestView::InjectSession(s) => ActionView::Inject(s),
        RequestView::SnapshotSession => ActionView::CaptureSession,
        RequestView::SaveSessionProfile => ActionView::CaptureSession,
        RequestView::LoadSessionProfile => ActionView::LoadProfile,
        RequestView::Navigate(url) => ActionView::Navigate(url),
        RequestView::Execute(commands) => if auto_store && touches_forms(commands) {
            ActionView::CaptureDom
        } else {
            ActionView::Execute(commands)
        },
        RequestView::SnapshotDom => ActionView::CaptureDom,
        RequestView::Events(since) => ActionView::ReadEvents(since),
        RequestView::EnableTrace(path) => ActionView::EnableTrace(path),
    }
}

/// What is noticed of logins when a request starts: going to another origin forgets them.
pub open spec fn capture_at_start(r: RequestView, c: CaptureView) -> CaptureView {
    match r {
        RequestView::Navigate(url) => capture_after_navigation(c, url),
        _ => c,
    }
}

/// Whether a request can be at a phase.
pub open spec fn phase_fits(r: RequestView, phase: ContextPhase) -> bool {
    match phase {
        ContextPhase::Injecting => r is InjectSession || r is LoadSessionProfile,
        ContextPhase::Saving => r is InjectSession || r is SaveSessionProfile,
        ContextPhase::CapturingSession => r is SnapshotSession || r is SaveSessionProfile,
        ContextPhase::LoadingProfile => r is LoadSessionProfile,
        ContextPhase::Navigating => r is Navigate,
        ContextPhase::CapturingDom => r is SnapshotDom || r is Execute,
        ContextPhase::Executing => r is Execute,
        ContextPhase::StoringCredential => r is Execute,
        ContextPhase::ReadingEvents => r is Events,
        ContextPhase::EnablingTrace => r is EnableTrace,
    }
}

/// Whether an outcome is one of what is waited for.
pub open spec fn outcome_fits(phase: ContextPhase, event: OutcomeView) -> bool {
    event is Failed || match phase {
        ContextPhase::CapturingSession => event is Session,
        ContextPhase::LoadingProfile => event is Profile,
        ContextPhase::CapturingDom => event is Dom,
        _ => event is Done,
    }
}

/// What a failed action is said to have been doing.
pub open spec fn failed_stage(run: RunView) -> Seq<char> {
    if run.request is Execute && run.phase is CapturingDom {
        "capturing pre-execution DOM snapshot"@
    } else {
        "native operation failed"@
    }
}

/// The origin for which a login is to be stored once the commands have run: that of the page,
/// if a complete login was noticed and the commands submit it.
pub open spec fn store_origin(
    nodes: Seq<NodeView>,
    commands: Seq<CommandView>,
    url: Option<Seq<char>>,
    c: CaptureView,
) -> Option<Seq<char>> {
    if c.username is Some && c.password is Some && clicks_submit(nodes, commands) && url is Some {
        Some(origin_of(url->Some_0))
    } else {
        None
    }
}

/// The login that is stored after the commands have run, if one is.
pub open spec fn login_to_store(run: RunView, c: CaptureView) -> Option<InputView> {
    match run.origin {
        Some(origin) => noticed_credential(c, origin),
        None => None,
    }
}

/// What is noticed of logins after an action succeeded.
pub open spec fn capture_after(
    run: RunView,
    event: OutcomeView,
    url: Option<Seq<char>>,
    c: CaptureView,
) -> CaptureView {
    match (run.request, run.phase, event) {
        (
            RequestView::Execute(commands),
            ContextPhase::CapturingDom,
            OutcomeView::Dom(nodes),
        ) => capture_commands(nodes, capture_on_page(c, url), commands),
        (
            RequestView::Execute(_),
            ContextPhase::StoringCredential,
            OutcomeView::Done,
        ) => nothing_captured(),
        _ => c,
    }
}

/// What follows an action that succeeded.
pub open spec fn step_after(
    run: RunView,
    event: OutcomeView,
    url: Option<Seq<char>>,
    c: CaptureView,
) -> ContextStepView {
    match (run.request, run.phase, event) {
        (_, _, OutcomeView::Failed(e)) => ContextStepView::Fail(e, failed_stage(run)),
        (RequestView::InjectSession(s), ContextPhase::Injecting, _) => ContextStepView::Act(
            ActionView::SaveProfile(s),
        ),
        (RequestView::InjectSession(_), _, _) => ContextStepView::Answer(AnswerView::Nothing),
        (RequestView::SnapshotSession, _, OutcomeView::Session(s)) => ContextStepView::Answer(
            AnswerView::Session(s),
        ),
        (
            RequestView::SaveSessionProfile,
            ContextPhase::CapturingSession,
            OutcomeView::Session(s),
        ) => ContextStepView::Act(ActionView::SaveProfile(s)),
        (RequestView::SaveSessionProfile, _, _) => ContextStepView::Answer(AnswerView::Profile),
        (
            RequestView::LoadSessionProfile,
            ContextPhase::LoadingProfile,
            OutcomeView::Profile(Some(s)),
        ) => ContextStepView::Act(ActionView::Inject(s)),
        (RequestView::LoadSessionProfile, _, _) => ContextStepView::Answer(AnswerView::Profile),
        (RequestView::Navigate(_), _, _) => ContextStepView::Answer(AnswerView::NavigationEvents),
        (RequestView::Execute(commands), ContextPhase::CapturingDom, _) => ContextStepView::Act(
            ActionView::Execute(commands),
        ),
        (RequestView::Execute(_), ContextPhase::Executing, _) => match login_to_store(run, c) {
            Some(input) => ContextStepView::Act(ActionView::StoreCredential(input)),
            None => ContextStepView::Answer(AnswerView::Report),
        },
        (RequestView::Execute(_), _, _) => ContextStepView::Answer(AnswerView::Report),
        (RequestView::SnapshotDom, _, OutcomeView::Dom(nodes)) => ContextStepView::Answer(
            AnswerView::Dom(nodes),
        ),
        (RequestView::Events(_), _, _) => ContextStepView::Answer(AnswerView::EventWindow),
        _ => ContextStepView::Answer(AnswerView::Nothing),
    }
}

/// How far a request has come after an outcome.
pub open spec fn run_after(
    run: RunView,
    event: OutcomeView,
    url: Option<Seq<char>>,
    c: CaptureView,
) -> RunView {
    match step_after(run, event, url, c) {
        ContextStepView::Act(a) => RunView {
            phase: match a {
                ActionView::Inject(_) => ContextPhase::Injecting,
                ActionView::SaveProfile(_) => ContextPhase::Saving,
                ActionView::Execute(_) => ContextPhase::Executing,
                ActionView::StoreCredential(_) => ContextPhase::StoringCredential,
                _ => run.phase,
            },
            origin: match (run.request, run.phase, event) {
                (
                    RequestView::Execute(commands),
                    ContextPhase::CapturingDom,
                    OutcomeView::Dom(nodes),
                ) => store_origin(nodes, commands, url, capture_after(run, event, url, c)),
                _ => run.origin,
            },
            ..run
        },
        _ => run,
    }
}

/// A request that is being carried out.
#[derive(Debug)]
pub struct ContextRun {
    request: ContextRequest,
    phase: ContextPhase,
    origin: Option<String>,
}

impl View for ContextRun {
    type V = RunView;

    closed spec fn view(&self) -> RunView {
        RunView { request: self.request@, phase: self.phase, origin: opt_text(self.origin) }
    }
}

impl ContextRun {
    #[verifier::type_invariant]
    closed spec fn inv(&self) -> bool {
        phase_fits(self.request@, self.phase)
    }

    /// Starts to carry out a request.
    pub fn begin(
        request: ContextRequest,
        auto_store: bool,
        capture: &mut AutoCredentialCapture,
    ) -> (res: (Self, ContextAction))
        ensures
            res.0@ == (RunView {
                request: request@,
                phase: first_phase(request@, auto_store),
                origin: None,
            }),
            res.1@ == first_action(request@, auto_store),
            final(capture)@ == capture_at_start(request@, old(capture)@),
    {
        let (phase, action) = match &request {
            ContextRequest::InjectSession(s) => (
                ContextPhase::Injecting,
                ContextAction::Inject(s.clone()),
            ),
            ContextRequest::SnapshotSession => (
                ContextPhase::CapturingSession,
                ContextAction::CaptureSession,
            ),
            ContextRequest::SaveSessionProfile => (
                ContextPhase::CapturingSession,
                ContextAction::CaptureSession,
            ),
            ContextRequest::LoadSessionProfile => (
                ContextPhase::LoadingProfile,
                ContextAction::LoadProfile,
            ),
            ContextRequest::Navigate(url) => {
                capture.reset_on_explicit_navigation(url.as_str());
                (ContextPhase::Navigating, ContextAction::Navigate(url.clone()))
            },
            ContextRequest::Execute(commands) => {
                if auto_store && commands_touch_forms(commands.as_slice()) {
                    (ContextPhase::CapturingDom, ContextAction::CaptureDom)
                } else {
                    (ContextPhase::Executing, ContextAction::Execute(clone_commands(commands)))
                }
            },
            ContextRequest::SnapshotDom => (
                ContextPhase::CapturingDom,
                ContextAction::CaptureDom,
            ),
            ContextRequest::Events(since) => (
                ContextPhase::ReadingEvents,
                ContextAction::ReadEvents(*since),
            ),
            ContextRequest::EnableTrace(path) => (
                ContextPhase::EnablingTrace,
                ContextAction::EnableTrace(path.clone()),
            ),
        };
        (ContextRun { request, phase, origin: None }, action)
    }

    /// Whether an outcome is one of what is waited for.
    pub fn expects(&self, event: &ContextEvent) -> (res: bool)
        ensures
            res == outcome_fits(self@.phase, event@),
    {
        match event {
            ContextEvent::Failed(_) => true,
            ContextEvent::Session(_) => self.phase == ContextPhase::CapturingSession,
            ContextEvent::Profile(_) => self.phase == ContextPhase::LoadingProfile,
            ContextEvent::Dom(_) => self.phase == ContextPhase::CapturingDom,
            ContextEvent::Done => !(self.phase == ContextPhase::CapturingSession || self.phase
                == ContextPhase::LoadingProfile || self.phase == ContextPhase::CapturingDom),
        }
    }

    /// The request that is being carried out.
    pub fn request(&self) -> (res: &ContextRequest)
        ensures
            res@ == self@.request,
    {
        &self.request
    }

    /// Takes in the outcome of an action on the page at `current_url`, and says what follows.
    pub fn advance(
        self,
        event: ContextEvent,
        current_url: Option<&str>,
        capture: &mut AutoCredentialCapture,
    ) -> (res: (Self, ContextStep))
        requires
            outcome_fits(self@.phase, event@),
        ensures
            res.0@ == run_after(self@, event@, opt_view(current_url), old(capture)@),
            res.1@ == step_after(self@, event@, opt_view(current_url), old(capture)@),
            final(capture)@ == capture_after(
                self@,
                event@,
                opt_view(current_url),
                old(capture)@,
            ),
    {
        proof {
            use_type_invariant(&self);
        }
        let ghost run = self@;
        let ContextRun { request, phase, origin } = self;
        match event {
            ContextEvent::Failed(error) => {
                let stage = match (&request, phase) {
                    (
                        ContextRequest::Execute(_),
                        ContextPhase::CapturingDom,
                    ) => "capturing pre-execution DOM snapshot",
                    _ => "native operation failed",
                };
                (ContextRun { request, phase, origin }, ContextStep::Fail { error, stage })
            },
            ContextEvent::Session(s) => match &request {
                ContextRequest::SnapshotSession => (
                    ContextRun { request, phase, origin },
                    ContextStep::Answer(ContextAnswer::Session(s)),
                ),
                _ => (
                    ContextRun { request, phase: ContextPhase::Saving, origin },
                    ContextStep::Act(ContextAction::SaveProfile(s)),
                ),
            },
            ContextEvent::Profile(stored) => match stored {
                Some(s) => (
                    ContextRun { request, phase: ContextPhase::Injecting, origin },
                    ContextStep::Act(ContextAction::Inject(s)),
                ),
                None => (
                    ContextRun { request, phase, origin },
                    ContextStep::Answer(ContextAnswer::Profile),
                ),
            },
            ContextEvent::Dom(snapshot) => {
                let planned = match &request {
                    ContextRequest::Execute(commands) => {
                        capture.capture_fields(&snapshot, current_url, commands.as_slice());
                        let store = capture.should_persist(&snapshot, commands.as_slice());
                        let next_origin = match current_url {
                            Some(url) => if store {
                                Some(origin_key(url))
                            } else {
                                None
                            },
                            None => None,
                        };
                        Some((clone_commands(commands), next_origin))
                    },
                    _ => None,
                };
                match planned {
                    Some((commands, next_origin)) => (
                        ContextRun {
                            request,
                            phase: ContextPhase::Executing,
                            origin: next_origin,
                        },
                        ContextStep::Act(ContextAction::Execute(commands)),
                    ),
                    None => (
                        ContextRun { request, phase, origin },
                        ContextStep::Answer(ContextAnswer::Dom(snapshot)),
                    ),
                }
            },
            ContextEvent::Done => {
                if phase == ContextPhase::Injecting {
                    let saved = match &request {
                        ContextRequest::InjectSession(s) => Some(s.clone()),
                        _ => None,
                    };
                    return match saved {
                        Some(s) => (
                            ContextRun { request, phase: ContextPhase::Saving, origin },
                            ContextStep::Act(ContextAction::SaveProfile(s)),
                        ),
                        None => (
                            ContextRun { request, phase, origin },
                            ContextStep::Answer(ContextAnswer::Profile),
                        ),
                    };
                }
                if phase == ContextPhase::Executing {
                    let login = match &origin {
                        Some(o) => capture.credential(o.as_str()),
                        None => None,
                    };
                    return match login {
                        Some(input) => (
                            ContextRun { request, phase: ContextPhase::StoringCredential, origin },
                            ContextStep::Act(ContextAction::StoreCredential(input)),
                        ),
                        None => (
                            ContextRun { request, phase, origin },
                            ContextStep::Answer(ContextAnswer::Report),
                        ),
                    };
                }
                let answer = match &request {
                    ContextRequest::SaveSessionProfile => ContextAnswer::Profile,
                    ContextRequest::Navigate(_) => ContextAnswer::NavigationEvents,
                    ContextRequest::Execute(_) => {
                        capture.clear();
                        ContextAnswer::Report
                    },
                    ContextRequest::Events(_) => ContextAnswer::EventWindow,
                    _ => ContextAnswer::Nothing,
                };
                (ContextRun { request, phase, origin }, ContextStep::Answer(answer))
            },
        }
    }
}

/// What the diagnostics take in when an operation ends.
pub fn completion<F: Fn(&str) -> Option<NativeOperationError>>(
    operation: &str,
    failure: Option<(&AegisError, &str)>,
    runtime: RuntimeStatus,
    read: F,
    now_ms: u64,
) -> (res: DiagnosticsChange)
    requires
        forall|text: &str| #[trigger] read.requires((text,)),
    ensures
        match failure {
            None => res == (DiagnosticsChange::Succeed { runtime }),
            Some((error, stage)) => res matches DiagnosticsChange::Fail { failure: f, runtime: r }
                && r == runtime && exists|native: Option<NativeView>| #[trigger]
                carries(read, error_text(error@), native) && f@ == failure_of(
                    operation@,
                    stage@,
                    error_text(error@),
                    native,
                    now_ms,
                ),
        },
{
    match failure {
        None => DiagnosticsChange::Succeed { runtime },
        Some((error, stage)) => DiagnosticsChange::Fail {
            failure: failure_from_error(operation, stage, error, read, now_ms),
            runtime,
        },
    }
}

/// How many actions a request can still take.
pub open spec fn actions_left(r: RequestView, phase: ContextPhase) -> nat {
    match phase {
        ContextPhase::CapturingDom => 3,
        ContextPhase::Executing => 2,
        ContextPhase::CapturingSession => 2,
        ContextPhase::LoadingProfile => 2,
        ContextPhase::Injecting => if r is InjectSession {
            2
        } else {
            1
        },
        _ => 1,
    }
}

/// Every request ends: each action leaves fewer to come, and no request takes more than
/// three.
pub proof fn law_requests_end(
    run: RunView,
    event: OutcomeView,
    url: Option<Seq<char>>,
    c: CaptureView,
)
    requires
        phase_fits(run.request, run.phase),
        outcome_fits(run.phase, event),
    ensures
        actions_left(run.request, run.phase) <= 3,
        step_after(run, event, url, c) is Act ==> {
            let next = run_after(run, event, url, c);
            &&& phase_fits(next.request, next.phase)
            &&& actions_left(next.request, next.phase) < actions_left(run.request, run.phase)
        },
{
}

/// A session that is injected is the session that is saved in the profile, and only once the
/// runtime took it.
pub proof fn law_injected_session_is_saved(
    s: SessionView,
    auto_store: bool,
    event: OutcomeView,
    url: Option<Seq<char>>,
    c: CaptureView,
)
    requires
        outcome_fits(ContextPhase::Injecting, event),
    ensures
        ({
            let r = RequestView::InjectSession(s);
            let run = RunView { request: r, phase: first_phase(r, auto_store), origin: None };
            &&& first_action(r, auto_store) == ActionView::Inject(s)
            &&& step_after(run, event, url, c) == ContextStepView::Act(ActionView::SaveProfile(s))
                <==> event is Done
        }),
{
}

/// Where logins are not to be stored, commands run without the page being captured first, and
/// no login is stored after them.
pub proof fn law_logins_stay_out_unless_stored(
    commands: Seq<CommandView>,
    event: OutcomeView,
    url: Option<Seq<char>>,
    c: CaptureView,
)
    requires
        outcome_fits(ContextPhase::Executing, event),
    ensures
        ({
            let r = RequestView::Execute(commands);
            let run = RunView { request: r, phase: first_phase(r, false), origin: None };
            &&& first_action(r, false) == ActionView::Execute(commands)
            &&& !(step_after(run, event, url, c) is Act)
            &&& capture_after(run, event, url, c) == c
        }),
{
}

/// A login is stored only once the commands that submit it have run, and it is forgotten once
/// it is stored, but not where storing it failed.
pub proof fn law_login_is_stored_after_the_commands(
    run: RunView,
    event: OutcomeView,
    url: Option<Seq<char>>,
    c: CaptureView,
)
    requires
        phase_fits(run.request, run.phase),
        outcome_fits(run.phase, event),
    ensures
        step_after(run, event, url, c) matches ContextStepView::Act(
            ActionView::StoreCredential(_),
        ) ==> run.phase is Executing && event is Done && run.origin is Some,
        run.phase is StoringCredential && event is Done ==> capture_after(run, event, url, c)
            == nothing_captured(),
        event is Failed ==> capture_after(run, event, url, c) == c,
{
}

/// Every request is reported under the name of its operation and with what it is at.
pub proof fn law_names_of_requests(r: RequestView)
    ensures
        r is InjectSession ==> operation_of(r) == "inject_session"@ && stage_of(r) == "injecting session"@,
        r is SnapshotSession ==> operation_of(r) == "snapshot_session"@ && stage_of(r) == "capturing session state"@,
        r is SaveSessionProfile ==> operation_of(r) == "save_session_profile"@ && stage_of(r) == "persisting session profile"@,
        r is LoadSessionProfile ==> operation_of(r) == "load_session_profile"@ && stage_of(r) == "loading session profile"@,
        r is Execute ==> operation_of(r) == "execute"@ && stage_of(r) == "executing browser command batch"@,
        r is SnapshotDom ==> operation_of(r) == "snapshot_dom"@ && stage_of(r) == "capturing DOM snapshot"@,
        r is Events ==> operation_of(r) == "events"@ && stage_of(r) == "draining runtime events"@,
        r is EnableTrace ==> operation_of(r) == "enable_trace"@ && stage_of(r) == "enabling trace recording"@,
        r matches RequestView::Navigate(url) ==> operation_of(r) == "navigate"@ && stage_of(r)
            == "navigating to "@ + url,
{
}

/// A request starts with what it asks for: a session is injected or captured, a profile loaded, a
/// page asked for, the document captured, events read from the number that is given, a trace
/// recorded to the file that is given. Commands are executed at once, unless logins are stored and
/// one of them sets a value or clicks: then the document is captured first.
pub proof fn law_requests_start(r: RequestView, auto_store: bool, c: CaptureView)
    ensures
        ({
            let act = first_action(r, auto_store);
            &&& r matches RequestView::InjectSession(s) ==> act == ActionView::Inject(s)
            &&& r is SnapshotSession || r is SaveSessionProfile ==> act is CaptureSession
            &&& r is LoadSessionProfile ==> act is LoadProfile
            &&& r matches RequestView::Navigate(url) ==> act == ActionView::Navigate(url)
            &&& r is SnapshotDom ==> act is CaptureDom
            &&& r matches RequestView::Events(since) ==> act == ActionView::ReadEvents(since)
            &&& r matches RequestView::EnableTrace(path) ==> act == ActionView::EnableTrace(path)
            &&& r matches RequestView::Execute(commands) ==> {
                let looks = auto_store && exists|i: int|
                    0 <= i < commands.len() && (#[trigger] commands[i] is SetValue
                        || commands[i] is Click);
                &&& looks ==> act is CaptureDom && first_phase(r, auto_store) is CapturingDom
                &&& !looks ==> act == ActionView::Execute(commands) && first_phase(
                    r,
                    auto_store,
                ) is Executing
            }
            &&& phase_fits(r, first_phase(r, auto_store))
        }),
        r matches RequestView::Navigate(url) ==> capture_at_start(r, c) == capture_after_navigation(
            c,
            url,
        ),
        !(r is Navigate) ==> capture_at_start(r, c) == c,
{
}

/// A step that failed ends the request with that failure, whatever the request is.
pub proof fn law_failed_step_ends_the_request(
    run: RunView,
    e: ErrorView,
    url: Option<Seq<char>>,
    c: CaptureView,
)
    ensures
        step_after(run, OutcomeView::Failed(e), url, c) == ContextStepView::Fail(
            e,
            if run.request is Execute && run.phase is CapturingDom {
                "capturing pre-execution DOM snapshot"@
            } else {
                "native operation failed"@
            },
        ),
        run_after(run, OutcomeView::Failed(e), url, c) == run,
        capture_after(run, OutcomeView::Failed(e), url, c) == c,
{
}

/// What a request is answered: the captured session or document themselves, the profile once it is
/// saved or loaded, the events of a navigation, the window of events, or nothing. A session is
/// saved as it was captured, and a profile's session injected as it was loaded.
pub proof fn law_requests_are_answered(
    run: RunView,
    s: SessionView,
    nodes: Seq<NodeView>,
    url: Option<Seq<char>>,
    c: CaptureView,
)
    ensures
        run.request is SnapshotSession ==> step_after(run, OutcomeView::Session(s), url, c)
            == ContextStepView::Answer(AnswerView::Session(s)),
        run.request is SaveSessionProfile && run.phase is CapturingSession ==> step_after(
            run,
            OutcomeView::Session(s),
            url,
            c,
        ) == ContextStepView::Act(ActionView::SaveProfile(s)),
        run.request is SaveSessionProfile && run.phase is Saving ==> step_after(
            run,
            OutcomeView::Done,
            url,
            c,
        ) == ContextStepView::Answer(AnswerView::Profile),
        run.request is LoadSessionProfile && run.phase is LoadingProfile ==> step_after(
            run,
            OutcomeView::Profile(Some(s)),
            url,
            c,
        ) == ContextStepView::Act(ActionView::Inject(s)) && step_after(
            run,
            OutcomeView::Profile(None),
            url,
            c,
        ) == ContextStepView::Answer(AnswerView::Profile),
        run.request is LoadSessionProfile && run.phase is Injecting ==> step_after(
            run,
            OutcomeView::Done,
            url,
            c,
        ) == ContextStepView::Answer(AnswerView::Profile),
        run.request is Navigate ==> step_after(run, OutcomeView::Done, url, c)
            == ContextStepView::Answer(AnswerView::NavigationEvents),
        run.request is SnapshotDom ==> step_after(run, OutcomeView::Dom(nodes), url, c)
            == ContextStepView::Answer(AnswerView::Dom(nodes)),
        run.request is Events ==> step_after(run, OutcomeView::Done, url, c)
            == ContextStepView::Answer(AnswerView::EventWindow),
        run.request is EnableTrace ==> step_after(run, OutcomeView::Done, url, c)
            == ContextStepView::Answer(AnswerView::Nothing),
        run.request matches RequestView::InjectSession(given) ==> (run.phase is Injecting
            ==> step_after(run, OutcomeView::Done, url, c) == ContextStepView::Act(
            ActionView::SaveProfile(given),
        )) && (run.phase is Saving ==> step_after(run, OutcomeView::Done, url, c)
            == ContextStepView::Answer(AnswerView::Nothing)),
{
}

/// Commands that were looked at first are executed as they were given; what they set is noticed on
/// the captured document, and where they submit a complete login, the origin of the page is that
/// under which it is stored. Once they ran, a login that is to be stored is stored, and the answer
/// is the report in any case; a stored login is forgotten.
pub proof fn law_commands_are_run_and_logins_noticed(
    run: RunView,
    commands: Seq<CommandView>,
    nodes: Seq<NodeView>,
    url: Option<Seq<char>>,
    c: CaptureView,
)
    requires
        run.request == RequestView::Execute(commands),
    ensures
        run.phase is CapturingDom ==> {
            let seen = OutcomeView::Dom(nodes);
            let after = capture_after(run, seen, url, c);
            let next = run_after(run, seen, url, c);
            &&& step_after(run, seen, url, c) == ContextStepView::Act(ActionView::Execute(commands))
            &&& after == capture_commands(nodes, capture_on_page(c, url), commands)
            &&& next.phase is Executing && next.request == run.request
            &&& next.origin is Some <==> after.username is Some && after.password is Some
                && clicks_submit(nodes, commands) && url is Some
            &&& next.origin is Some ==> next.origin->Some_0 == origin_of(url->Some_0)
        },
        run.phase is Executing ==> {
            let step = step_after(run, OutcomeView::Done, url, c);
            let next = run_after(run, OutcomeView::Done, url, c);
            let stores = run.origin is Some && c.username is Some && c.password is Some;
            &&& stores ==> step == ContextStepView::Act(
                ActionView::StoreCredential(noticed_credential(c, run.origin->Some_0)->Some_0),
            ) && next.phase is StoringCredential
            &&& !stores ==> step == ContextStepView::Answer(AnswerView::Report)
            &&& capture_after(run, OutcomeView::Done, url, c) == c
        },
        run.phase is StoringCredential ==> {
            let after = capture_after(run, OutcomeView::Done, url, c);
            &&& step_after(run, OutcomeView::Done, url, c) == ContextStepView::Answer(
                AnswerView::Report,
            )
            &&& after.username is None && after.password is None && after.origin is None
        },
{
}

} // verus!
