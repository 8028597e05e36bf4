//! Running a batch of commands one after the other.

use vstd::prelude::*;

use crate::commands::command::{
    clone_opt_target, commands_view, opt_target, result_err, results_view, uploads_view, Command,
    CommandResult, CommandTarget, CommandView, ResultView, TargetView, UploadFilePayload,
    UploadView,
};
use crate::dom::node::{DomSnapshot, NodeView};
use crate::events::stream::{events_view, EventView, SequencedEvent, SequencedView};
use crate::runtime::executor::{
    calls_for_document, command_for_host, command_target, command_target_needs_fresh_snapshot,
    needs_fresh_snapshot, needs_snapshot, snapshot_of, AegisRuntime,
};
use crate::transport::bridge::{
    envelopes_view, error_text, opt_snapshot, AegisError, BatchRequest, BatchResponse,
    BatchResponseView, BridgeEventEnvelope,
};

verus! {

/// What is to be done next for a command.
#[derive(Debug)]
pub enum CommandStep {
    /// Wait for a condition on the page.
    Wait,
    /// Ask for media elements.
    Media(Option<CommandTarget>),
    /// Make the document current first.
    RefreshDocument,
    /// Load the files of an upload first.
    LoadFiles(Command),
    /// Send the command to the host.
    Send(Command),
    /// The command has failed with this result; go on with the next one.
    Failed(CommandResult),
}

/// The contents of a `CommandStep`.
pub enum StepView {
    Wait,
    Media(Option<TargetView>),
    RefreshDocument,
    LoadFiles(CommandView),
    Send(CommandView),
    Failed(ResultView),
}

impl View for CommandStep {
    type V = StepView;

    open spec fn view(&self) -> StepView {
        match *self {
            CommandStep::Wait => StepView::Wait,
            CommandStep::Media(target) => StepView::Media(opt_target(target)),
            CommandStep::RefreshDocument => StepView::RefreshDocument,
            CommandStep::LoadFiles(c) => StepView::LoadFiles(c@),
            CommandStep::Send(c) => StepView::Send(c@),
            CommandStep::Failed(r) => StepView::Failed(r@),
        }
    }
}

/// What is to be done for a command once the document is current: it is sent, its files are
/// loaded, or it has failed because its target is not there.
pub open spec fn step_on_document(nodes: Seq<NodeView>, c: CommandView) -> StepView {
    match command_for_host(nodes, c) {
        Ok(resolved) => if resolved is SetFiles {
            StepView::LoadFiles(resolved)
        } else {
            StepView::Send(resolved)
        },
        Err(r) => StepView::Failed(r),
    }
}

/// What is to be done first for a command.
pub open spec fn first_step(nodes: Seq<NodeView>, c: CommandView) -> StepView {
    match c {
        CommandView::WaitFor { .. } => StepView::Wait,
        CommandView::MediaState { target } => StepView::Media(target),
        _ => if needs_fresh_snapshot(c) {
            StepView::RefreshDocument
        } else {
            step_on_document(nodes, c)
        },
    }
}

/// An upload with its files.
pub open spec fn with_files(c: CommandView, files: Seq<UploadView>) -> CommandView {
    match c {
        CommandView::SetFiles { target, paths, .. } => CommandView::SetFiles {
            target,
            paths,
            files: Some(files),
        },
        _ => c,
    }
}

impl AegisRuntime {
    /// What is to be done first for a command.
    pub fn plan_command(&self, command: &Command) -> (res: CommandStep)
        ensures
            res@ == first_step(snapshot_of(self@.dom), command@),
    {
        match command {
            Command::WaitFor { .. } => CommandStep::Wait,
            Command::MediaState { target } => CommandStep::Media(clone_opt_target(target)),
            _ => {
                if command_target_needs_fresh_snapshot(command) {
                    CommandStep::RefreshDocument
                } else {
                    self.plan_on_document(command)
                }
            },
        }
    }

    /// What is to be done for a command once the document is current.
    pub fn plan_on_document(&self, command: &Command) -> (res: CommandStep)
        ensures
            res@ == step_on_document(snapshot_of(self@.dom), command@),
    {
        match self.resolve_command_for_bridge(command) {
            Ok(resolved) => match &resolved {
                Command::SetFiles { .. } => CommandStep::LoadFiles(resolved),
                _ => CommandStep::Send(resolved),
            },
            Err(r) => CommandStep::Failed(r),
        }
    }
}

/// What is to be done for a command when making the document current failed: the command
/// fails with the error's text, and the batch goes on.
pub fn plan_after_refresh_error(error: &AegisError) -> (res: CommandStep)
    ensures
        res@ == StepView::Failed(result_err(error_text(error@))),
{
    CommandStep::Failed(CommandResult::err(error.message()))
}

/// What is to be done for an upload whose files were loaded, or not.
pub fn plan_with_files(command: Command, files: Result<Vec<UploadFilePayload>, CommandResult>) -> (res:
    CommandStep)
    ensures
        res@ == match files {
            Ok(list) => StepView::Send(with_files(command@, uploads_view(list@))),
            Err(r) => StepView::Failed(r@),
        },
{
    match files {
        Err(r) => CommandStep::Failed(r),
        Ok(list) => match command {
            Command::SetFiles { target, paths, files: _ } => CommandStep::Send(
                Command::SetFiles { target, paths, files: Some(list) },
            ),
            other => CommandStep::Send(other),
        },
    }
}

/// What a batch has come to so far.
pub struct CommandStream {
    batch_id: u64,
    results: Vec<CommandResult>,
    events: Vec<SequencedEvent>,
    snapshot: Option<DomSnapshot>,
}

/// The contents of a `CommandStream`.
#[verifier::ext_equal]
pub struct StreamView {
    pub batch_id: u64,
    pub results: Seq<ResultView>,
    pub events: Seq<SequencedView>,
    pub snapshot: Option<Seq<NodeView>>,
}

impl View for CommandStream {
    type V = StreamView;

    closed spec fn view(&self) -> StreamView {
        StreamView {
            batch_id: self.batch_id,
            results: results_view(self.results@),
            events: events_view(self.events@),
            snapshot: opt_snapshot(self.snapshot),
        }
    }
}

/// The events without their numbers.
pub open spec fn bare_events(events: Seq<SequencedView>) -> Seq<EventView> {
    Seq::new(events.len(), |i: int| events[i].event)
}

/// A batch after the host answered a command: its results and events follow, and its
/// snapshot, if it brought one, is the latest.
pub open spec fn stream_after_response(
    s: StreamView,
    response: BatchResponseView,
    emitted: Seq<SequencedView>,
) -> StreamView {
    StreamView {
        results: s.results + response.results,
        events: s.events + emitted,
        snapshot: match response.snapshot {
            Some(nodes) => Some(nodes),
            None => s.snapshot,
        },
        ..s
    }
}

impl CommandStream {
    /// A batch that has not come to anything yet.
    pub fn new(batch_id: u64) -> (res: Self)
        ensures
            res@ == (StreamView {
                batch_id,
                results: Seq::empty(),
                events: Seq::empty(),
                snapshot: None,
            }),
    {
        let res = CommandStream {
            batch_id,
            results: Vec::new(),
            events: Vec::new(),
            snapshot: None,
        };
        assert(res@.results =~= Seq::<ResultView>::empty());
        assert(res@.events =~= Seq::<SequencedView>::empty());
        res
    }

    /// The request for a single command of the batch.
    pub fn request_for(&self, command: Command) -> (res: BatchRequest)
        ensures
            res@.batch_id == self@.batch_id,
            res@.commands == seq![command@],
    {
        let mut commands: Vec<Command> = Vec::new();
        let ghost c = command@;
        commands.push(command);
        assert(commands_view(commands@) =~= seq![c]);
        BatchRequest { batch_id: self.batch_id, commands }
    }

    /// Notes that a command failed; the batch goes on.
    pub fn command_failed(&mut self, result: CommandResult)
        ensures
            final(self)@ == (StreamView { results: old(self)@.results.push(result@), ..old(self)@ }),
    {
        let ghost before = self.results@;
        let ghost added = result@;
        self.results.push(result);
        assert(results_view(self.results@) =~= results_view(before).push(added));
    }

    /// Notes what the host answered to a command.
    pub fn command_answered(&mut self, response: BatchResponse, emitted: Vec<SequencedEvent>)
        ensures
            final(self)@ == stream_after_response(
                old(self)@,
                response@,
                events_view(emitted@),
            ),
    {
        let ghost before = self@;
        let BatchResponse { batch_id: _, mut results, snapshot, events: _ } = response;
        let mut emitted = emitted;
        let ghost r0 = self.results@;
        let ghost r1 = results@;
        let ghost e0 = self.events@;
        let ghost e1 = emitted@;
        self.results.append(&mut results);
        self.events.append(&mut emitted);
        assert(results_view(self.results@) =~= results_view(r0) + results_view(r1));
        assert(events_view(self.events@) =~= events_view(e0) + events_view(e1));
        if let Some(s) = snapshot {
            self.snapshot = Some(s);
        }
    }

    /// Notes the result of a command that was run here, with the document after it.
    pub fn command_run_here(&mut self, result: CommandResult, snapshot: DomSnapshot)
        ensures
            final(self)@ == (StreamView {
                results: old(self)@.results.push(result@),
                snapshot: Some(snapshot@),
                ..old(self)@
            }),
    {
        let ghost before = self.results@;
        let ghost added = result@;
        self.results.push(result);
        assert(results_view(self.results@) =~= results_view(before).push(added));
        self.snapshot = Some(snapshot);
    }

    /// What the whole batch came to: the answer, the results and the events.
    pub fn finish(self) -> (res: (BatchResponse, Vec<CommandResult>, Vec<SequencedEvent>))
        ensures
            res.0@ == (BatchResponseView {
                batch_id: self@.batch_id,
                results: self@.results,
                snapshot: self@.snapshot,
                events: bare_events(self@.events),
            }),
            results_view(res.1@) == self@.results,
            events_view(res.2@) == self@.events,
    {
        let mut results: Vec<CommandResult> = Vec::new();
        let mut i: usize = 0;
        while i < self.results.len()
            invariant
                i <= self.results@.len(),
                results@.len() == i,
                forall|j: int| 0 <= j < i ==> (#[trigger] results@[j])@ == self.results@[j]@,
            decreases self.results@.len() - i,
        {
            results.push(self.results[i].clone());
            i += 1;
        }
        let mut envelopes: Vec<BridgeEventEnvelope> = Vec::new();
        let mut i: usize = 0;
        while i < self.events.len()
            invariant
                i <= self.events@.len(),
                envelopes@.len() == i,
                forall|j: int|
                    0 <= j < i ==> (#[trigger] envelopes@[j]).event@ == self.events@[j].event@,
            decreases self.events@.len() - i,
        {
            envelopes.push(BridgeEventEnvelope { event: self.events[i].event.clone() });
            i += 1;
        }
        assert(results_view(results@) =~= results_view(self.results@));
        assert(envelopes_view(envelopes@) =~= bare_events(events_view(self.events@)));
        let CommandStream { batch_id, results: own, events, snapshot } = self;
        (BatchResponse { batch_id, results, snapshot, events: envelopes }, own, events)
    }
}

/// A failed command adds one result and leaves everything else of the batch as it was, so the
/// commands after it still run and still report.
pub proof fn law_failure_is_local(s: StreamView, r: ResultView)
    ensures
        ({
            let after = StreamView { results: s.results.push(r), ..s };
            &&& after.events == s.events
            &&& after.snapshot == s.snapshot
            &&& after.results.len() == s.results.len() + 1
            &&& after.results.take(s.results.len() as int) == s.results
        }),
{
    assert(s.results.push(r).take(s.results.len() as int) =~= s.results);
}

/// A command whose target is a selector is sent without looking at the document first.
pub proof fn law_selectors_are_left_to_the_host(
    nodes: Seq<NodeView>,
    target: TargetView,
    c: CommandView,
)
    requires
        !calls_for_document(target),
        command_target(c) == Some(target),
        !(c is SetFiles),
    ensures
        first_step(nodes, c) == StepView::Send(c),
{
}

/// A command on a node, by identifier or by a matcher that the host does not take, has the
/// document made current first; one by identifier is then sent as it is.
pub proof fn law_node_commands_renew_the_document(
    nodes: Seq<NodeView>,
    fresh: Seq<NodeView>,
    target: TargetView,
    c: CommandView,
)
    requires
        calls_for_document(target),
        command_target(c) == Some(target),
    ensures
        first_step(nodes, c) == StepView::RefreshDocument,
        target is Id && !(c is SetFiles) ==> step_on_document(fresh, c) == StepView::Send(c),
{
}

/// Scripts and scrolling need no document.
pub proof fn law_scripts_and_scrolling_need_no_document(nodes: Seq<NodeView>, c: CommandView)
    requires
        c is Eval || c is Scroll,
    ensures
        !needs_snapshot(c),
        first_step(nodes, c) == StepView::Send(c),
{
}

/// Files that were loaded are put into the command that asks for them, whose target and paths stay;
/// they are put into no other command.
pub proof fn law_files_are_put_in(c: CommandView, files: Seq<UploadView>)
    ensures
        c is SetFiles ==> with_files(c, files) == (CommandView::SetFiles {
            target: c->SetFiles_target,
            paths: c->SetFiles_paths,
            files: Some(files),
        }),
        !(c is SetFiles) ==> with_files(c, files) == c,
{
}

/// A reply adds its results and its events behind those before, and its snapshot, where it has one,
/// replaces the one before.
pub proof fn law_replies_are_collected(
    s: StreamView,
    response: BatchResponseView,
    emitted: Seq<SequencedView>,
)
    ensures
        ({
            let after = stream_after_response(s, response, emitted);
            &&& after.results == s.results + response.results
            &&& after.events == s.events + emitted
            &&& response.snapshot is Some ==> after.snapshot == response.snapshot
            &&& response.snapshot is None ==> after.snapshot == s.snapshot
            &&& after == (StreamView {
                results: after.results,
                events: after.events,
                snapshot: after.snapshot,
                ..s
            })
        }),
{
}

/// A wait is waited for here and a question about media answered here; a command that needs a
/// current document gets one first, and then, as any other, is sent as the host takes it, with its
/// files loaded first where it has any, or fails with what resolving it gave.
pub proof fn law_steps_of_a_command(nodes: Seq<NodeView>, c: CommandView)
    ensures
        c is WaitFor ==> first_step(nodes, c) is Wait,
        c is MediaState ==> first_step(nodes, c) == StepView::Media(c->MediaState_target),
        !(c is WaitFor) && !(c is MediaState) && needs_fresh_snapshot(c) ==> first_step(
            nodes,
            c,
        ) is RefreshDocument,
        !(c is WaitFor) && !(c is MediaState) && !needs_fresh_snapshot(c) ==> first_step(nodes, c)
            == step_on_document(nodes, c),
        match command_for_host(nodes, c) {
            Ok(d) => if d is SetFiles {
                step_on_document(nodes, c) == StepView::LoadFiles(d)
            } else {
                step_on_document(nodes, c) == StepView::Send(d)
            },
            Err(r) => step_on_document(nodes, c) == StepView::Failed(r),
        },
{
}

} // verus!
