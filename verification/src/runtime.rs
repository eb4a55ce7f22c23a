//! The life of the background tasks: which there are, what each does next, and when it ends.
//!
//! The supervisor decides. Whoever runs the tasks does what it says: it executes commands, waits,
//! and calls the engine.

use vstd::prelude::*;
use vstd::string::*;

use crate::command_bus::{Command, CommandBus};
use crate::error::{error_text, CoreError, CoreResult};
use crate::event::{CoreEvent, ErrorScope};
use crate::ids::{BlockId, DocId, PeerId};
use crate::text::join2;

verus! {

/// How often the background tasks run, in milliseconds.
#[derive(Debug, Clone, Copy, PartialEq, Eq, Structural)]
pub struct RuntimeConfig {
    /// How long to wait where no command is there.
    pub poll_interval: u64,
    /// How often to try again what waits for something else.
    pub pending_retry_interval: u64,
    /// How often to hand out actions.
    pub drain_interval: u64,
    /// How often to look for documents to compact.
    pub compaction_interval: u64,
}

/// The intervals where nothing else is said.
pub open spec fn default_config() -> RuntimeConfig {
    RuntimeConfig {
        poll_interval: 10,
        pending_retry_interval: 1_000,
        drain_interval: 50,
        compaction_interval: 60_000,
    }
}

impl Default for RuntimeConfig {
    fn default() -> (r: Self)
        ensures
            r == default_config(),
    {
        RuntimeConfig {
            poll_interval: 10,
            pending_retry_interval: 1_000,
            drain_interval: 50,
            compaction_interval: 60_000,
        }
    }
}

/// How far the supervisor has come.
#[derive(Debug, Clone, Copy, PartialEq, Eq, Structural)]
pub enum RuntimeState {
    /// Not started yet.
    Initialized,
    Running,
    /// No new work is begun; commands that wait are still executed.
    ShuttingDown,
    Stopped,
}

/// The place of a state on the way.
pub open spec fn stage(s: RuntimeState) -> int {
    match s {
        RuntimeState::Initialized => 0,
        RuntimeState::Running => 1,
        RuntimeState::ShuttingDown => 2,
        RuntimeState::Stopped => 3,
    }
}

/// The name of a state.
pub open spec fn state_name(s: RuntimeState) -> Seq<char> {
    match s {
        RuntimeState::Initialized => "Initialized"@,
        RuntimeState::Running => "Running"@,
        RuntimeState::ShuttingDown => "ShuttingDown"@,
        RuntimeState::Stopped => "Stopped"@,
    }
}

/// What is done again and again.
#[derive(Debug, Clone, Copy, PartialEq, Eq, Structural)]
pub enum Job {
    /// Try again what waits for something else.
    ProcessPending,
    /// Hand out actions.
    DrainActions,
    /// Compact documents where it is due.
    CompactAll,
}

/// A task that runs in the background.
#[derive(Debug, Clone, Copy, PartialEq, Eq, Structural)]
pub enum BackgroundTask {
    /// Executes commands as they come.
    Commands,
    /// Does a job, waits so many milliseconds, and does it again.
    Periodic { job: Job, interval: u64 },
}

/// The tasks that are started.
pub open spec fn started_tasks(c: RuntimeConfig) -> Seq<BackgroundTask> {
    seq![
        BackgroundTask::Commands,
        BackgroundTask::Periodic { job: Job::ProcessPending, interval: c.pending_retry_interval },
        BackgroundTask::Periodic { job: Job::DrainActions, interval: c.drain_interval },
        BackgroundTask::Periodic { job: Job::CompactAll, interval: c.compaction_interval },
    ]
}

/// What the task that executes commands does next.
#[derive(Debug)]
pub enum LoopStep {
    Execute(Command),
    /// Wait so many milliseconds.
    Sleep(u64),
    Exit,
}

/// What the task that executes commands does in a state, where this command was there, or none.
pub open spec fn step_for(state: RuntimeState, received: Option<Command>, poll: u64) -> LoopStep {
    if state == RuntimeState::Stopped {
        LoopStep::Exit
    } else {
        match received {
            Some(cmd) => LoopStep::Execute(cmd),
            None => if state == RuntimeState::ShuttingDown {
                LoopStep::Exit
            } else {
                LoopStep::Sleep(poll)
            },
        }
    }
}

/// What the task that executes commands does in a state, where this command was there, or none.
pub fn loop_step(state: RuntimeState, received: Option<Command>, poll: u64) -> (r: LoopStep)
    ensures
        r == step_for(state, received, poll),
{
    match state {
        RuntimeState::Stopped => LoopStep::Exit,
        _ => match received {
            Some(cmd) => LoopStep::Execute(cmd),
            None => match state {
                RuntimeState::ShuttingDown => LoopStep::Exit,
                _ => LoopStep::Sleep(poll),
            },
        },
    }
}

/// What a command asks of the engine.
#[derive(Debug)]
pub enum EngineCall {
    CreateDocument { doc_id: DocId, kind: String },
    CreateBlock { doc_id: DocId, block_id: BlockId, kind: String },
    ApplyUserEdit { doc_id: DocId, block_id: BlockId, edit_bytes: Vec<u8> },
    RequestFastResume,
    OnPeerOnline { peer_id: PeerId },
    NotifyNetworkChanged { online: bool, net_type: String },
    TriggerHotPath,
    ExitHotPath,
}

/// How a command is executed.
#[derive(Debug)]
pub enum CommandPlan {
    /// The engine is called at once.
    Direct(EngineCall),
    /// The engine is called in turn with the other calls for the same document.
    InTurn { doc_id: DocId, call: EngineCall },
    /// Nothing is left to be done.
    Done,
}

/// How a command is executed. Changes to a document come one after the other.
pub open spec fn plan_of(cmd: Command) -> CommandPlan {
    match cmd {
        Command::CreateDocument { doc_id, kind } => CommandPlan::Direct(
            EngineCall::CreateDocument { doc_id, kind },
        ),
        Command::CreateBlock { doc_id, block_id, kind } => CommandPlan::InTurn {
            doc_id,
            call: EngineCall::CreateBlock { doc_id, block_id, kind },
        },
        Command::ApplyUserEdit { doc_id, block_id, edit_bytes } => CommandPlan::InTurn {
            doc_id,
            call: EngineCall::ApplyUserEdit { doc_id, block_id, edit_bytes },
        },
        Command::RequestFastResume => CommandPlan::Direct(EngineCall::RequestFastResume),
        Command::RequestSync { peer_id, .. } => CommandPlan::Direct(
            EngineCall::OnPeerOnline { peer_id },
        ),
        Command::PeerOnline { peer_id } => CommandPlan::Direct(
            EngineCall::OnPeerOnline { peer_id },
        ),
        Command::NetworkChanged { online, net_type } => CommandPlan::Direct(
            EngineCall::NotifyNetworkChanged { online, net_type },
        ),
        Command::TriggerHotPath => CommandPlan::Direct(EngineCall::TriggerHotPath),
        Command::ExitHotPath => CommandPlan::Direct(EngineCall::ExitHotPath),
        Command::Shutdown => CommandPlan::Done,
    }
}

/// The state after a request to shut down.
pub open spec fn shutting_down(s: RuntimeState) -> RuntimeState {
    if s == RuntimeState::Running {
        RuntimeState::ShuttingDown
    } else {
        s
    }
}

/// The state after a command was executed.
pub open spec fn state_after(s: RuntimeState, cmd: Command) -> RuntimeState {
    if cmd is Shutdown {
        shutting_down(s)
    } else {
        s
    }
}

/// The event that reports how a command went, if it went wrong.
pub open spec fn is_report(e: CoreEvent, cause: CoreError) -> bool {
    e matches CoreEvent::ErrorRaised { scope, message } && scope == ErrorScope::Sync && message@
        == error_text(cause)
}

/// The event that reports a command that went wrong.
pub fn command_report(result: CoreResult<()>) -> (r: Option<CoreEvent>)
    ensures
        match (result, r) {
            (Ok(_), None) => true,
            (Err(cause), Some(e)) => is_report(e, cause),
            _ => false,
        },
{
    match result {
        Ok(_) => None,
        Err(cause) => Some(
            CoreEvent::ErrorRaised { scope: ErrorScope::Sync, message: cause.message() },
        ),
    }
}

/// Whether `e` says that the supervisor cannot be started in a state.
pub open spec fn is_start_error(e: CoreError, s: RuntimeState) -> bool {
    e matches CoreError::Sync(t) && t@ == "RuntimeSupervisor 状态不是 Initialized: "@ + state_name(s)
}

/// Decides what the background tasks do.
#[derive(Debug)]
pub struct RuntimeSupervisor {
    command_bus: CommandBus,
    config: RuntimeConfig,
    state: RuntimeState,
}

impl RuntimeSupervisor {
    /// How far the supervisor has come.
    pub closed spec fn at(&self) -> RuntimeState {
        self.state
    }

    /// How often the background tasks run.
    pub closed spec fn intervals(&self) -> RuntimeConfig {
        self.config
    }

    /// The queue that commands come through.
    pub closed spec fn bus(&self) -> CommandBus {
        self.command_bus
    }

    pub fn new(command_bus: CommandBus, config: RuntimeConfig) -> (r: Self)
        ensures
            r.bus() == command_bus,
            r.at() == RuntimeState::Initialized,
            r.intervals() == config,
    {
        RuntimeSupervisor { command_bus, config, state: RuntimeState::Initialized }
    }

    /// The queue that commands come through.
    pub fn command_bus(&self) -> (r: &CommandBus)
        ensures
            *r == self.bus(),
    {
        &self.command_bus
    }

    pub fn state(&self) -> (r: RuntimeState)
        ensures
            r == self.at(),
    {
        self.state
    }

    /// Starts, once, and says which tasks to run.
    pub fn start(&mut self) -> (r: CoreResult<Vec<BackgroundTask>>)
        ensures
            final(self).intervals() == old(self).intervals(),
            final(self).bus() == old(self).bus(),
            match r {
                Ok(tasks) => {
                    &&& old(self).at() == RuntimeState::Initialized
                    &&& final(self).at() == RuntimeState::Running
                    &&& tasks@ == started_tasks(old(self).intervals())
                },
                Err(e) => {
                    &&& old(self).at() != RuntimeState::Initialized
                    &&& final(self).at() == old(self).at()
                    &&& is_start_error(e, old(self).at())
                },
            },
    {
        let name = match self.state {
            RuntimeState::Initialized => "Initialized",
            RuntimeState::Running => "Running",
            RuntimeState::ShuttingDown => "ShuttingDown",
            RuntimeState::Stopped => "Stopped",
        };
        match self.state {
            RuntimeState::Initialized => {},
            _ => {
                return Err(
                    CoreError::Sync(join2("RuntimeSupervisor 状态不是 Initialized: ", name)),
                );
            },
        }
        self.state = RuntimeState::Running;
        let mut tasks: Vec<BackgroundTask> = Vec::new();
        tasks.push(BackgroundTask::Commands);
        tasks.push(
            BackgroundTask::Periodic {
                job: Job::ProcessPending,
                interval: self.config.pending_retry_interval,
            },
        );
        tasks.push(
            BackgroundTask::Periodic {
                job: Job::DrainActions,
                interval: self.config.drain_interval,
            },
        );
        tasks.push(
            BackgroundTask::Periodic {
                job: Job::CompactAll,
                interval: self.config.compaction_interval,
            },
        );
        assert(tasks@ =~= started_tasks(self.config));
        Ok(tasks)
    }

    /// What the task that executes commands does next. Whether a command is there rests on all
    /// who hold the queue.
    pub fn next_step(&self) -> (r: LoopStep)
        ensures
            self.at() == RuntimeState::Stopped ==> r is Exit,
            self.at() != RuntimeState::Stopped ==> exists|received: Option<Command>| #[trigger]
                self.bus().gave(received) && r == step_for(
                    self.at(),
                    received,
                    self.intervals().poll_interval,
                ),
    {
        match self.state {
            RuntimeState::Stopped => LoopStep::Exit,
            _ => {
                let received = self.command_bus.try_recv();
                assert(self.bus().gave(received));
                loop_step(self.state, received, self.config.poll_interval)
            },
        }
    }

    /// Whether a periodic task does its job once more.
    pub fn periodic_continues(&self) -> (r: bool)
        ensures
            r == (stage(self.at()) < stage(RuntimeState::ShuttingDown)),
    {
        match self.state {
            RuntimeState::Initialized | RuntimeState::Running => true,
            RuntimeState::ShuttingDown | RuntimeState::Stopped => false,
        }
    }

    /// Executes a command as far as it concerns the supervisor, and says what is left to be done.
    pub fn execute_command(&mut self, cmd: Command) -> (r: CommandPlan)
        ensures
            r == plan_of(cmd),
            final(self).at() == state_after(old(self).at(), cmd),
            final(self).intervals() == old(self).intervals(),
            final(self).bus() == old(self).bus(),
    {
        match cmd {
            Command::CreateDocument { doc_id, kind } => CommandPlan::Direct(
                EngineCall::CreateDocument { doc_id, kind },
            ),
            Command::CreateBlock { doc_id, block_id, kind } => CommandPlan::InTurn {
                doc_id: doc_id.clone(),
                call: EngineCall::CreateBlock { doc_id, block_id, kind },
            },
            Command::ApplyUserEdit { doc_id, block_id, edit_bytes } => CommandPlan::InTurn {
                doc_id: doc_id.clone(),
                call: EngineCall::ApplyUserEdit { doc_id, block_id, edit_bytes },
            },
            Command::RequestFastResume => CommandPlan::Direct(EngineCall::RequestFastResume),
            Command::RequestSync { peer_id, reason } => CommandPlan::Direct(
                EngineCall::OnPeerOnline { peer_id },
            ),
            Command::PeerOnline { peer_id } => CommandPlan::Direct(
                EngineCall::OnPeerOnline { peer_id },
            ),
            Command::NetworkChanged { online, net_type } => CommandPlan::Direct(
                EngineCall::NotifyNetworkChanged { online, net_type },
            ),
            Command::TriggerHotPath => CommandPlan::Direct(EngineCall::TriggerHotPath),
            Command::ExitHotPath => CommandPlan::Direct(EngineCall::ExitHotPath),
            Command::Shutdown => {
                self.initiate_shutdown();
                CommandPlan::Done
            },
        }
    }

    /// Begins to shut down, where the supervisor is running.
    pub fn initiate_shutdown(&mut self)
        ensures
            final(self).at() == shutting_down(old(self).at()),
            final(self).intervals() == old(self).intervals(),
            final(self).bus() == old(self).bus(),
    {
        match self.state {
            RuntimeState::Running => {
                self.state = RuntimeState::ShuttingDown;
            },
            _ => {},
        }
    }

    /// Stops at once.
    pub fn stop(&mut self)
        ensures
            final(self).at() == RuntimeState::Stopped,
            final(self).intervals() == old(self).intervals(),
            final(self).bus() == old(self).bus(),
    {
        self.state = RuntimeState::Stopped;
    }
}

/// No command, and no request to shut down, takes the supervisor back.
pub proof fn law_states_only_advance(s: RuntimeState, cmd: Command)
    ensures
        stage(s) <= stage(state_after(s, cmd)),
        stage(s) <= stage(shutting_down(s)),
        stage(s) <= stage(RuntimeState::Stopped),
{
}

/// While the supervisor shuts down, every command that is there is still executed, and the task
/// ends where none is left.
pub proof fn law_shutdown_drains(received: Option<Command>, poll: u64)
    ensures
        received matches Some(cmd) ==> step_for(RuntimeState::ShuttingDown, received, poll)
            == LoopStep::Execute(cmd),
        received is None ==> step_for(RuntimeState::ShuttingDown, received, poll) is Exit,
{
}

/// Once the supervisor is stopped, no command is executed.
pub proof fn law_stopped_executes_nothing(received: Option<Command>, poll: u64)
    ensures
        step_for(RuntimeState::Stopped, received, poll) is Exit,
{
}

/// Changes to a document are made in turn with the others for the same document.
pub proof fn law_changes_come_in_turn(cmd: Command)
    ensures
        cmd matches Command::CreateBlock { doc_id, .. } ==> (plan_of(
            cmd,
        ) matches CommandPlan::InTurn { doc_id: d, .. } && d == doc_id),
        cmd matches Command::ApplyUserEdit { doc_id, .. } ==> (plan_of(
            cmd,
        ) matches CommandPlan::InTurn { doc_id: d, .. } && d == doc_id),
{
}

/// Every command but the one to shut down leads to one call of the engine: its own, with its own
/// arguments. Only the command to shut down leaves nothing to be done.
pub proof fn law_command_becomes_its_call(
    supervisor: &mut RuntimeSupervisor,
    cmd: Command,
    plan: CommandPlan,
)
    requires
        call_ensures(RuntimeSupervisor::execute_command, (supervisor, cmd), plan),
    ensures
        plan is Done <==> cmd is Shutdown,
        !(cmd is Shutdown) ==> {
            let call = match plan {
                CommandPlan::Direct(call) => call,
                CommandPlan::InTurn { call, .. } => call,
                CommandPlan::Done => arbitrary(),
            };
            match cmd {
                Command::CreateDocument { doc_id, kind } => call matches EngineCall::CreateDocument {
                    doc_id: d,
                    kind: k,
                } && d == doc_id && k == kind,
                Command::CreateBlock {
                    doc_id,
                    block_id,
                    kind,
                } => call matches EngineCall::CreateBlock { doc_id: d, block_id: b, kind: k } && d
                    == doc_id && b == block_id && k == kind,
                Command::ApplyUserEdit {
                    doc_id,
                    block_id,
                    edit_bytes,
                } => call matches EngineCall::ApplyUserEdit {
                    doc_id: d,
                    block_id: b,
                    edit_bytes: e,
                } && d == doc_id && b == block_id && e == edit_bytes,
                Command::RequestFastResume => call is RequestFastResume,
                Command::RequestSync { peer_id, .. } => call matches EngineCall::OnPeerOnline {
                    peer_id: p,
                } && p == peer_id,
                Command::PeerOnline { peer_id } => call matches EngineCall::OnPeerOnline {
                    peer_id: p,
                } && p == peer_id,
                Command::NetworkChanged {
                    online,
                    net_type,
                } => call matches EngineCall::NotifyNetworkChanged { online: o, net_type: t } && o
                    == online && t == net_type,
                Command::TriggerHotPath => call is TriggerHotPath,
                Command::ExitHotPath => call is ExitHotPath,
                Command::Shutdown => true,
            }
        },
        plan is InTurn <==> cmd is CreateBlock || cmd is ApplyUserEdit,
        plan matches CommandPlan::InTurn { doc_id, .. } ==> match cmd {
            Command::CreateBlock { doc_id: d, .. } => d == doc_id,
            Command::ApplyUserEdit { doc_id: d, .. } => d == doc_id,
            _ => false,
        },
{
}

/// Only the command to shut down changes how far a supervisor has come: a running one shuts down,
/// and no other changes. The queue and the intervals stay.
pub proof fn law_only_shutdown_changes_the_state(
    supervisor: &mut RuntimeSupervisor,
    cmd: Command,
    plan: CommandPlan,
)
    requires
        call_ensures(RuntimeSupervisor::execute_command, (supervisor, cmd), plan),
    ensures
        cmd is Shutdown && old(supervisor).at() is Running ==> final(supervisor).at()
            is ShuttingDown,
        !(cmd is Shutdown && old(supervisor).at() is Running) ==> final(supervisor).at()
            == old(supervisor).at(),
        final(supervisor).bus() == old(supervisor).bus(),
        final(supervisor).intervals() == old(supervisor).intervals(),
{
}

/// A request to shut down does what the command does.
pub proof fn law_shutdown_is_the_command(
    requested: &mut RuntimeSupervisor,
    commanded: &mut RuntimeSupervisor,
    plan: CommandPlan,
)
    requires
        *old(requested) == *old(commanded),
        call_ensures(RuntimeSupervisor::initiate_shutdown, (requested,), ()),
        call_ensures(RuntimeSupervisor::execute_command, (commanded, Command::Shutdown), plan),
    ensures
        final(requested).at() == final(commanded).at(),
        final(requested).at() is ShuttingDown <==> old(requested).at() is Running
            || old(requested).at() is ShuttingDown,
{
}

/// A supervisor starts once: a new one does, runs then, and starts the task for commands and one for
/// each job, each at its own interval. One that was started, or stopped, does not start again.
pub proof fn law_supervisor_starts_once(
    bus: CommandBus,
    config: RuntimeConfig,
    made: RuntimeSupervisor,
    first: &mut RuntimeSupervisor,
    tasks: CoreResult<Vec<BackgroundTask>>,
    second: &mut RuntimeSupervisor,
    again: CoreResult<Vec<BackgroundTask>>,
)
    requires
        call_ensures(RuntimeSupervisor::new, (bus, config), made),
        *old(first) == made,
        call_ensures(RuntimeSupervisor::start, (first,), tasks),
        *old(second) == *final(first),
        call_ensures(RuntimeSupervisor::start, (second,), again),
    ensures
        tasks is Ok,
        final(first).at() is Running,
        again is Err,
        final(second).at() is Running,
        tasks->Ok_0@.len() == 4,
        tasks->Ok_0@.contains(BackgroundTask::Commands),
        tasks->Ok_0@.contains(
            BackgroundTask::Periodic {
                job: Job::ProcessPending,
                interval: config.pending_retry_interval,
            },
        ),
        tasks->Ok_0@.contains(
            BackgroundTask::Periodic { job: Job::DrainActions, interval: config.drain_interval },
        ),
        tasks->Ok_0@.contains(
            BackgroundTask::Periodic { job: Job::CompactAll, interval: config.compaction_interval },
        ),
{
    let s = tasks->Ok_0@;
    assert(s[0] is Commands && s[1] is Periodic && s[2] is Periodic && s[3] is Periodic);
}

/// A supervisor that was stopped, whatever it did before, does not start, runs no periodic job, and
/// ends the task for commands.
pub proof fn law_stopped_supervisor_rests(
    stopped: &mut RuntimeSupervisor,
    later: &mut RuntimeSupervisor,
    started: CoreResult<Vec<BackgroundTask>>,
    step: LoopStep,
    goes_on: bool,
)
    requires
        call_ensures(RuntimeSupervisor::stop, (stopped,), ()),
        *old(later) == *final(stopped),
        call_ensures(RuntimeSupervisor::next_step, (&*final(stopped),), step),
        call_ensures(RuntimeSupervisor::periodic_continues, (&*final(stopped),), goes_on),
        call_ensures(RuntimeSupervisor::start, (later,), started),
    ensures
        final(stopped).at() is Stopped,
        step is Exit,
        !goes_on,
        started is Err,
        final(later).at() is Stopped,
{
}

/// Periodic jobs go on until the supervisor is asked to shut down.
pub proof fn law_jobs_end_with_shutdown(supervisor: &RuntimeSupervisor, goes_on: bool)
    requires
        call_ensures(RuntimeSupervisor::periodic_continues, (supervisor,), goes_on),
    ensures
        supervisor.at() is Running ==> goes_on,
        supervisor.at() is ShuttingDown || supervisor.at() is Stopped ==> !goes_on,
{
}

/// A command that is there is executed, and no other, unless the supervisor is stopped. Where none is
/// there, a running supervisor waits for the interval and one that shuts down ends.
pub proof fn law_waiting_command_is_executed(
    state: RuntimeState,
    received: Option<Command>,
    poll: u64,
    step: LoopStep,
)
    requires
        call_ensures(loop_step, (state, received, poll), step),
    ensures
        step matches LoopStep::Execute(cmd) ==> received == Some(cmd),
        received is Some && !(state is Stopped) ==> step is Execute,
        received is None && (state is Running || state is Initialized) ==> (
        step matches LoopStep::Sleep(ms) && ms == poll),
        step is Exit <==> state is Stopped || (state is ShuttingDown && received is None),
{
}

/// A command that went well is not reported; one that failed is, with what its error says.
pub proof fn law_failure_is_reported(
    result: CoreResult<()>,
    report: Option<CoreEvent>,
    text: String,
)
    requires
        call_ensures(command_report, (result,), report),
        result matches Err(cause) ==> call_ensures(CoreError::message, (&cause,), text),
    ensures
        report is Some <==> result is Err,
        report matches Some(e) ==> (e matches CoreEvent::ErrorRaised { scope, message } && scope
            is Sync && message@ == text@),
{
}

/// What is executed next is what the queue gave; where it gave nothing, a supervisor that runs waits for its
/// own interval.
pub proof fn law_next_step_takes_from_the_queue(supervisor: &RuntimeSupervisor, step: LoopStep)
    requires
        call_ensures(RuntimeSupervisor::next_step, (supervisor,), step),
    ensures
        step matches LoopStep::Execute(cmd) ==> supervisor.bus().gave(Some(cmd)),
        step matches LoopStep::Sleep(ms) ==> supervisor.bus().gave(None) && ms
            == supervisor.intervals().poll_interval,
        supervisor.at() is Running || supervisor.at() is Initialized ==> !(step is Exit),
        supervisor.at() is ShuttingDown ==> !(step is Sleep),
        step is Exit && supervisor.at() is ShuttingDown ==> supervisor.bus().gave(None),
{
    if !(supervisor.at() is Stopped) {
        let received = choose|received: Option<Command>| #[trigger]
            supervisor.bus().gave(received) && step == step_for(
                supervisor.at(),
                received,
                supervisor.intervals().poll_interval,
            );
        assert(supervisor.bus().gave(received));
    }
}

/// A supervisor tells its queue and how far it has come.
pub proof fn law_supervisor_tells_its_state(
    bus: CommandBus,
    config: RuntimeConfig,
    made: RuntimeSupervisor,
    told_bus: &CommandBus,
    told_state: RuntimeState,
    any: &RuntimeSupervisor,
    any_state: RuntimeState,
)
    requires
        call_ensures(RuntimeSupervisor::new, (bus, config), made),
        call_ensures(RuntimeSupervisor::command_bus, (&made,), told_bus),
        call_ensures(RuntimeSupervisor::state, (&made,), told_state),
        call_ensures(RuntimeSupervisor::state, (any,), any_state),
    ensures
        *told_bus == bus,
        told_state is Initialized,
        made.intervals() == config,
        any_state == any.at(),
{
}

/// Where nothing else is said, the queue is looked at every 10 milliseconds, what waits is tried again every
/// second, actions are handed out every 50 milliseconds, and documents are compacted every minute.
pub proof fn law_usual_intervals(config: RuntimeConfig)
    requires
        call_ensures(RuntimeConfig::default, (), config),
    ensures
        config.poll_interval == 10,
        config.pending_retry_interval == 1_000,
        config.drain_interval == 50,
        config.compaction_interval == 60_000,
{
}

} // verus!
