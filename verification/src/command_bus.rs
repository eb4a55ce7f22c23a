//! Commands of the user interface to the engine, through a bounded queue.

use vstd::prelude::*;

use crate::channel::{
    bounded_queue, same_receiver, same_sender, send_timeout, try_recv, try_send, unbounded_queue,
    SendOutcome,
};
use crate::event::SyncReason;
use crate::ids::{BlockId, DocId, PeerId};

verus! {

/// How many commands wait at most, where nothing else is said.
pub const DEFAULT_COMMAND_CAPACITY: usize = 256;

/// A command.
#[derive(Debug, PartialEq, Eq)]
pub enum Command {
    CreateDocument { doc_id: DocId, kind: String },
    CreateBlock { doc_id: DocId, block_id: BlockId, kind: String },
    ApplyUserEdit { doc_id: DocId, block_id: BlockId, edit_bytes: Vec<u8> },
    RequestFastResume,
    RequestSync { peer_id: PeerId, reason: SyncReason },
    PeerOnline { peer_id: PeerId },
    NetworkChanged { online: bool, net_type: String },
    TriggerHotPath,
    ExitHotPath,
    Shutdown,
}

/// Why a command was not taken.
#[derive(Debug, Clone, Copy, PartialEq, Eq, Structural)]
pub enum CommandBusError {
    QueueFull,
    Disconnected,
    Timeout,
}

/// The text shown for a command error.
pub open spec fn command_error_text(e: CommandBusError) -> Seq<char> {
    match e {
        CommandBusError::QueueFull => "命令队列已满"@,
        CommandBusError::Disconnected => "命令队列已断开"@,
        CommandBusError::Timeout => "命令发送超时"@,
    }
}

impl CommandBusError {
    /// The text shown for this error.
    pub fn message(&self) -> (r: String)
        ensures
            r@ == command_error_text(*self),
    {
        match self {
            CommandBusError::QueueFull => "命令队列已满".to_owned(),
            CommandBusError::Disconnected => "命令队列已断开".to_owned(),
            CommandBusError::Timeout => "命令发送超时".to_owned(),
        }
    }
}

/// What sending a command without waiting leads to.
pub open spec fn try_send_answer(outcome: SendOutcome<Command>) -> Result<(), CommandBusError> {
    match outcome {
        SendOutcome::Sent => Ok(()),
        SendOutcome::Full(_) => Err(CommandBusError::QueueFull),
        SendOutcome::Disconnected(_) => Err(CommandBusError::Disconnected),
    }
}

/// What sending a command with a time limit leads to.
pub open spec fn send_timeout_answer(outcome: SendOutcome<Command>) -> Result<
    (),
    CommandBusError,
> {
    match outcome {
        SendOutcome::Sent => Ok(()),
        SendOutcome::Full(_) => Err(CommandBusError::Timeout),
        SendOutcome::Disconnected(_) => Err(CommandBusError::Disconnected),
    }
}

/// What sending a command without waiting leads to.
pub fn answer_try_send(outcome: SendOutcome<Command>) -> (r: Result<(), CommandBusError>)
    ensures
        r == try_send_answer(outcome),
{
    match outcome {
        SendOutcome::Sent => Ok(()),
        SendOutcome::Full(_) => Err(CommandBusError::QueueFull),
        SendOutcome::Disconnected(_) => Err(CommandBusError::Disconnected),
    }
}

/// What sending a command with a time limit leads to.
pub fn answer_send_timeout(outcome: SendOutcome<Command>) -> (r: Result<(), CommandBusError>)
    ensures
        r == send_timeout_answer(outcome),
{
    match outcome {
        SendOutcome::Sent => Ok(()),
        SendOutcome::Full(_) => Err(CommandBusError::Timeout),
        SendOutcome::Disconnected(_) => Err(CommandBusError::Disconnected),
    }
}

/// Both ends of the queue of commands.
#[derive(Debug)]
pub struct CommandBus {
    tx: crossbeam_channel::Sender<Command>,
    rx: crossbeam_channel::Receiver<Command>,
}

impl Clone for CommandBus {
    /// Another handle on the same queue.
    fn clone(&self) -> (r: Self)
        ensures
            self.shares_queue(r),
    {
        CommandBus { tx: same_sender(&self.tx), rx: same_receiver(&self.rx) }
    }
}

impl Default for CommandBus {
    fn default() -> (r: Self)
        ensures
            r.holds_at_most(DEFAULT_COMMAND_CAPACITY),
    {
        CommandBus::new()
    }
}

impl CommandBus {
    /// Whether the two ends are those of a queue that was made for this many commands.
    pub closed spec fn holds_at_most(&self, capacity: usize) -> bool {
        call_ensures(bounded_queue::<Command>, (capacity,), (self.tx, self.rx))
    }

    /// Whether the two ends are those of a queue that was made without a limit.
    pub closed spec fn holds_any_number(&self) -> bool {
        call_ensures(unbounded_queue::<Command>, (), (self.tx, self.rx))
    }

    /// Whether `other` is a second handle on this queue.
    pub closed spec fn shares_queue(&self, other: CommandBus) -> bool {
        &&& call_ensures(same_sender::<Command>, (&self.tx,), other.tx)
        &&& call_ensures(same_receiver::<Command>, (&self.rx,), other.rx)
    }

    /// The receiving end.
    pub closed spec fn receiving_end(&self) -> crossbeam_channel::Receiver<Command> {
        self.rx
    }

    /// Whether the queue was asked for a command and gave this.
    pub closed spec fn gave(&self, got: Option<Command>) -> bool {
        call_ensures(try_recv::<Command>, (&self.rx,), got)
    }

    /// Whether a command was handed to the queue with this outcome.
    pub closed spec fn handed(&self, cmd: Command, outcome: SendOutcome<Command>) -> bool {
        call_ensures(try_send::<Command>, (&self.tx, cmd), outcome)
    }

    /// Whether a command was handed to the queue, with a limit to how long to wait, with this
    /// outcome.
    pub closed spec fn handed_in_time(
        &self,
        cmd: Command,
        timeout_ms: u64,
        outcome: SendOutcome<Command>,
    ) -> bool {
        call_ensures(send_timeout::<Command>, (&self.tx, cmd, timeout_ms), outcome)
    }

    /// A queue for at most `capacity` commands.
    pub fn bounded(capacity: usize) -> (r: Self)
        ensures
            r.holds_at_most(capacity),
    {
        let (tx, rx) = bounded_queue(capacity);
        CommandBus { tx, rx }
    }

    /// A queue without a limit.
    pub fn unbounded() -> (r: Self)
        ensures
            r.holds_any_number(),
    {
        let (tx, rx) = unbounded_queue();
        CommandBus { tx, rx }
    }

    /// A queue of the default capacity.
    pub fn new() -> (r: Self)
        ensures
            r.holds_at_most(DEFAULT_COMMAND_CAPACITY),
    {
        CommandBus::bounded(DEFAULT_COMMAND_CAPACITY)
    }

    /// Sends a command without waiting. A full queue is an error.
    pub fn try_send(&self, cmd: Command) -> (r: Result<(), CommandBusError>)
        ensures
            exists|outcome: SendOutcome<Command>| #[trigger]
                self.handed(cmd, outcome) && r == try_send_answer(outcome),
            r != Err::<(), CommandBusError>(CommandBusError::Timeout),
    {
        let outcome = try_send(&self.tx, cmd);
        assert(self.handed(cmd, outcome));
        answer_try_send(outcome)
    }

    /// Sends a command, waiting up to `timeout_ms` milliseconds for room.
    pub fn send_timeout(&self, cmd: Command, timeout_ms: u64) -> (r: Result<(), CommandBusError>)
        ensures
            exists|outcome: SendOutcome<Command>| #[trigger]
                self.handed_in_time(cmd, timeout_ms, outcome) && r == send_timeout_answer(outcome),
            r != Err::<(), CommandBusError>(CommandBusError::QueueFull),
    {
        let outcome = send_timeout(&self.tx, cmd, timeout_ms);
        assert(self.handed_in_time(cmd, timeout_ms, outcome));
        answer_send_timeout(outcome)
    }

    /// The receiving end.
    pub fn receiver(&self) -> (r: &crossbeam_channel::Receiver<Command>)
        ensures
            *r == self.receiving_end(),
    {
        &self.rx
    }

    /// Takes a command, if one is waiting. Which one comes rests on all holders of the queue.
    pub fn try_recv(&self) -> (r: Option<Command>)
        ensures
            self.gave(r),
    {
        try_recv(&self.rx)
    }
}

/// Collects commands and sends them together.
#[derive(Debug)]
pub struct CommandBuffer {
    buffer: Vec<Command>,
    bus: CommandBus,
    flush_threshold: usize,
}

impl View for CommandBuffer {
    type V = Seq<Command>;

    closed spec fn view(&self) -> Seq<Command> {
        self.buffer@
    }
}

/// Whether commands were handed to a queue in their order, with these outcomes, up to the first
/// that was not taken, and `r` tells how that ended.
pub open spec fn handed_over(
    bus: CommandBus,
    cmds: Seq<Command>,
    outcomes: Seq<SendOutcome<Command>>,
    r: Result<(), CommandBusError>,
) -> bool {
    &&& outcomes.len() <= cmds.len()
    &&& forall|i: int| 0 <= i < outcomes.len() ==> bus.handed(cmds[i], #[trigger] outcomes[i])
    &&& forall|i: int| 0 <= i < outcomes.len() - 1 ==> (#[trigger] outcomes[i]) is Sent
    &&& if outcomes.len() == 0 {
        cmds.len() == 0 && r is Ok
    } else {
        r == try_send_answer(outcomes.last()) && (outcomes.last() is Sent ==> outcomes.len()
            == cmds.len())
    }
}

impl CommandBuffer {
    /// How many commands are collected before they are sent.
    pub closed spec fn threshold(&self) -> usize {
        self.flush_threshold
    }

    /// The queue that the commands are sent to.
    pub closed spec fn bus(&self) -> CommandBus {
        self.bus
    }

    pub fn new(bus: CommandBus, flush_threshold: usize) -> (r: Self)
        ensures
            r@ == Seq::<Command>::empty(),
            r.threshold() == flush_threshold,
            r.bus() == bus,
    {
        CommandBuffer { buffer: Vec::new(), bus, flush_threshold }
    }

    /// Adds a command, and sends all that were collected once there are enough.
    pub fn push(&mut self, cmd: Command) -> (r: Result<(), CommandBusError>)
        ensures
            final(self).threshold() == old(self).threshold(),
            final(self).bus() == old(self).bus(),
            old(self)@.len() + 1 < old(self).threshold() ==> final(self)@ == old(self)@.push(cmd)
                && r is Ok,
            old(self)@.len() + 1 >= old(self).threshold() ==> final(self)@ == Seq::<
                Command,
            >::empty() && exists|outcomes: Seq<SendOutcome<Command>>| #[trigger]
                handed_over(old(self).bus(), old(self)@.push(cmd), outcomes, r),
    {
        self.buffer.push(cmd);
        if self.buffer.len() >= self.flush_threshold {
            return self.flush();
        }
        Ok(())
    }

    /// Sends all commands that were collected, in their order, up to the first that is not
    /// taken; that one and those after it are lost.
    pub fn flush(&mut self) -> (r: Result<(), CommandBusError>)
        ensures
            final(self)@ == Seq::<Command>::empty(),
            final(self).threshold() == old(self).threshold(),
            final(self).bus() == old(self).bus(),
            exists|outcomes: Seq<SendOutcome<Command>>| #[trigger]
                handed_over(old(self).bus(), old(self)@, outcomes, r),
    {
        let ghost cmds = self@;
        let ghost mut outcomes: Seq<SendOutcome<Command>> = Seq::empty();
        let mut rest: Vec<Command> = Vec::new();
        while self.buffer.len() > 0
            invariant
                self.threshold() == old(self).threshold(),
                self.bus() == old(self).bus(),
                self.buffer@ + rest@.reverse() == cmds,
            decreases self.buffer@.len(),
        {
            let ghost b0 = self.buffer@;
            let ghost r0 = rest@;
            let cmd = self.buffer.pop().unwrap();
            rest.push(cmd);
            assert(b0 =~= self.buffer@.push(cmd));
            assert(self.buffer@ + rest@.reverse() =~= b0 + r0.reverse());
        }
        assert(self.buffer@ =~= Seq::<Command>::empty());
        assert(rest@.reverse() =~= cmds);
        while rest.len() > 0
            invariant
                cmds == old(self)@,
                self.threshold() == old(self).threshold(),
                self.bus() == old(self).bus(),
                self.buffer@ == Seq::<Command>::empty(),
                outcomes.len() + rest@.len() == cmds.len(),
                forall|i: int| 0 <= i < rest@.len() ==> #[trigger] rest@[i] == cmds[cmds.len() - 1 - i],
                forall|i: int|
                    0 <= i < outcomes.len() ==> (#[trigger] outcomes[i]) is Sent && self.bus().handed(
                        cmds[i],
                        outcomes[i],
                    ),
            decreases rest@.len(),
        {
            let cmd = rest.pop().unwrap();
            assert(cmd == cmds[outcomes.len() as int]);
            let r = self.bus.try_send(cmd);
            let ghost outcome = choose|outcome: SendOutcome<Command>| #[trigger]
                self.bus.handed(cmd, outcome) && r == try_send_answer(outcome);
            proof {
                outcomes = outcomes.push(outcome);
            }
            match r {
                Ok(()) => {},
                Err(e) => {
                    assert(handed_over(old(self).bus(), cmds, outcomes, r));
                    return Err(e);
                },
            }
        }
        let r = Ok(());
        assert(handed_over(old(self).bus(), cmds, outcomes, r));
        r
    }
}

/// Sending succeeds just where the queue took the command; a full queue and one that nobody reads
/// are told apart.
pub proof fn law_refusals_are_told_apart(
    outcome: SendOutcome<Command>,
    at_once: Result<(), CommandBusError>,
    in_time: Result<(), CommandBusError>,
)
    requires
        call_ensures(answer_try_send, (outcome,), at_once),
        call_ensures(answer_send_timeout, (outcome,), in_time),
    ensures
        at_once is Ok <==> outcome is Sent,
        in_time is Ok <==> outcome is Sent,
        outcome is Full ==> (at_once matches Err(e) && e is QueueFull) && (in_time matches Err(e)
            && e is Timeout),
        outcome is Disconnected ==> (at_once matches Err(e) && e is Disconnected) && (
        in_time matches Err(e) && e is Disconnected),
{
}

/// Sending a command hands that command to the queue, and tells whether it was taken.
pub proof fn law_command_is_handed_over(
    bus: &CommandBus,
    cmd: Command,
    r: Result<(), CommandBusError>,
)
    requires
        call_ensures(CommandBus::try_send, (bus, cmd), r),
    ensures
        r is Ok ==> bus.handed(cmd, SendOutcome::Sent),
        r matches Err(e) ==> exists|back: SendOutcome<Command>| #[trigger]
            bus.handed(cmd, back) && !(back is Sent) && (back is Full <==> e is QueueFull),
{
    let outcome = choose|outcome: SendOutcome<Command>| #[trigger]
        bus.handed(cmd, outcome) && r == try_send_answer(outcome);
    assert(bus.handed(cmd, outcome));
}

/// Sending a command with a time limit hands that command to the queue with that limit, and tells
/// whether it was taken.
pub proof fn law_command_is_handed_over_in_time(
    bus: &CommandBus,
    cmd: Command,
    timeout_ms: u64,
    r: Result<(), CommandBusError>,
)
    requires
        call_ensures(CommandBus::send_timeout, (bus, cmd, timeout_ms), r),
    ensures
        r is Ok ==> bus.handed_in_time(cmd, timeout_ms, SendOutcome::Sent),
        r matches Err(e) ==> exists|back: SendOutcome<Command>| #[trigger]
            bus.handed_in_time(cmd, timeout_ms, back) && !(back is Sent) && (back is Full <==> e
                is Timeout),
{
    let outcome = choose|outcome: SendOutcome<Command>| #[trigger]
        bus.handed_in_time(cmd, timeout_ms, outcome) && r == send_timeout_answer(outcome);
    assert(bus.handed_in_time(cmd, timeout_ms, outcome));
}

/// Commands that are collected wait until there are enough, and are then all sent, in their order and
/// the last one among them; where each is taken, sending succeeds, and none waits any more.
pub proof fn law_collected_commands_are_sent(
    buffer: &mut CommandBuffer,
    cmd: Command,
    r: Result<(), CommandBusError>,
)
    requires
        call_ensures(CommandBuffer::push, (buffer, cmd), r),
    ensures
        old(buffer)@.len() + 1 < old(buffer).threshold() ==> r is Ok && final(buffer)@.len()
            == old(buffer)@.len() + 1 && final(buffer)@.last() == cmd && forall|i: int|
            0 <= i < old(buffer)@.len() ==> final(buffer)@[i] == #[trigger] old(buffer)@[i],
        old(buffer)@.len() + 1 >= old(buffer).threshold() ==> final(buffer)@.len() == 0 && (r is Ok
            ==> old(buffer).bus().handed(cmd, SendOutcome::Sent) && forall|i: int|
            0 <= i < old(buffer)@.len() ==> old(buffer).bus().handed(
                #[trigger] old(buffer)@[i],
                SendOutcome::Sent,
            )),
{
    if old(buffer)@.len() + 1 >= old(buffer).threshold() && r is Ok {
        let all = old(buffer)@.push(cmd);
        let outcomes = choose|outcomes: Seq<SendOutcome<Command>>| #[trigger]
            handed_over(old(buffer).bus(), all, outcomes, r);
        assert(outcomes.last() is Sent);
        assert forall|i: int| 0 <= i < all.len() implies old(buffer).bus().handed(
            #[trigger] all[i],
            SendOutcome::Sent,
        ) by {
            assert(old(buffer).bus().handed(all[i], outcomes[i]));
            assert(outcomes[i] is Sent);
        }
        assert(all[old(buffer)@.len() as int] == cmd);
        assert forall|i: int| 0 <= i < old(buffer)@.len() implies old(buffer).bus().handed(
            #[trigger] old(buffer)@[i],
            SendOutcome::Sent,
        ) by {
            assert(all[i] == old(buffer)@[i]);
        }
    }
}

/// Flushing sends all that was collected, and succeeds only where each command was taken. Where one is
/// not, those before it were.
pub proof fn law_flush_sends_all(buffer: &mut CommandBuffer, r: Result<(), CommandBusError>)
    requires
        call_ensures(CommandBuffer::flush, (buffer,), r),
    ensures
        final(buffer)@.len() == 0,
        old(buffer)@.len() == 0 ==> r is Ok,
        r is Ok ==> forall|i: int|
            0 <= i < old(buffer)@.len() ==> old(buffer).bus().handed(
                #[trigger] old(buffer)@[i],
                SendOutcome::Sent,
            ),
        r is Err ==> exists|n: int, back: SendOutcome<Command>|
            0 <= n < old(buffer)@.len() && #[trigger] old(buffer).bus().handed(
                old(buffer)@[n],
                back,
            ) && !(back is Sent) && forall|i: int|
                0 <= i < n ==> old(buffer).bus().handed(
                    #[trigger] old(buffer)@[i],
                    SendOutcome::Sent,
                ),
{
    let cmds = old(buffer)@;
    let bus = old(buffer).bus();
    let outcomes = choose|outcomes: Seq<SendOutcome<Command>>| #[trigger]
        handed_over(bus, cmds, outcomes, r);
    let n = outcomes.len() - 1;
    assert forall|i: int|
        0 <= i < n || (r is Ok && 0 <= i < cmds.len()) implies bus.handed(
        #[trigger] cmds[i],
        SendOutcome::Sent,
    ) by {
        assert(bus.handed(cmds[i], outcomes[i]));
        assert(outcomes[i] is Sent);
    }
    if r is Err {
        assert(bus.handed(cmds[n], outcomes[n]));
        assert(!(outcomes[n] is Sent));
    }
}

/// A queue is made for as many commands as is said, and for 256 where nothing is said; a command that is
/// taken is one that the queue gave.
pub proof fn law_queues_are_made_as_said(
    capacity: usize,
    bounded: CommandBus,
    unbounded: CommandBus,
    plain: CommandBus,
    taken: Option<Command>,
)
    requires
        call_ensures(CommandBus::bounded, (capacity,), bounded),
        call_ensures(CommandBus::unbounded, (), unbounded),
        call_ensures(CommandBus::new, (), plain),
        call_ensures(CommandBus::try_recv, (&plain,), taken),
    ensures
        bounded.holds_at_most(capacity),
        unbounded.holds_any_number(),
        plain.holds_at_most(256),
        plain.gave(taken),
{
}

/// A buffer begins empty, for the queue and the number that it was made with.
pub proof fn law_new_buffer_is_empty(bus: CommandBus, flush_threshold: usize, buffer: CommandBuffer)
    requires
        call_ensures(CommandBuffer::new, (bus, flush_threshold), buffer),
    ensures
        buffer@.len() == 0,
        buffer.bus() == bus,
        buffer.threshold() == flush_threshold,
{
}

/// The text that is shown for a command that was not taken says why.
pub proof fn law_shown_refusal_says_why(e: &CommandBusError, r: String)
    requires
        call_ensures(CommandBusError::message, (e,), r),
    ensures
        e is QueueFull ==> r@ == "命令队列已满"@,
        e is Disconnected ==> r@ == "命令队列已断开"@,
        e is Timeout ==> r@ == "命令发送超时"@,
{
}

} // verus!
