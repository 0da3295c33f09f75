use vstd::prelude::*;

use std::collections::{HashSet, VecDeque};

use crate::cpu::{CpuState, Registers};
use crate::emulator::{run_from, snapshot_of, Machine, MachineSnapshot, SliceResult};

verus! {

broadcast use vstd::std_specs::hash::group_hash_axioms;

/// The number of steps a runner executes between two polls.
pub const SLICE_TICKS: u64 = 50_000;

/// A request to a running machine.
#[derive(Debug)]
pub enum Command {
    Nmi,
    SetInterrupt(bool),
    SetBreakpoints(HashSet<u16>),
    Resume,
    Stop,
}

/// Why a run ended.
#[derive(Clone, Copy, Debug, PartialEq, Eq, Structural)]
pub enum StopReason {
    Stopped,
    Breakpoint(u16),
}

/// What a runner reports.
#[derive(Debug)]
pub enum Event {
    Snapshot(MachineSnapshot),
    Finished(StopReason),
}

/// The state of a machine after a command that does not stop it.
pub open spec fn apply_command(s: CpuState, bps: Set<u16>, c: Command) -> (CpuState, Set<u16>) {
    match c {
        Command::Nmi => (CpuState { regs: Registers { nmi_pending: true, ..s.regs }, ..s }, bps),
        Command::SetInterrupt(v) => (CpuState { regs: Registers { int_line: v, ..s.regs }, ..s }, bps),
        Command::SetBreakpoints(b) => (s, b@),
        Command::Resume => (CpuState { regs: Registers { halted: false, ..s.regs }, ..s }, bps),
        Command::Stop => (s, bps),
    }
}

/// Applies the commands in order up to the first `Stop`: the machine state,
/// the breakpoints, and whether a `Stop` was among them. Commands after the
/// `Stop` are dropped.
pub open spec fn apply_commands(s: CpuState, bps: Set<u16>, cmds: Seq<Command>) -> (CpuState, Set<u16>, bool)
    decreases cmds.len(),
{
    if cmds.len() == 0 {
        (s, bps, false)
    } else if cmds[0] is Stop {
        (s, bps, true)
    } else {
        let (s1, b1) = apply_command(s, bps, cmds[0]);
        apply_commands(s1, b1, cmds.drop_first())
    }
}

/// The first `Stop` among the queued commands ends the run at the next round
/// with the reason `Stopped`: the commands before it take effect, those
/// after it do not, and no further step runs.
pub proof fn lemma_stop_finishes(s: CpuState, bps: Set<u16>, cmds: Seq<Command>, k: int)
    requires
        0 <= k < cmds.len(),
        cmds[k] is Stop,
        forall|j: int| 0 <= j < k ==> !(#[trigger] cmds[j] is Stop),
    ensures
        apply_commands(s, bps, cmds).2,
        apply_commands(s, bps, cmds).0 == apply_commands(s, bps, cmds.take(k)).0,
        apply_commands(s, bps, cmds).1 == apply_commands(s, bps, cmds.take(k)).1,
        round_outcome(apply_commands(s, bps, cmds).0, apply_commands(s, bps, cmds).1, true) == (
            apply_commands(s, bps, cmds).0,
            Some(StopReason::Stopped),
        ),
    decreases k,
{
    if k > 0 {
        let (s1, b1) = apply_command(s, bps, cmds[0]);
        assert(!(cmds[0] is Stop));
        assert forall|j: int| 0 <= j < k - 1 implies !(#[trigger] cmds.drop_first()[j] is Stop) by {
            assert(cmds.drop_first()[j] == cmds[j + 1]);
        }
        lemma_stop_finishes(s1, b1, cmds.drop_first(), k - 1);
        assert(cmds.take(k).drop_first() =~= cmds.drop_first().take(k - 1));
        assert(cmds.take(k)[0] == cmds[0]);
    } else {
        assert(cmds.take(0) =~= Seq::<Command>::empty());
    }
}

/// `e` reports the state `s`.
pub open spec fn is_snapshot(e: Event, s: CpuState) -> bool {
    match e {
        Event::Snapshot(snap) => snapshot_of(snap, s),
        _ => false,
    }
}

/// What one round of a runner does, given the machine state after the
/// commands: a stop reason if the round finishes the run, and the state at
/// the end of the round.
pub open spec fn round_outcome(s: CpuState, bps: Set<u16>, stopped: bool) -> (CpuState, Option<StopReason>) {
    if stopped {
        (s, Some(StopReason::Stopped))
    } else {
        let (s1, r) = run_from(s, 0, SLICE_TICKS as nat, bps);
        match r {
            SliceResult::HitBreakpoint { .. } => (s1, Some(StopReason::Breakpoint(s1.regs.pc))),
            _ => (s1, None),
        }
    }
}

/// The events of a round that ends in state `s`: the stop reason first if
/// the run finished, then a snapshot of `s`.
pub open spec fn round_events(events: Seq<Event>, s: CpuState, reason: Option<StopReason>) -> bool {
    match reason {
        Some(r) => events.len() == 2 && events[0] == Event::Finished(r) && is_snapshot(events[1], s),
        None => events.len() == 1 && is_snapshot(events[0], s),
    }
}

/// Applies one command to a machine; returns whether it is a `Stop` (which
/// changes nothing itself).
pub fn apply_one(machine: &mut Machine, breakpoints: &mut HashSet<u16>, command: Command) -> (stop: bool)
    requires
        old(machine).wf(),
    ensures
        final(machine).wf(),
        stop == command is Stop,
        (final(machine).cpu@, final(breakpoints)@) == apply_command(old(machine).cpu@, old(breakpoints)@, command),
{
    match command {
        Command::Nmi => machine.cpu.nmi(),
        Command::SetInterrupt(v) => machine.cpu.set_interrupt(v),
        Command::SetBreakpoints(bp) => {
            *breakpoints = bp;
        },
        Command::Resume => machine.cpu.set_halted(false),
        Command::Stop => {
            return true;
        },
    }
    false
}

/// Applies queued commands to a machine, in order, up to the first `Stop`;
/// returns whether a `Stop` was found. The queue is left empty.
pub fn apply_pending(
    machine: &mut Machine,
    breakpoints: &mut HashSet<u16>,
    pending: &mut VecDeque<Command>,
) -> (stopped: bool)
    requires
        old(machine).wf(),
    ensures
        final(machine).wf(),
        final(pending)@.len() == 0,
        (final(machine).cpu@, final(breakpoints)@, stopped) == apply_commands(
            old(machine).cpu@,
            old(breakpoints)@,
            old(pending)@,
        ),
{
    loop
        invariant
            machine.wf(),
            apply_commands(machine.cpu@, breakpoints@, pending@) == apply_commands(
                old(machine).cpu@,
                old(breakpoints)@,
                old(pending)@,
            ),
        decreases pending@.len(),
    {
        let ghost before = pending@;
        match pending.pop_front() {
            None => {
                return false;
            },
            Some(command) => {
                assert(before.drop_first() =~= pending@);
                match command {
                    Command::Nmi => machine.cpu.nmi(),
                    Command::SetInterrupt(v) => machine.cpu.set_interrupt(v),
                    Command::SetBreakpoints(bp) => {
                        *breakpoints = bp;
                    },
                    Command::Resume => machine.cpu.set_halted(false),
                    Command::Stop => {
                        pending.clear();
                        return true;
                    },
                }
            },
        }
    }
}

/// One round of a runner after its commands: a stop finishes the run;
/// otherwise a slice runs, and a breakpoint finishes the run. Returns the
/// events of the round and the stop reason if the run finished.
pub fn run_round(machine: &mut Machine, breakpoints: &HashSet<u16>, stopped: bool) -> (r: (
    Vec<Event>,
    Option<StopReason>,
))
    requires
        old(machine).wf(),
    ensures
        final(machine).wf(),
        (final(machine).cpu@, r.1) == round_outcome(old(machine).cpu@, breakpoints@, stopped),
        round_events(r.0@, final(machine).cpu@, r.1),
{
    let mut events: Vec<Event> = Vec::new();
    if stopped {
        let reason = StopReason::Stopped;
        events.push(Event::Finished(reason));
        events.push(Event::Snapshot(machine.snapshot()));
        return (events, Some(reason));
    }
    match machine.run_slice(SLICE_TICKS, breakpoints) {
        SliceResult::HitBreakpoint { .. } => {
            let reason = StopReason::Breakpoint(machine.cpu.get_pc());
            events.push(Event::Finished(reason));
            events.push(Event::Snapshot(machine.snapshot()));
            (events, Some(reason))
        },
        _ => {
            events.push(Event::Snapshot(machine.snapshot()));
            (events, None)
        },
    }
}

/// What a runner on its own thread does after a slice: keep running, wait
/// because the CPU is halted (reporting a snapshot), or finish the run for
/// the given reason.
#[derive(Clone, Copy, Debug, PartialEq, Eq, Structural)]
pub enum WorkerAction {
    Continue,
    Wait,
    Finish(StopReason),
}

/// One round of a runner on its own thread, after its commands: a stop
/// finishes the run; otherwise a slice runs, after which a breakpoint
/// finishes the run (at the PC where it stopped), a halted CPU waits, and
/// a spent budget continues. The state at the end of the round comes with
/// the action.
pub open spec fn worker_outcome(s: CpuState, bps: Set<u16>, stopped: bool) -> (CpuState, WorkerAction) {
    if stopped {
        (s, WorkerAction::Finish(StopReason::Stopped))
    } else {
        let (s1, r) = run_from(s, 0, SLICE_TICKS as nat, bps);
        match r {
            SliceResult::HitBreakpoint { .. } => (
                s1,
                WorkerAction::Finish(StopReason::Breakpoint(s1.regs.pc)),
            ),
            SliceResult::Halted { .. } => (s1, WorkerAction::Wait),
            SliceResult::BudgetExhausted { .. } => (s1, WorkerAction::Continue),
        }
    }
}

/// One round of a runner on its own thread (see [`worker_outcome`]).
pub fn worker_round(machine: &mut Machine, breakpoints: &HashSet<u16>, stopped: bool) -> (a: WorkerAction)
    requires
        old(machine).wf(),
    ensures
        final(machine).wf(),
        (final(machine).cpu@, a) == worker_outcome(old(machine).cpu@, breakpoints@, stopped),
{
    if stopped {
        return WorkerAction::Finish(StopReason::Stopped);
    }
    match machine.run_slice(SLICE_TICKS, breakpoints) {
        SliceResult::HitBreakpoint { .. } => WorkerAction::Finish(
            StopReason::Breakpoint(machine.cpu.get_pc()),
        ),
        SliceResult::Halted { .. } => WorkerAction::Wait,
        SliceResult::BudgetExhausted { .. } => WorkerAction::Continue,
    }
}

/// A runner that executes the machine on the caller's thread, one slice per poll.
pub struct Cooperative {
    machine: Option<Machine>,
    breakpoints: HashSet<u16>,
    finished: Option<StopReason>,
    pending: VecDeque<Command>,
}

impl Cooperative {
    /// Well-formed: a held machine is well-formed.
    pub closed spec fn wf(&self) -> bool {
        match self.machine {
            Some(m) => m.wf(),
            None => true,
        }
    }

    /// The machine being run, if any.
    pub closed spec fn machine_state(&self) -> Option<CpuState> {
        match self.machine {
            Some(m) => Some(m.cpu@),
            None => None,
        }
    }

    /// The breakpoints in force.
    pub closed spec fn breakpoints(&self) -> Set<u16> {
        self.breakpoints@
    }

    /// Why the run ended, once it has.
    pub closed spec fn finished(&self) -> Option<StopReason> {
        self.finished
    }

    /// The commands waiting for the next poll.
    pub closed spec fn pending(&self) -> Seq<Command> {
        self.pending@
    }

    /// An idle runner.
    pub fn new() -> (r: Self)
        ensures
            r.wf(),
            r.machine_state() is None,
            r.finished() is None,
            r.pending().len() == 0,
            r.breakpoints() == Set::<u16>::empty(),
    {
        Cooperative {
            machine: None,
            breakpoints: HashSet::new(),
            finished: None,
            pending: VecDeque::new(),
        }
    }

    /// Starts running `machine` with `breakpoints`.
    pub fn start(&mut self, machine: Machine, breakpoints: HashSet<u16>)
        requires
            old(self).machine_state() is None,
            machine.wf(),
        ensures
            final(self).wf(),
            final(self).machine_state() == Some(machine.cpu@),
            final(self).breakpoints() == breakpoints@,
            final(self).finished() is None,
            final(self).pending().len() == 0,
    {
        self.machine = Some(machine);
        self.breakpoints = breakpoints;
        self.finished = None;
        self.pending.clear();
    }

    /// Runs one round: applies the queued commands and then, unless they
    /// stopped the run, one slice of at most [`SLICE_TICKS`] steps. Reports
    /// a snapshot, preceded by the stop reason when the run finishes. An idle
    /// or finished runner does nothing and reports nothing.
    pub fn poll(&mut self) -> (events: Vec<Event>)
        requires
            old(self).wf(),
        ensures
            final(self).wf(),
            (old(self).machine_state() is None || old(self).finished() is Some) ==> events@.len() == 0
                && final(self).machine_state() == old(self).machine_state() && final(self).finished()
                == old(self).finished() && final(self).pending() == old(self).pending()
                && final(self).breakpoints() == old(self).breakpoints(),
            (old(self).machine_state() is Some && old(self).finished() is None) ==> ({
                let (s1, bps, stopped) = apply_commands(
                    old(self).machine_state()->0,
                    old(self).breakpoints(),
                    old(self).pending(),
                );
                let (s2, reason) = round_outcome(s1, bps, stopped);
                &&& final(self).machine_state() == Some(s2)
                &&& final(self).breakpoints() == bps
                &&& final(self).finished() == reason
                &&& final(self).pending().len() == 0
                &&& round_events(events@, s2, reason)
            }),
    {
        if self.machine.is_none() || self.finished.is_some() {
            return Vec::new();
        }
        let mut machine = self.machine.take().unwrap();
        let stopped = apply_pending(&mut machine, &mut self.breakpoints, &mut self.pending);
        let (events, reason) = run_round(&mut machine, &self.breakpoints, stopped);
        self.finished = reason;
        self.machine = Some(machine);
        events
    }

    /// Queues a command for the next poll; ignored unless a run is in progress.
    pub fn send_command(&mut self, command: Command)
        ensures
            final(self).machine_state() == old(self).machine_state(),
            final(self).finished() == old(self).finished(),
            final(self).breakpoints() == old(self).breakpoints(),
            final(self).pending() == (if old(self).machine_state() is Some && old(self).finished() is None {
                old(self).pending().push(command)
            } else {
                old(self).pending()
            }),
            final(self).wf() == old(self).wf(),
    {
        if self.machine.is_some() && self.finished.is_none() {
            self.pending.push_back(command);
        }
    }

    /// Ends the run and hands back the machine (a fresh one if none was running).
    pub fn take_machine(&mut self) -> (m: Machine)
        requires
            old(self).wf(),
        ensures
            m.wf(),
            m.cpu@ == match old(self).machine_state() {
                Some(s) => s,
                None => CpuState {
                    regs: crate::cpu::reset_registers(),
                    mem: Seq::new(0x10000, |_i: int| 0u8),
                    devs: Seq::empty(),
                },
            },
            final(self).machine_state() is None,
            final(self).finished() is None,
            final(self).pending().len() == 0,
            final(self).wf(),
    {
        self.finished = None;
        self.pending.clear();
        match self.machine.take() {
            Some(m) => m,
            None => Machine::new(),
        }
    }

    /// Whether the runner holds a machine (running or finished).
    pub fn has_machine(&self) -> (r: bool)
        ensures
            r == (self.machine_state() is Some),
    {
        self.machine.is_some()
    }

    /// Whether a run is in progress.
    pub fn is_running(&self) -> (r: bool)
        ensures
            r == (self.machine_state() is Some && self.finished() is None),
    {
        self.machine.is_some() && self.finished.is_none()
    }
}

impl Default for Cooperative {
    fn default() -> (r: Self)
        ensures
            r.wf(),
            r.machine_state() is None,
            r.finished() is None,
            r.pending().len() == 0,
    {
        Self::new()
    }
}

} // verus!
