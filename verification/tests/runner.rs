use jazz80::cpu::{Z80A, GPR};
use jazz80::components::mem_64k::Mem64k;
use jazz80::emulator::Machine;
use jazz80::runner::{apply_one, worker_round, Command, Cooperative, Event, StopReason, WorkerAction};
use std::collections::HashSet;

fn machine_with(bytes: &[u8]) -> Machine {
    let mut cpu = Z80A::new(Mem64k::new());
    for (i, b) in bytes.iter().enumerate() {
        cpu.memory.write(i as u16, *b);
    }
    Machine { cpu }
}

#[test]
fn cooperative_hits_breakpoint_and_returns_machine() {
    let machine = machine_with(&[0x3E, 0x42]);
    let mut breakpoints = HashSet::new();
    breakpoints.insert(0x0002);

    let mut runner = Cooperative::new();
    runner.start(machine, breakpoints);

    let mut saw = false;
    for _ in 0..20 {
        for event in runner.poll() {
            if let Event::Finished(StopReason::Breakpoint(0x0002)) = event {
                saw = true;
            }
        }
        if saw {
            break;
        }
    }
    assert!(saw, "cooperative runner never finished");
    assert!(!runner.is_running());

    let machine = runner.take_machine();
    assert_eq!(machine.cpu.get_pc(), 0x0002);
    assert_eq!(machine.cpu.get_register(GPR::A), 0x42);
}

#[test]
fn cooperative_stop_and_commands() {
    let machine = machine_with(&[0x76]);

    let mut runner = Cooperative::new();
    runner.start(machine, HashSet::new());

    let _ = runner.poll();
    let _ = runner.poll();

    runner.send_command(Command::SetInterrupt(true));
    let machine = runner.take_machine();
    assert!(machine.cpu.is_halted());
}

#[test]
fn cooperative_stop_command_finishes_the_run() {
    let machine = machine_with(&[0x18, 0xFE]);
    let mut runner = Cooperative::new();
    runner.start(machine, HashSet::new());
    assert!(runner.is_running());
    runner.send_command(Command::Stop);
    let events = runner.poll();
    assert!(events
        .iter()
        .any(|e| matches!(e, Event::Finished(StopReason::Stopped))));
    assert!(!runner.is_running());
}

#[test]
fn cooperative_reports_snapshots_while_running() {
    let machine = machine_with(&[0x18, 0xFE]);
    let mut runner = Cooperative::new();
    runner.start(machine, HashSet::new());
    let events = runner.poll();
    assert!(events.iter().any(|e| matches!(e, Event::Snapshot(_))));
    assert!(runner.is_running());
}

#[test]
fn apply_one_reports_stop_and_sets_state() {
    let mut machine = machine_with(&[0x76]);
    let mut bps = HashSet::new();
    assert!(!apply_one(&mut machine, &mut bps, Command::SetInterrupt(true)));
    let mut set = HashSet::new();
    set.insert(7u16);
    assert!(!apply_one(&mut machine, &mut bps, Command::SetBreakpoints(set)));
    assert!(bps.contains(&7));
    assert!(apply_one(&mut machine, &mut bps, Command::Stop));
}

#[test]
fn cooperative_holds_machine_until_taken() {
    let mut runner = Cooperative::new();
    assert!(!runner.has_machine());
    runner.start(machine_with(&[0x76]), HashSet::new());
    assert!(runner.has_machine());
    let _ = runner.take_machine();
    assert!(!runner.has_machine());
}

#[test]
fn worker_rounds_decide_what_follows_a_slice() {
    let mut machine = machine_with(&[0x3E, 0x42, 0x76]);
    let mut bps = HashSet::new();
    bps.insert(0x0002u16);
    assert_eq!(
        worker_round(&mut machine, &bps, false),
        WorkerAction::Finish(StopReason::Breakpoint(2))
    );
    let none = HashSet::new();
    assert_eq!(worker_round(&mut machine, &none, false), WorkerAction::Wait);
    assert!(machine.cpu.is_halted());
    assert_eq!(
        worker_round(&mut machine, &none, true),
        WorkerAction::Finish(StopReason::Stopped)
    );
    let mut spin = machine_with(&[0x18, 0xFE]);
    assert_eq!(worker_round(&mut spin, &none, false), WorkerAction::Continue);
}
