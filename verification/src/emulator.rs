use vstd::prelude::*;

use crate::components::mem_64k::Mem64k;
use crate::cpu::alu::flags_byte;
use crate::cpu::{reg8, reset_registers, shadow8, spec_tick, CpuState, Flag, GPR, Z80A};

verus! {

broadcast use vstd::std_specs::hash::group_hash_axioms;

/// A CPU with its memory and devices, run in slices of steps.
pub struct Machine {
    pub cpu: Z80A,
}

/// How a slice of execution ended, and how many steps it ran.
#[derive(Clone, Copy, Debug, PartialEq, Eq, Structural)]
pub enum SliceResult {
    BudgetExhausted { cycles: u64 },
    Halted { cycles: u64 },
    HitBreakpoint { cycles: u64 },
}

/// The outcome of running from state `s`, `cycles` steps having been run
/// already: stop before a step at a breakpoint, stop when the budget is
/// spent, stop after a step that leaves the CPU halted.
pub open spec fn run_from(s: CpuState, cycles: nat, max_ticks: nat, breakpoints: Set<u16>) -> (
    CpuState,
    SliceResult,
)
    decreases max_ticks - cycles,
{
    if breakpoints.contains(s.regs.pc) {
        (s, SliceResult::HitBreakpoint { cycles: cycles as u64 })
    } else if cycles >= max_ticks {
        (s, SliceResult::BudgetExhausted { cycles: cycles as u64 })
    } else {
        let s1 = spec_tick(s);
        if s1.regs.halted {
            (s1, SliceResult::Halted { cycles: (cycles + 1) as u64 })
        } else {
            run_from(s1, cycles + 1, max_ticks, breakpoints)
        }
    }
}

/// The number of steps a slice reports.
pub open spec fn slice_cycles(r: SliceResult) -> nat {
    match r {
        SliceResult::BudgetExhausted { cycles } => cycles as nat,
        SliceResult::Halted { cycles } => cycles as nat,
        SliceResult::HitBreakpoint { cycles } => cycles as nat,
    }
}

/// A slice never runs more steps than its budget; it reports the budget
/// spent exactly when it stopped for that reason, and a halted CPU when it
/// stopped on a halt.
pub proof fn lemma_slice_within_budget(s: CpuState, c: nat, max_ticks: nat, bps: Set<u16>)
    requires
        c <= max_ticks <= u64::MAX,
    ensures
        c <= slice_cycles(run_from(s, c, max_ticks, bps).1) <= max_ticks,
        run_from(s, c, max_ticks, bps).1 is BudgetExhausted ==> slice_cycles(
            run_from(s, c, max_ticks, bps).1,
        ) == max_ticks,
        run_from(s, c, max_ticks, bps).1 is Halted ==> run_from(s, c, max_ticks, bps).0.regs.halted,
        run_from(s, c, max_ticks, bps).1 is HitBreakpoint ==> bps.contains(
            run_from(s, c, max_ticks, bps).0.regs.pc,
        ),
    decreases max_ticks - c,
{
    if !bps.contains(s.regs.pc) && c < max_ticks {
        let s1 = spec_tick(s);
        if !s1.regs.halted {
            lemma_slice_within_budget(s1, c + 1, max_ticks, bps);
        }
    }
}

/// The state after `n` steps.
pub open spec fn run_ticks(s: CpuState, n: nat) -> CpuState
    decreases n,
{
    if n == 0 {
        s
    } else {
        spec_tick(run_ticks(s, (n - 1) as nat))
    }
}

proof fn lemma_run_ticks_after_one(s: CpuState, n: nat)
    ensures
        run_ticks(spec_tick(s), n) == run_ticks(s, n + 1),
    decreases n,
{
    reveal_with_fuel(run_ticks, 2);
    if n > 0 {
        lemma_run_ticks_after_one(s, (n - 1) as nat);
        assert(run_ticks(s, n + 1) == spec_tick(run_ticks(s, n)));
    }
}

proof fn lemma_run_counts(s: CpuState, c: nat, max_ticks: nat, bps: Set<u16>)
    requires
        c <= max_ticks <= u64::MAX,
    ensures
        ({
            let (t, r) = run_from(s, c, max_ticks, bps);
            let k = (slice_cycles(r) - c) as nat;
            &&& c <= slice_cycles(r) <= max_ticks
            &&& t == run_ticks(s, k)
            &&& forall|i: nat| i < k ==> !bps.contains(#[trigger] run_ticks(s, i).regs.pc)
            &&& forall|i: nat| 0 < i < k ==> !(#[trigger] run_ticks(s, i)).regs.halted
            &&& r is BudgetExhausted ==> slice_cycles(r) == max_ticks && !bps.contains(t.regs.pc) && (k
                == 0 || !t.regs.halted)
            &&& r is Halted ==> k >= 1 && t.regs.halted
            &&& r is HitBreakpoint ==> bps.contains(t.regs.pc)
        }),
    decreases max_ticks - c,
{
    lemma_slice_within_budget(s, c, max_ticks, bps);
    if !bps.contains(s.regs.pc) && c < max_ticks {
        let s1 = spec_tick(s);
        assert(run_ticks(s, 1) == s1) by {
            reveal_with_fuel(run_ticks, 2);
        }
        if !s1.regs.halted {
            lemma_run_counts(s1, c + 1, max_ticks, bps);
            let (t, r) = run_from(s1, c + 1, max_ticks, bps);
            let k1 = (slice_cycles(r) - (c + 1)) as nat;
            lemma_run_ticks_after_one(s, k1);
            assert forall|i: nat| i < k1 + 1 implies !bps.contains(#[trigger] run_ticks(s, i).regs.pc) by {
                if i > 0 {
                    lemma_run_ticks_after_one(s, (i - 1) as nat);
                    assert(run_ticks(s1, (i - 1) as nat).regs.pc == run_ticks(s, i).regs.pc);
                }
            }
            assert forall|i: nat| 0 < i < k1 + 1 implies !(#[trigger] run_ticks(s, i)).regs.halted by {
                lemma_run_ticks_after_one(s, (i - 1) as nat);
                if i > 1 {
                    assert(run_ticks(s1, (i - 1) as nat) == run_ticks(s, i));
                }
            }
        }
    }
}

/// A slice runs exactly the steps it reports, at most its budget: no step
/// starts at a breakpoint, and no step but the last leaves the CPU halted.
/// A spent budget means the count is the budget and the CPU neither sits at
/// a breakpoint nor (after a step) is halted; a halt means at least one step
/// and a halted CPU; a breakpoint means the PC is one; no step means no
/// change.
pub proof fn lemma_slice_counts_steps(s: CpuState, max_ticks: nat, bps: Set<u16>)
    requires
        max_ticks <= u64::MAX,
    ensures
        ({
            let (t, r) = run_from(s, 0, max_ticks, bps);
            let c = slice_cycles(r);
            &&& c <= max_ticks
            &&& t == run_ticks(s, c)
            &&& forall|i: nat| i < c ==> !bps.contains(#[trigger] run_ticks(s, i).regs.pc)
            &&& forall|i: nat| 0 < i < c ==> !(#[trigger] run_ticks(s, i)).regs.halted
            &&& r is BudgetExhausted ==> c == max_ticks && !bps.contains(t.regs.pc) && (c == 0
                || !t.regs.halted)
            &&& r is Halted ==> c >= 1 && t.regs.halted
            &&& r is HitBreakpoint ==> bps.contains(t.regs.pc)
            &&& c == 0 ==> t == s
        }),
{
    lemma_run_counts(s, 0, max_ticks, bps);
}

/// A slice whose first step is at a breakpoint, or whose budget is zero,
/// changes nothing.
pub proof fn lemma_slice_stops_before_running(s: CpuState, max_ticks: nat, bps: Set<u16>)
    requires
        max_ticks <= u64::MAX,
        bps.contains(s.regs.pc) || max_ticks == 0,
    ensures
        run_from(s, 0, max_ticks, bps).0 == s,
        slice_cycles(run_from(s, 0, max_ticks, bps).1) == 0,
        bps.contains(s.regs.pc) ==> run_from(s, 0, max_ticks, bps).1 == (SliceResult::HitBreakpoint {
            cycles: 0,
        }),
{
}

proof fn lemma_run_shift(s: CpuState, c: nat, max_ticks: nat, bps: Set<u16>)
    requires
        c <= max_ticks <= u64::MAX,
    ensures
        run_from(s, c, max_ticks, bps).0 == run_from(s, 0, (max_ticks - c) as nat, bps).0,
        slice_cycles(run_from(s, c, max_ticks, bps).1) == c + slice_cycles(
            run_from(s, 0, (max_ticks - c) as nat, bps).1,
        ),
        run_from(s, c, max_ticks, bps).1 is BudgetExhausted <==> run_from(
            s,
            0,
            (max_ticks - c) as nat,
            bps,
        ).1 is BudgetExhausted,
        run_from(s, c, max_ticks, bps).1 is Halted <==> run_from(s, 0, (max_ticks - c) as nat, bps).1 is Halted,
    decreases max_ticks - c,
{
    if !bps.contains(s.regs.pc) && c < max_ticks {
        let s1 = spec_tick(s);
        if !s1.regs.halted {
            lemma_run_shift(s1, c + 1, max_ticks, bps);
            lemma_run_shift(s1, 1, (max_ticks - c) as nat, bps);
        }
    }
}

proof fn lemma_run_extend(s: CpuState, c: nat, a: nat, b: nat, bps: Set<u16>)
    requires
        c <= a,
        a + b <= u64::MAX,
        run_from(s, c, a, bps).1 is BudgetExhausted,
    ensures
        run_from(s, c, a + b, bps) == run_from(run_from(s, c, a, bps).0, a, a + b, bps),
    decreases a - c,
{
    if c < a {
        let s1 = spec_tick(s);
        lemma_run_extend(s1, c + 1, a, b, bps);
    }
}

/// Running two slices one after the other, the first spending its whole
/// budget, ends in the same state as one slice with both budgets, and the
/// second slice reports the steps beyond the first budget.
pub proof fn lemma_slices_compose(s: CpuState, a: nat, b: nat, bps: Set<u16>)
    requires
        a + b <= u64::MAX,
        run_from(s, 0, a, bps).1 is BudgetExhausted,
    ensures
        run_from(run_from(s, 0, a, bps).0, 0, b, bps).0 == run_from(s, 0, a + b, bps).0,
        slice_cycles(run_from(s, 0, a + b, bps).1) == a + slice_cycles(
            run_from(run_from(s, 0, a, bps).0, 0, b, bps).1,
        ),
{
    lemma_run_extend(s, 0, a, b, bps);
    lemma_run_shift(run_from(s, 0, a, bps).0, a, a + b, bps);
}

/// The flags in a snapshot.
#[derive(Clone, Copy, Debug, PartialEq, Eq, Structural)]
pub struct SnapshotFlags {
    pub s: bool,
    pub z: bool,
    pub y: bool,
    pub h: bool,
    pub x: bool,
    pub pv: bool,
    pub n: bool,
    pub c: bool,
}

/// A copy of the visible machine state: registers (A F B C D E H L, and the
/// alternate set), control state, flags and all of memory.
#[derive(Clone, Debug)]
pub struct MachineSnapshot {
    pub pc: u16,
    pub sp: u16,
    pub ix: u16,
    pub iy: u16,
    pub regs: [u8; 8],
    pub shadow_regs: [u8; 8],
    pub iff1: bool,
    pub iff2: bool,
    pub interrupt_mode: u8,
    pub halted: bool,
    pub flags: SnapshotFlags,
    pub memory: Vec<u8>,
}

/// The register order of a snapshot.
pub open spec fn gpr_order() -> Seq<GPR> {
    seq![GPR::A, GPR::F, GPR::B, GPR::C, GPR::D, GPR::E, GPR::H, GPR::L]
}

/// The snapshot taken of a machine in state `s`.
pub open spec fn snapshot_of(snap: MachineSnapshot, s: CpuState) -> bool {
    &&& snap.pc == s.regs.pc
    &&& snap.sp == s.regs.sp
    &&& snap.ix == s.regs.ix
    &&& snap.iy == s.regs.iy
    &&& snap.regs@ == gpr_order().map_values(|g: GPR| reg8(s.regs, g))
    &&& snap.shadow_regs@ == gpr_order().map_values(|g: GPR| shadow8(s.regs, g))
    &&& snap.iff1 == s.regs.iff1
    &&& snap.iff2 == s.regs.iff2
    &&& snap.interrupt_mode == s.regs.interrupt_mode
    &&& snap.halted == s.regs.halted
    &&& snap.flags == (SnapshotFlags {
        s: s.regs.flags.s,
        z: s.regs.flags.z,
        y: s.regs.flags.y,
        h: s.regs.flags.h,
        x: s.regs.flags.x,
        pv: s.regs.flags.pv,
        n: s.regs.flags.n,
        c: s.regs.flags.c,
    })
    &&& snap.memory@ == s.mem
}

impl Default for MachineSnapshot {
    fn default() -> (snap: Self)
        ensures
            snap.pc == 0 && snap.sp == 0 && snap.ix == 0 && snap.iy == 0,
            snap.regs@ == seq![0u8; 8],
            snap.shadow_regs@ == seq![0u8; 8],
            !snap.iff1 && !snap.iff2 && snap.interrupt_mode == 0 && !snap.halted,
            snap.flags == (SnapshotFlags {
                s: false,
                z: false,
                y: false,
                h: false,
                x: false,
                pv: false,
                n: false,
                c: false,
            }),
            snap.memory@ == Seq::new(0x10000, |_i: int| 0u8),
    {
        let mut memory: Vec<u8> = Vec::new();
        let mut i: usize = 0;
        while i < 0x10000
            invariant
                i <= 0x10000,
                memory@ == Seq::new(i as nat, |_i: int| 0u8),
            decreases 0x10000 - i,
        {
            memory.push(0u8);
            i = i + 1;
        }
        let regs: [u8; 8] = [0u8, 0u8, 0u8, 0u8, 0u8, 0u8, 0u8, 0u8];
        let shadow_regs: [u8; 8] = [0u8, 0u8, 0u8, 0u8, 0u8, 0u8, 0u8, 0u8];
        assert(regs@ =~= seq![0u8; 8]);
        assert(shadow_regs@ =~= seq![0u8; 8]);
        MachineSnapshot {
            pc: 0,
            sp: 0,
            ix: 0,
            iy: 0,
            regs,
            shadow_regs,
            iff1: false,
            iff2: false,
            interrupt_mode: 0,
            halted: false,
            flags: SnapshotFlags {
                s: false,
                z: false,
                y: false,
                h: false,
                x: false,
                pv: false,
                n: false,
                c: false,
            },
            memory,
        }
    }
}

impl Machine {
    /// Well-formed: the CPU is.
    pub open spec fn wf(&self) -> bool {
        self.cpu.wf()
    }

    /// A machine after reset, with zeroed memory and no devices.
    pub fn new() -> (m: Self)
        ensures
            m.wf(),
            m.cpu@ == (CpuState {
                regs: reset_registers(),
                mem: Seq::new(0x10000, |_i: int| 0u8),
                devs: Seq::empty(),
            }),
    {
        Machine { cpu: Z80A::new(Mem64k::new()) }
    }

    /// The machine's memory, for loading programs.
    pub fn memory_mut(&mut self) -> (mem: &mut Mem64k)
        ensures
            *mem == old(self).cpu.memory,
            final(self).cpu.memory == *final(mem),
            final(self).cpu.regs == old(self).cpu.regs,
            final(self).cpu.devices == old(self).cpu.devices,
    {
        &mut self.cpu.memory
    }

    /// Runs at most `max_ticks` steps: stops before a step whose PC is a
    /// breakpoint, or after a step that leaves the CPU halted.
    pub fn run_slice(&mut self, max_ticks: u64, breakpoints: &std::collections::HashSet<u16>) -> (r:
        SliceResult)
        requires
            old(self).wf(),
        ensures
            final(self).wf(),
            (final(self).cpu@, r) == run_from(old(self).cpu@, 0, max_ticks as nat, breakpoints@),
    {
        let mut cycles: u64 = 0;
        loop
            invariant
                self.wf(),
                cycles <= max_ticks,
                run_from(self.cpu@, cycles as nat, max_ticks as nat, breakpoints@) == run_from(
                    old(self).cpu@,
                    0,
                    max_ticks as nat,
                    breakpoints@,
                ),
            decreases max_ticks - cycles,
        {
            if breakpoints.contains(&self.cpu.get_pc()) {
                return SliceResult::HitBreakpoint { cycles };
            }
            if cycles >= max_ticks {
                return SliceResult::BudgetExhausted { cycles };
            }
            self.cpu.tick();
            cycles = cycles + 1;
            if self.cpu.is_halted() {
                return SliceResult::Halted { cycles };
            }
        }
    }

    /// A copy of the visible state.
    pub fn snapshot(&self) -> (snap: MachineSnapshot)
        requires
            self.wf(),
        ensures
            snapshot_of(snap, self.cpu@),
    {
        let c = &self.cpu;
        let regs: [u8; 8] = [
            c.get_register(GPR::A),
            c.get_register(GPR::F),
            c.get_register(GPR::B),
            c.get_register(GPR::C),
            c.get_register(GPR::D),
            c.get_register(GPR::E),
            c.get_register(GPR::H),
            c.get_register(GPR::L),
        ];
        let shadow_regs: [u8; 8] = [
            c.get_shadow_register(GPR::A),
            c.get_shadow_register(GPR::F),
            c.get_shadow_register(GPR::B),
            c.get_shadow_register(GPR::C),
            c.get_shadow_register(GPR::D),
            c.get_shadow_register(GPR::E),
            c.get_shadow_register(GPR::H),
            c.get_shadow_register(GPR::L),
        ];
        assert(regs@ =~= gpr_order().map_values(|g: GPR| reg8(self.cpu@.regs, g)));
        assert(shadow_regs@ =~= gpr_order().map_values(|g: GPR| shadow8(self.cpu@.regs, g)));
        let mut memory: Vec<u8> = Vec::new();
        let mut addr: usize = 0;
        while addr < 0x10000
            invariant
                addr <= 0x10000,
                self.wf(),
                memory@ == self.cpu@.mem.take(addr as int),
            decreases 0x10000 - addr,
        {
            memory.push(self.cpu.memory.read(addr as u16));
            addr = addr + 1;
            assert(memory@ =~= self.cpu@.mem.take(addr as int));
        }
        assert(memory@ =~= self.cpu@.mem);
        MachineSnapshot {
            pc: c.get_pc(),
            sp: c.get_sp(),
            ix: c.get_ix(),
            iy: c.get_iy(),
            regs,
            shadow_regs,
            iff1: c.get_iff1(),
            iff2: c.get_iff2(),
            interrupt_mode: c.get_interrupt_mode(),
            halted: c.is_halted(),
            flags: SnapshotFlags {
                s: c.get_flag(Flag::S),
                z: c.get_flag(Flag::Z),
                y: c.get_flag(Flag::Y),
                h: c.get_flag(Flag::H),
                x: c.get_flag(Flag::X),
                pv: c.get_flag(Flag::PV),
                n: c.get_flag(Flag::N),
                c: c.get_flag(Flag::C),
            },
            memory,
        }
    }
}

/// Memory after writing `bytes` from address 0 on, in order (addresses wrap
/// at 64 KiB, where a later byte overwrites an earlier one).
pub open spec fn load_flat(mem: Seq<u8>, bytes: Seq<u8>) -> Seq<u8>
    decreases bytes.len(),
{
    if bytes.len() == 0 {
        mem
    } else {
        load_flat(mem, bytes.drop_last()).update(((bytes.len() - 1) as u16) as int, bytes.last())
    }
}

/// Memory after writing each image entry at its address, in order.
pub open spec fn load_image(mem: Seq<u8>, image: Seq<(u16, u8)>) -> Seq<u8>
    decreases image.len(),
{
    if image.len() == 0 {
        mem
    } else {
        load_image(mem, image.drop_last()).update(image.last().0 as int, image.last().1)
    }
}

/// The addresses an image places a byte at.
pub open spec fn image_addresses(image: Seq<(u16, u8)>) -> Set<u16> {
    Set::new(|a: u16| exists|i: int| 0 <= i < image.len() && #[trigger] image[i].0 == a)
}

/// Memory after writing `bytes` from address 0 on, in order, except at the
/// addresses in `taken`.
pub open spec fn load_flat_around(mem: Seq<u8>, bytes: Seq<u8>, taken: Set<u16>) -> Seq<u8>
    decreases bytes.len(),
{
    if bytes.len() == 0 {
        mem
    } else {
        let m = load_flat_around(mem, bytes.drop_last(), taken);
        let a = (bytes.len() - 1) as u16;
        if taken.contains(a) {
            m
        } else {
            m.update(a as int, bytes.last())
        }
    }
}

/// Memory after loading an assembled program: the image's bytes at their
/// addresses, and the program's bytes, counted from address 0, at every
/// address the image leaves free.
pub open spec fn load_program(mem: Seq<u8>, bytes: Seq<u8>, image: Seq<(u16, u8)>) -> Seq<u8> {
    load_flat_around(load_image(mem, image), bytes, image_addresses(image))
}

impl Machine {
    /// Loads a raw binary at address 0.
    pub fn load_binary(&mut self, bytes: &Vec<u8>)
        requires
            old(self).wf(),
        ensures
            final(self).wf(),
            final(self).cpu@ == (CpuState { mem: load_flat(old(self).cpu@.mem, bytes@), ..old(self).cpu@ }),
    {
        let mut i: usize = 0;
        while i < bytes.len()
            invariant
                self.wf(),
                i <= bytes@.len(),
                self.cpu@ == (CpuState {
                    mem: load_flat(old(self).cpu@.mem, bytes@.take(i as int)),
                    ..old(self).cpu@
                }),
            decreases bytes@.len() - i,
        {
            assert(bytes@.take(i + 1).drop_last() =~= bytes@.take(i as int));
            self.cpu.memory.write(i as u16, bytes[i]);
            i = i + 1;
            assert(self.cpu@.mem =~= load_flat(old(self).cpu@.mem, bytes@.take(i as int)));
        }
        assert(bytes@.take(i as int) =~= bytes@);
    }

    /// Loads an assembled program (see [`load_program`]).
    pub fn load_assembled(&mut self, bytes: &Vec<u8>, image: &Vec<(u16, u8)>)
        requires
            old(self).wf(),
        ensures
            final(self).wf(),
            final(self).cpu@ == (CpuState {
                mem: load_program(old(self).cpu@.mem, bytes@, image@),
                ..old(self).cpu@
            }),
    {
        let mut taken: std::collections::HashSet<u16> = std::collections::HashSet::new();
        let mut k: usize = 0;
        while k < image.len()
            invariant
                self.wf(),
                k <= image@.len(),
                self.cpu@ == (CpuState {
                    mem: load_image(old(self).cpu@.mem, image@.take(k as int)),
                    ..old(self).cpu@
                }),
                taken@ == image_addresses(image@.take(k as int)),
            decreases image@.len() - k,
        {
            let (a, b) = image[k];
            assert(image@.take(k + 1).drop_last() =~= image@.take(k as int));
            self.cpu.memory.write(a, b);
            taken.insert(a);
            let ghost pre = image@.take(k as int);
            k = k + 1;
            assert(self.cpu@.mem =~= load_image(old(self).cpu@.mem, image@.take(k as int)));
            assert(taken@ =~= image_addresses(image@.take(k as int))) by {
                assert forall|x: u16| image_addresses(image@.take(k as int)).contains(x) implies #[trigger] taken@.contains(
                    x,
                ) by {
                    let i = choose|i: int| 0 <= i < k && #[trigger] image@.take(k as int)[i].0 == x;
                    if i < k - 1 {
                        assert(pre[i] == image@.take(k as int)[i]);
                        assert(image_addresses(pre).contains(x));
                    }
                }
                assert forall|x: u16| #[trigger] taken@.contains(x) implies image_addresses(
                    image@.take(k as int),
                ).contains(x) by {
                    if x == a {
                        assert(image@.take(k as int)[k - 1].0 == x);
                    } else {
                        assert(image_addresses(pre).contains(x));
                        let i = choose|i: int| 0 <= i < pre.len() && #[trigger] pre[i].0 == x;
                        assert(image@.take(k as int)[i] == pre[i]);
                    }
                }
            }
        }
        assert(image@.take(k as int) =~= image@);
        let ghost base = self.cpu@.mem;
        let mut i: usize = 0;
        while i < bytes.len()
            invariant
                self.wf(),
                i <= bytes@.len(),
                taken@ == image_addresses(image@),
                self.cpu@ == (CpuState {
                    mem: load_flat_around(base, bytes@.take(i as int), image_addresses(image@)),
                    ..old(self).cpu@
                }),
            decreases bytes@.len() - i,
        {
            assert(bytes@.take(i + 1).drop_last() =~= bytes@.take(i as int));
            let a = i as u16;
            if !taken.contains(&a) {
                self.cpu.memory.write(a, bytes[i]);
            }
            i = i + 1;
            assert(self.cpu@.mem =~= load_flat_around(
                base,
                bytes@.take(i as int),
                image_addresses(image@),
            ));
        }
        assert(bytes@.take(i as int) =~= bytes@);
    }
}

impl Default for Machine {
    fn default() -> (m: Self)
        ensures
            m.wf(),
            m.cpu@ == (CpuState {
                regs: reset_registers(),
                mem: Seq::new(0x10000, |_i: int| 0u8),
                devs: Seq::empty(),
            }),
    {
        Self::new()
    }
}

} // verus!
