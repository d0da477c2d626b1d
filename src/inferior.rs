use vstd::prelude::*;
use std::collections::HashMap;
use std::collections::HashSet;
use crate::breakpoint::Breakpoint;
use crate::status::Status;

verus! {

broadcast use vstd::std_specs::hash::group_hash_axioms;

/// Abstract state of a traced process: its identifier, the breakpoint
/// records keyed by address, and the addresses whose trap opcode currently
/// stands in the process's memory.
pub struct InferiorView {
    pub pid: i32,
    pub breakpoints: Map<u64, Breakpoint>,
    pub armed: Set<u64>,
}

impl InferiorView {
    /// Every record is keyed by its own address, and only recorded
    /// breakpoints can be armed.
    pub open spec fn wf(self) -> bool {
        &&& forall|a: u64| #[trigger] self.breakpoints.contains_key(a) ==> self.breakpoints[a].addr
            == a
        &&& forall|a: u64| #[trigger] self.armed.contains(a) ==> self.breakpoints.contains_key(a)
    }
}

/// The state right after the process became traceable: nothing installed.
pub open spec fn launched(pid: i32) -> InferiorView {
    InferiorView { pid, breakpoints: Map::empty(), armed: Set::empty() }
}

/// Installing a breakpoint at `addr`, where `captured` is the byte that the
/// trap opcode replaced, or `None` when the memory could not be patched.
/// An armed address needs no second patch: its record, which holds the true
/// instruction byte, stays as it is.
pub open spec fn installed(v: InferiorView, addr: u64, captured: Option<u8>) -> InferiorView {
    if v.armed.contains(addr) {
        v
    } else {
        match captured {
            Some(b) => InferiorView {
                breakpoints: v.breakpoints.insert(addr, Breakpoint { addr, orig_byte: b }),
                armed: v.armed.insert(addr),
                ..v
            },
            None => InferiorView {
                breakpoints: v.breakpoints.insert(addr, Breakpoint { addr, orig_byte: 0 }),
                ..v
            },
        }
    }
}

/// The address of the breakpoint that caused a trap stop at `rip`, if any:
/// the trap fires with the instruction pointer one byte past the opcode.
pub open spec fn trapped_at(v: InferiorView, rip: u64) -> Option<u64> {
    if rip >= 1 && v.armed.contains((rip - 1) as u64) {
        Some((rip - 1) as u64)
    } else {
        None
    }
}

/// What to do to resume the process.
#[derive(Clone, Copy, Debug, PartialEq, Eq, Structural)]
pub enum ResumePlan {
    /// Write the breakpoint's original byte back, set the instruction pointer
    /// to its address, single-step once and wait; then ask `after_step`.
    StepOver(Breakpoint),
    /// Let the process run freely and wait for its next status.
    RunFree,
}

/// What to do once the single step over a breakpoint has been waited for.
#[derive(Clone, Copy, Debug, PartialEq, Eq, Structural)]
pub enum StepOutcome {
    /// The step completed: install the breakpoint at this address again,
    /// then let the process run freely.
    Rearm(u64),
    /// The step ended otherwise: this status is the result of the resume.
    Finished(Status),
}

/// The plan for resuming from instruction pointer `rip`, and the state in
/// which the plan is carried out.
pub open spec fn resume_plan_of(v: InferiorView, rip: u64) -> (InferiorView, ResumePlan) {
    match trapped_at(v, rip) {
        Some(a) => (InferiorView { armed: v.armed.remove(a), ..v }, ResumePlan::StepOver(v.breakpoints[a])),
        None => (v, ResumePlan::RunFree),
    }
}

pub open spec fn step_outcome_of(bp: Breakpoint, status: Status) -> StepOutcome {
    if status.is_trap_stop() {
        StepOutcome::Rearm(bp.addr)
    } else {
        StepOutcome::Finished(status)
    }
}

/// The breakpoint bookkeeping of one traced process. The process itself and
/// the kernel calls on it belong to the caller, which reports their results.
pub struct Inferior {
    pid: i32,
    breakpoint_map: HashMap<u64, Breakpoint>,
    armed: HashSet<u64>,
}

impl View for Inferior {
    type V = InferiorView;

    closed spec fn view(&self) -> InferiorView {
        InferiorView { pid: self.pid, breakpoints: self.breakpoint_map@, armed: self.armed@ }
    }
}

impl Inferior {
    /// Takes control of process `pid`, whose first observed status was
    /// `first`. Tracing starts only if that status is the trap stop of a
    /// process that just became traceable.
    pub fn new(pid: i32, first: &Status) -> (r: Option<Inferior>)
        ensures
            r is Some <==> first.is_trap_stop(),
            r matches Some(inf) ==> inf@ == launched(pid) && inf@.wf(),
    {
        if !first.is_trap() {
            return None;
        }
        let inf = Inferior { pid, breakpoint_map: HashMap::new(), armed: HashSet::new() };
        assert(inf@.breakpoints =~= Map::empty());
        assert(inf@.armed =~= Set::empty());
        Some(inf)
    }

    pub fn pid(&self) -> (r: i32)
        ensures
            r == self@.pid,
    {
        self.pid
    }

    /// Whether the trap opcode at `addr` is in place; such an address needs
    /// no memory patch to install its breakpoint.
    pub fn is_armed(&self, addr: u64) -> (r: bool)
        ensures
            r == self@.armed.contains(addr),
    {
        self.armed.contains(&addr)
    }

    /// The record of the breakpoint at `addr`, if one was installed.
    pub fn get_breakpoint(&self, addr: u64) -> (r: Option<Breakpoint>)
        ensures
            r == (if self@.breakpoints.contains_key(addr) {
                Some(self@.breakpoints[addr])
            } else {
                None
            }),
    {
        match self.breakpoint_map.get(&addr) {
            Some(bp) => Some(*bp),
            None => None,
        }
    }

    /// Records a breakpoint installed at `addr`; `captured` is the byte that
    /// the trap opcode replaced, or `None` when the memory access failed, in
    /// which case the breakpoint is recorded with byte zero and stays inert.
    pub fn add_breakpoint(&mut self, addr: u64, captured: Option<u8>) -> (r: Breakpoint)
        requires
            old(self)@.wf(),
        ensures
            final(self)@ == installed(old(self)@, addr, captured),
            final(self)@.wf(),
            r == final(self)@.breakpoints[addr],
            r.addr == addr,
    {
        if self.armed.contains(&addr) {
            assert(old(self)@.armed.contains(addr));
            let bp = *self.breakpoint_map.get(&addr).unwrap();
            return bp;
        }
        let mut bp = Breakpoint::new(addr);
        match captured {
            Some(b) => {
                bp.set_orig_byte(b);
                self.armed.insert(addr);
            },
            None => {},
        }
        self.breakpoint_map.insert(addr, bp);
        proof {
            let v = installed(old(self)@, addr, captured);
            assert(self@.breakpoints =~= v.breakpoints);
            assert(self@.armed =~= v.armed);
        }
        bp
    }

    /// Decides how to resume from instruction pointer `rip`. When the process
    /// sits just past an armed breakpoint, that breakpoint is disarmed for a
    /// single step over its original instruction.
    pub fn resume_plan(&mut self, rip: u64) -> (r: ResumePlan)
        requires
            old(self)@.wf(),
        ensures
            (final(self)@, r) == resume_plan_of(old(self)@, rip),
            final(self)@.wf(),
    {
        if rip >= 1 {
            let a: u64 = rip - 1;
            if self.armed.contains(&a) {
                assert(old(self)@.armed.contains(a));
                let bp = *self.breakpoint_map.get(&a).unwrap();
                self.armed.remove(&a);
                proof {
                    assert(self@.armed =~= old(self)@.armed.remove(a));
                }
                return ResumePlan::StepOver(bp);
            }
        }
        ResumePlan::RunFree
    }

    /// Decides what follows the single step over breakpoint `bp`, given the
    /// status that the step produced.
    pub fn after_step(bp: Breakpoint, status: Status) -> (r: StepOutcome)
        ensures
            r == step_outcome_of(bp, status),
    {
        if status.is_trap() {
            StepOutcome::Rearm(bp.addr)
        } else {
            StepOutcome::Finished(status)
        }
    }
}

/// Installing each of `addrs` in turn, `captured[i]` being the outcome of the
/// memory patch for `addrs[i]`.
pub open spec fn installed_all(v: InferiorView, addrs: Seq<u64>, captured: Seq<Option<u8>>) -> InferiorView
    decreases addrs.len(),
{
    if addrs.len() == 0 || captured.len() == 0 {
        v
    } else {
        installed(
            installed_all(v, addrs.drop_last(), captured.drop_last()),
            addrs.last(),
            captured.last(),
        )
    }
}

/// Installing keeps the state well formed and never disarms an address.
proof fn lemma_install_keeps_armed(v: InferiorView, addr: u64, captured: Option<u8>)
    requires
        v.wf(),
    ensures
        installed(v, addr, captured).wf(),
        installed(v, addr, captured).pid == v.pid,
        v.armed.subset_of(installed(v, addr, captured).armed),
        captured is Some ==> installed(v, addr, captured).armed.contains(addr),
        installed(v, addr, captured).breakpoints.contains_key(addr),
{
}

/// Every breakpoint requested before the process ran, whose address could be
/// patched, is armed once all requested breakpoints have been installed, so
/// the first execution that reaches it traps.
pub proof fn lemma_requested_breakpoints_armed(
    v: InferiorView,
    addrs: Seq<u64>,
    captured: Seq<Option<u8>>,
)
    requires
        v.wf(),
        addrs.len() == captured.len(),
    ensures
        installed_all(v, addrs, captured).wf(),
        forall|i: int|
            0 <= i < addrs.len() && #[trigger] captured[i] is Some ==> installed_all(
                v,
                addrs,
                captured,
            ).armed.contains(addrs[i]),
    decreases addrs.len(),
{
    if addrs.len() > 0 {
        let pa = addrs.drop_last();
        let pc = captured.drop_last();
        lemma_requested_breakpoints_armed(v, pa, pc);
        let w = installed_all(v, pa, pc);
        lemma_install_keeps_armed(w, addrs.last(), captured.last());
        assert forall|i: int|
            0 <= i < addrs.len() && #[trigger] captured[i] is Some implies installed_all(
                v,
                addrs,
                captured,
            ).armed.contains(addrs[i]) by {
            if i < addrs.len() - 1 {
                assert(pc[i] == captured[i]);
                assert(w.armed.contains(pa[i]));
            }
        }
    }
}

/// Installing a second time at an address, before any resume, changes
/// nothing: one record stays, holding the byte of the first successful patch
/// (not the trap opcode that the second patch would have read back).
pub proof fn lemma_install_idempotent(v: InferiorView, addr: u64, b: u8, captured: Option<u8>)
    requires
        v.wf(),
    ensures
        installed(installed(v, addr, Some(b)), addr, captured) == installed(v, addr, Some(b)),
        installed(v, addr, Some(b)).breakpoints.dom() == v.breakpoints.dom().insert(addr),
        !v.armed.contains(addr) ==> installed(v, addr, Some(b)).breakpoints[addr] == (Breakpoint {
            addr,
            orig_byte: b,
        }),
{
    if v.armed.contains(addr) {
        assert(v.breakpoints.dom() =~= v.breakpoints.dom().insert(addr));
    } else {
        assert(installed(v, addr, Some(b)).breakpoints.dom() =~= v.breakpoints.dom().insert(addr));
    }
}

/// Resuming from a trap at an armed breakpoint steps over the original
/// instruction exactly once: the plan restores the recorded byte and disarms
/// the address for that one step; a step that ends in a trap asks for the
/// breakpoint again, and installing it with the restored byte gives back the
/// very state before the resume, armed as before, so the breakpoint fires on
/// the next pass too. A step that ends otherwise is the result as it is.
pub proof fn lemma_pass_through_breakpoint(v: InferiorView, addr: u64, step: Status)
    requires
        v.wf(),
        v.armed.contains(addr),
        addr < u64::MAX,
    ensures
        resume_plan_of(v, (addr + 1) as u64).1 == ResumePlan::StepOver(v.breakpoints[addr]),
        !resume_plan_of(v, (addr + 1) as u64).0.armed.contains(addr),
        step.is_trap_stop() ==> step_outcome_of(v.breakpoints[addr], step) == StepOutcome::Rearm(
            addr,
        ),
        !step.is_trap_stop() ==> step_outcome_of(v.breakpoints[addr], step)
            == StepOutcome::Finished(step),
        installed(resume_plan_of(v, (addr + 1) as u64).0, addr, Some(v.breakpoints[addr].orig_byte))
            == v,
{
    let v1 = resume_plan_of(v, (addr + 1) as u64).0;
    let v2 = installed(v1, addr, Some(v.breakpoints[addr].orig_byte));
    assert(v2.armed =~= v.armed);
    assert(v2.breakpoints =~= v.breakpoints);
}

} // verus!
