use vstd::prelude::*;
use crate::command::{CommandView, DebuggerCommand};
use crate::inferior::{Inferior, InferiorView};
use crate::status::Status;
use crate::text::{parse_address, parsed_address};

verus! {

/// A command that needs a traced process was given while none runs.
#[derive(Clone, Copy, Debug, PartialEq, Eq, Structural)]
pub enum SessionError {
    NoProcess,
}

/// The outcome of a breakpoint request.
#[derive(Clone, Copy, Debug, PartialEq, Eq, Structural)]
pub struct BreakpointRequest {
    /// Position of the breakpoint in the session's list.
    pub index: usize,
    /// The address recorded: the parsed one, or zero when the text was not an
    /// address.
    pub addr: u64,
    /// Whether the text was an address; when not, the caller warns.
    pub parsed: bool,
    /// Whether a process is running, into which the breakpoint must be
    /// installed now rather than at the next run.
    pub install_now: bool,
}

/// What the caller must carry out for a command. A process handed out here
/// is handed back with `attach` or `record_status` once the work is done.
pub enum SessionAction {
    /// Kill the process `kill`, if any, then launch the target with `args`
    /// and the session's breakpoints, attach it and resume it.
    Launch { kill: Option<i32>, args: Vec<String> },
    /// Kill the process `kill`, if any, and end the session.
    Exit { kill: Option<i32> },
    /// Resume this process and record the status it ends in.
    Resume(Inferior),
    /// Print the call stack of this process.
    Backtrace(Inferior),
    /// A breakpoint was added; when a process runs it is handed out here,
    /// for the breakpoint to be installed into it.
    BreakpointAdded(BreakpointRequest, Option<Inferior>),
    /// The command needs a process and none runs; nothing changed.
    NoProcess,
}

/// Abstract state of a debugging session.
pub struct DebuggerView {
    pub target: Seq<char>,
    pub breakpoints: Seq<u64>,
    pub inferior: Option<InferiorView>,
}

impl DebuggerView {
    pub open spec fn wf(self) -> bool {
        self.inferior matches Some(i) ==> i.wf()
    }
}

/// The session after its process, if any, was taken away to be killed (on a
/// fresh run and on quit), and the identifier of that process.
pub open spec fn flushed(v: DebuggerView) -> (DebuggerView, Option<i32>) {
    (
        DebuggerView { inferior: None, ..v },
        match v.inferior {
            Some(i) => Some(i.pid),
            None => None,
        },
    )
}

/// A tracer session: the target program, the breakpoint addresses requested
/// so far, which outlive any one process, and the traced process, if any.
pub struct Debugger {
    target: String,
    breakpoints: Vec<u64>,
    inferior: Option<Inferior>,
}

impl View for Debugger {
    type V = DebuggerView;

    closed spec fn view(&self) -> DebuggerView {
        DebuggerView {
            target: self.target@,
            breakpoints: self.breakpoints@,
            inferior: match self.inferior {
                Some(i) => Some(i@),
                None => None,
            },
        }
    }
}

impl Debugger {
    /// A session on program `target`, with no breakpoint and no process.
    pub fn new(target: &str) -> (r: Debugger)
        ensures
            r@ == (DebuggerView { target: target@, breakpoints: Seq::empty(), inferior: None }),
            r@.wf(),
    {
        let d = Debugger { target: target.to_owned(), breakpoints: Vec::new(), inferior: None };
        assert(d@.breakpoints =~= Seq::empty());
        d
    }

    pub fn target(&self) -> (r: &str)
        ensures
            r@ == self@.target,
    {
        self.target.as_str()
    }

    pub fn breakpoints(&self) -> (r: &Vec<u64>)
        ensures
            r@ == self@.breakpoints,
    {
        &self.breakpoints
    }

    pub fn has_process(&self) -> (r: bool)
        ensures
            r == self@.inferior is Some,
    {
        self.inferior.is_some()
    }

    /// Takes away the traced process, if any, and returns its identifier so
    /// that the caller kills it. Done before every run and on quit.
    pub fn flush_inferior(&mut self) -> (r: Option<i32>)
        requires
            old(self)@.wf(),
        ensures
            (final(self)@, r) == flushed(old(self)@),
            final(self)@.wf(),
    {
        let r = match &self.inferior {
            Some(i) => Some(i.pid()),
            None => None,
        };
        self.inferior = None;
        r
    }

    /// Makes `inf`, just launched or handed back, the session's process.
    pub fn attach(&mut self, inf: Inferior)
        requires
            old(self)@.wf(),
            old(self)@.inferior is None,
            inf@.wf(),
        ensures
            final(self)@ == (DebuggerView { inferior: Some(inf@), ..old(self)@ }),
            final(self)@.wf(),
    {
        self.inferior = Some(inf);
    }

    /// Hands out the traced process for a command that needs one (continue,
    /// backtrace, a breakpoint set while running). Without a process this is
    /// the user's error and the session stays as it is.
    pub fn take_inferior(&mut self) -> (r: Result<Inferior, SessionError>)
        requires
            old(self)@.wf(),
        ensures
            final(self)@ == flushed(old(self)@).0,
            final(self)@.wf(),
            old(self)@.inferior is None <==> r is Err,
            r matches Err(e) ==> e == SessionError::NoProcess,
            r matches Ok(i) ==> old(self)@.inferior == Some(i@) && i@.wf(),
    {
        match self.inferior.take() {
            Some(i) => Ok(i),
            None => Err(SessionError::NoProcess),
        }
    }

    /// Takes back process `inf` after a resume that ended in `status`. The
    /// process is kept while it lives and discarded once it exited or was
    /// killed by a signal. Returns whether it was kept.
    pub fn record_status(&mut self, inf: Inferior, status: &Status) -> (r: bool)
        requires
            old(self)@.wf(),
            old(self)@.inferior is None,
            inf@.wf(),
        ensures
            r == !status.is_terminal(),
            final(self)@ == (DebuggerView {
                inferior: if r {
                    Some(inf@)
                } else {
                    None
                },
                ..old(self)@
            }),
            final(self)@.wf(),
    {
        if status.ends_process() {
            false
        } else {
            self.inferior = Some(inf);
            true
        }
    }

    /// Adds a breakpoint at the address that `text` denotes. Text that is no
    /// address gives address zero, and the caller warns. The address is kept
    /// for every later run; when a process runs, the caller installs it there
    /// as well.
    pub fn add_breakpoint(&mut self, text: &str) -> (r: BreakpointRequest)
        requires
            old(self)@.wf(),
            old(self)@.breakpoints.len() < usize::MAX,
        ensures
            r.parsed == parsed_address(text@) is Some,
            r.addr == match parsed_address(text@) {
                Some(a) => a,
                None => 0,
            },
            r.index == old(self)@.breakpoints.len(),
            r.install_now == old(self)@.inferior is Some,
            final(self)@ == (DebuggerView {
                breakpoints: old(self)@.breakpoints.push(r.addr),
                ..old(self)@
            }),
            final(self)@.wf(),
    {
        let parsed = parse_address(text);
        let addr: u64 = match parsed {
            Some(a) => a,
            None => 0,
        };
        let index = self.breakpoints.len();
        self.breakpoints.push(addr);
        BreakpointRequest {
            index,
            addr,
            parsed: parsed.is_some(),
            install_now: self.inferior.is_some(),
        }
    }
}

impl Debugger {
    /// Decides what a command does to the session and what the caller must
    /// carry out for it.
    pub fn handle(&mut self, cmd: DebuggerCommand) -> (r: SessionAction)
        requires
            old(self)@.wf(),
            cmd is AddBreakpoint ==> old(self)@.breakpoints.len() < usize::MAX,
        ensures
            final(self)@.wf(),
            match cmd@ {
                CommandView::Run(args) => {
                    &&& final(self)@ == flushed(old(self)@).0
                    &&& r matches SessionAction::Launch { kill, args: a } && kill == flushed(
                        old(self)@,
                    ).1 && a@.map_values(|s: String| s@) =~= args
                },
                CommandView::Quit => {
                    &&& final(self)@ == flushed(old(self)@).0
                    &&& r matches SessionAction::Exit { kill } && kill == flushed(old(self)@).1
                },
                CommandView::Continue => {
                    &&& final(self)@ == flushed(old(self)@).0
                    &&& match (old(self)@.inferior, r) {
                        (None, SessionAction::NoProcess) => true,
                        (Some(i), SessionAction::Resume(inf)) => inf@ == i && inf@.wf(),
                        _ => false,
                    }
                },
                CommandView::Backtrace => {
                    &&& final(self)@ == flushed(old(self)@).0
                    &&& match (old(self)@.inferior, r) {
                        (None, SessionAction::NoProcess) => true,
                        (Some(i), SessionAction::Backtrace(inf)) => inf@ == i && inf@.wf(),
                        _ => false,
                    }
                },
                CommandView::AddBreakpoint(text) => {
                    let addr = match parsed_address(text) {
                        Some(a) => a,
                        None => 0,
                    };
                    &&& final(self)@ == (DebuggerView {
                        breakpoints: old(self)@.breakpoints.push(addr),
                        inferior: None,
                        ..old(self)@
                    })
                    &&& r matches SessionAction::BreakpointAdded(req, inf) && req == (
                    BreakpointRequest {
                        index: old(self)@.breakpoints.len() as usize,
                        addr,
                        parsed: parsed_address(text) is Some,
                        install_now: old(self)@.inferior is Some,
                    }) && match (old(self)@.inferior, inf) {
                        (Some(i), Some(x)) => x@ == i && x@.wf(),
                        (None, None) => true,
                        _ => false,
                    }
                },
            },
    {
        match cmd {
            DebuggerCommand::Run(args) => {
                let kill = self.flush_inferior();
                SessionAction::Launch { kill, args }
            },
            DebuggerCommand::Quit => {
                let kill = self.flush_inferior();
                SessionAction::Exit { kill }
            },
            DebuggerCommand::Continue => match self.take_inferior() {
                Ok(inf) => SessionAction::Resume(inf),
                Err(_) => SessionAction::NoProcess,
            },
            DebuggerCommand::Backtrace => match self.take_inferior() {
                Ok(inf) => SessionAction::Backtrace(inf),
                Err(_) => SessionAction::NoProcess,
            },
            DebuggerCommand::AddBreakpoint(text) => {
                let req = self.add_breakpoint(text.as_str());
                let inf = self.inferior.take();
                SessionAction::BreakpointAdded(req, inf)
            },
        }
    }
}

/// A fresh run or a quit leaves no traced process behind: the one that was
/// traced, if any, is handed out to be killed, none remains, and the
/// requested breakpoints survive for the next process. A new process can be
/// attached only to a session without one, so at most one is ever traced.
pub proof fn lemma_restart_leaves_no_process(v: DebuggerView)
    requires
        v.wf(),
    ensures
        flushed(v).0.inferior is None,
        flushed(v).0.wf(),
        flushed(v).0.breakpoints == v.breakpoints,
        flushed(v).0.target == v.target,
        v.inferior is Some <==> flushed(v).1 is Some,
        v.inferior matches Some(i) ==> flushed(v).1 == Some(i.pid),
{
}

} // verus!
