use deet::backtrace::{walk_step, WalkStep, MAX_FRAMES};
use deet::breakpoint::Breakpoint;
use deet::command::DebuggerCommand;
use deet::debugger::{Debugger, SessionAction, SessionError};
use deet::inferior::{Inferior, ResumePlan, StepOutcome};
use deet::status::{Status, SIGTRAP};
use deet::text::{parse_address, str_equal};
use deet::word::{align_addr_to_word, patch_word, TRAP_OPCODE};

const SIGSEGV: i32 = 11;

fn launched(pid: i32) -> Inferior {
    Inferior::new(pid, &Status::Stopped(SIGTRAP, 0x401000)).expect("trap stop starts tracing")
}

#[test]
fn breakpoint_new_has_no_byte() {
    let bp = Breakpoint::new(0x401136);
    assert_eq!(bp.get_addr(), 0x401136);
    assert_eq!(bp.get_orig_byte(), 0);
}

#[test]
fn breakpoint_set_orig_byte() {
    let mut bp = Breakpoint::new(0x10);
    bp.set_orig_byte(0x55);
    assert_eq!(bp.get_orig_byte(), 0x55);
    assert_eq!(bp.get_addr(), 0x10);
}

#[test]
fn align_to_word() {
    assert_eq!(align_addr_to_word(0x401136), 0x401130);
    assert_eq!(align_addr_to_word(0x401130), 0x401130);
    assert_eq!(align_addr_to_word(7), 0);
    assert_eq!(align_addr_to_word(u64::MAX), u64::MAX - 7);
}

#[test]
fn patch_word_replaces_one_byte() {
    let word: u64 = 0x1122_3344_5566_7788;
    assert_eq!(patch_word(word, 0x1000, TRAP_OPCODE), (0x88, 0x1122_3344_5566_77cc));
    assert_eq!(patch_word(word, 0x1003, TRAP_OPCODE), (0x55, 0x1122_3344_cc66_7788));
    assert_eq!(patch_word(word, 0x1007, 0x00), (0x11, 0x0022_3344_5566_7788));
}

#[test]
fn patch_then_restore_gives_word_back() {
    let word: u64 = 0xdead_beef_0bad_f00d;
    let (orig, patched) = patch_word(word, 0x2005, TRAP_OPCODE);
    let (trap, restored) = patch_word(patched, 0x2005, orig);
    assert_eq!(trap, TRAP_OPCODE);
    assert_eq!(restored, word);
}

#[test]
fn parse_address_with_prefix() {
    assert_eq!(parse_address("*0x401136"), Some(0x401136));
    assert_eq!(parse_address("*0X1f"), Some(0x1f));
    assert_eq!(parse_address("*0xABCdef"), Some(0xabcdef));
}

#[test]
fn parse_address_without_prefix() {
    assert_eq!(parse_address("401136"), Some(0x401136));
    assert_eq!(parse_address("0x10"), None);
    assert_eq!(parse_address("+10"), Some(0x10));
    assert_eq!(parse_address("ffffffffffffffff"), Some(u64::MAX));
}

#[test]
fn parse_address_rejects_malformed() {
    assert_eq!(parse_address("xyz"), None);
    assert_eq!(parse_address(""), None);
    assert_eq!(parse_address("*0x"), None);
    assert_eq!(parse_address("+"), None);
    assert_eq!(parse_address("-5"), None);
    assert_eq!(parse_address("12g4"), None);
    assert_eq!(parse_address("10000000000000000"), None);
}

#[test]
fn str_equal_compares_characters() {
    assert!(str_equal("main", "main"));
    assert!(!str_equal("main", "mains"));
    assert!(!str_equal("main", "maim"));
    assert!(str_equal("", ""));
}

#[test]
fn from_tokens_names_commands() {
    assert!(matches!(DebuggerCommand::from_tokens(&vec!["q"]), Some(DebuggerCommand::Quit)));
    assert!(matches!(DebuggerCommand::from_tokens(&vec!["quit"]), Some(DebuggerCommand::Quit)));
    assert!(matches!(DebuggerCommand::from_tokens(&vec!["cont"]), Some(DebuggerCommand::Continue)));
    assert!(matches!(DebuggerCommand::from_tokens(&vec!["c"]), Some(DebuggerCommand::Continue)));
    assert!(matches!(DebuggerCommand::from_tokens(&vec!["bt"]), Some(DebuggerCommand::Backtrace)));
    assert!(matches!(DebuggerCommand::from_tokens(&vec!["back"]), Some(DebuggerCommand::Backtrace)));
    assert!(DebuggerCommand::from_tokens(&vec!["step"]).is_none());
    assert!(DebuggerCommand::from_tokens(&vec!["Quit"]).is_none());
}

#[test]
fn from_tokens_run_keeps_arguments() {
    match DebuggerCommand::from_tokens(&vec!["run", "a", "bc"]) {
        Some(DebuggerCommand::Run(args)) => assert_eq!(args, vec!["a".to_string(), "bc".to_string()]),
        other => panic!("unexpected {:?}", other),
    }
    match DebuggerCommand::from_tokens(&vec!["r"]) {
        Some(DebuggerCommand::Run(args)) => assert!(args.is_empty()),
        other => panic!("unexpected {:?}", other),
    }
}

#[test]
fn from_tokens_break_takes_address_text() {
    match DebuggerCommand::from_tokens(&vec!["break", "*0x401136", "extra"]) {
        Some(DebuggerCommand::AddBreakpoint(text)) => assert_eq!(text, "*0x401136"),
        other => panic!("unexpected {:?}", other),
    }
}

#[test]
fn launch_requires_trap_stop() {
    assert!(Inferior::new(42, &Status::Exited(0)).is_none());
    assert!(Inferior::new(42, &Status::Signaled(9)).is_none());
    assert!(Inferior::new(42, &Status::Stopped(SIGSEGV, 0x10)).is_none());
    let inf = launched(42);
    assert_eq!(inf.pid(), 42);
    assert!(!inf.is_armed(0x401136));
    assert_eq!(inf.get_breakpoint(0x401136), None);
}

#[test]
fn install_records_captured_byte() {
    let mut inf = launched(7);
    let bp = inf.add_breakpoint(0x401136, Some(0x55));
    assert_eq!(bp, Breakpoint { addr: 0x401136, orig_byte: 0x55 });
    assert!(inf.is_armed(0x401136));
    assert_eq!(inf.get_breakpoint(0x401136), Some(bp));
}

#[test]
fn install_failure_records_zero_and_stays_inert() {
    let mut inf = launched(7);
    let bp = inf.add_breakpoint(0x0, None);
    assert_eq!(bp, Breakpoint { addr: 0, orig_byte: 0 });
    assert!(!inf.is_armed(0));
    assert_eq!(inf.resume_plan(1), ResumePlan::RunFree);
}

#[test]
fn install_twice_keeps_true_byte() {
    let mut inf = launched(7);
    inf.add_breakpoint(0x401136, Some(0x48));
    // The second patch would read back the trap opcode.
    let again = inf.add_breakpoint(0x401136, Some(TRAP_OPCODE));
    assert_eq!(again, Breakpoint { addr: 0x401136, orig_byte: 0x48 });
    assert_eq!(inf.get_breakpoint(0x401136), Some(again));
    assert!(inf.is_armed(0x401136));
}

#[test]
fn requested_breakpoints_all_armed() {
    let mut inf = launched(7);
    let requested: Vec<(u64, Option<u8>)> = vec![(0x401000, Some(0x55)), (0x0, None), (0x401010, Some(0x48)), (0x401000, Some(TRAP_OPCODE))];
    for (addr, captured) in requested {
        inf.add_breakpoint(addr, captured);
    }
    assert!(inf.is_armed(0x401000));
    assert!(inf.is_armed(0x401010));
    assert!(!inf.is_armed(0x0));
    assert_eq!(inf.get_breakpoint(0x401000).unwrap().get_orig_byte(), 0x55);
}

#[test]
fn resume_away_from_breakpoint_runs_free() {
    let mut inf = launched(7);
    inf.add_breakpoint(0x401136, Some(0x55));
    assert_eq!(inf.resume_plan(0x401136), ResumePlan::RunFree);
    assert_eq!(inf.resume_plan(0), ResumePlan::RunFree);
    assert!(inf.is_armed(0x401136));
}

#[test]
fn breakpoint_in_loop_fires_every_pass() {
    let mut inf = launched(7);
    inf.add_breakpoint(0x401136, Some(0x55));
    for _ in 0..3 {
        let plan = inf.resume_plan(0x401137);
        let bp = Breakpoint { addr: 0x401136, orig_byte: 0x55 };
        assert_eq!(plan, ResumePlan::StepOver(bp));
        assert!(!inf.is_armed(0x401136));
        assert_eq!(Inferior::after_step(bp, Status::Stopped(SIGTRAP, 0x401138)), StepOutcome::Rearm(0x401136));
        inf.add_breakpoint(0x401136, Some(0x55));
        assert!(inf.is_armed(0x401136));
    }
}

#[test]
fn step_that_ends_otherwise_is_the_result() {
    let bp = Breakpoint { addr: 0x401136, orig_byte: 0x55 };
    assert_eq!(Inferior::after_step(bp, Status::Exited(3)), StepOutcome::Finished(Status::Exited(3)));
    assert_eq!(
        Inferior::after_step(bp, Status::Stopped(SIGSEGV, 0x401137)),
        StepOutcome::Finished(Status::Stopped(SIGSEGV, 0x401137))
    );
}

#[test]
fn first_stop_at_breakpoint_then_continue_moves_past_it() {
    let mut inf = launched(9);
    let a: u64 = 0x401136;
    inf.add_breakpoint(a, Some(0x55));
    // Resume from the launch stop: not at a breakpoint.
    assert_eq!(inf.resume_plan(0x7f00_0000_1000), ResumePlan::RunFree);
    let first = Status::Stopped(SIGTRAP, a + 1);
    assert!(first.is_trap());
    // Continue: step over the original instruction, then run freely.
    let plan = inf.resume_plan(a + 1);
    assert_eq!(plan, ResumePlan::StepOver(Breakpoint { addr: a, orig_byte: 0x55 }));
    let stepped = Status::Stopped(SIGTRAP, a + 4);
    assert_ne!(stepped, first);
    assert_eq!(Inferior::after_step(Breakpoint { addr: a, orig_byte: 0x55 }, stepped), StepOutcome::Rearm(a));
    inf.add_breakpoint(a, Some(0x55));
    assert_eq!(inf.resume_plan(a + 4), ResumePlan::RunFree);
    assert!(inf.is_armed(a));
}

#[test]
fn status_predicates() {
    assert!(Status::Stopped(SIGTRAP, 1).is_trap());
    assert!(!Status::Stopped(SIGSEGV, 1).is_trap());
    assert!(!Status::Exited(0).is_trap());
    assert!(Status::Exited(0).ends_process());
    assert!(Status::Signaled(9).ends_process());
    assert!(!Status::Stopped(SIGTRAP, 1).ends_process());
}

#[test]
fn walk_stops_at_main() {
    assert_eq!(walk_step(0, 0x7ffc_0000, "main"), WalkStep::Stop);
    assert_eq!(
        walk_step(0, 0x7ffc_0000, "func2"),
        WalkStep::Next { return_slot: 0x7ffc_0008, base_slot: 0x7ffc_0000 }
    );
    assert_eq!(walk_step(3, 0x7ffc_0000, "couldn't find the function"), WalkStep::Next { return_slot: 0x7ffc_0008, base_slot: 0x7ffc_0000 });
}

#[test]
fn walk_stops_at_frame_limit_and_bad_base() {
    assert_eq!(walk_step(MAX_FRAMES - 1, 0x7ffc_0000, "loop"), WalkStep::Stop);
    assert_eq!(walk_step(MAX_FRAMES - 2, 0x7ffc_0000, "loop"), WalkStep::Next { return_slot: 0x7ffc_0008, base_slot: 0x7ffc_0000 });
    assert_eq!(walk_step(0, u64::MAX - 7, "f"), WalkStep::Stop);
    assert_eq!(walk_step(0, u64::MAX - 8, "f"), WalkStep::Next { return_slot: u64::MAX, base_slot: u64::MAX - 8 });
}

#[test]
fn walk_over_chain_emits_frames_up_to_main() {
    let names = ["func3", "func2", "func1", "main", "__libc_start_main"];
    let mut depth: usize = 0;
    let mut rbp: u64 = 0x1000;
    loop {
        match walk_step(depth, rbp, names[depth]) {
            WalkStep::Stop => break,
            WalkStep::Next { base_slot, .. } => {
                rbp = base_slot + 0x20;
                depth += 1;
            }
        }
    }
    assert_eq!(depth + 1, 4);
}

#[test]
fn walk_over_endless_chain_is_cut_off() {
    let mut depth: usize = 0;
    loop {
        match walk_step(depth, 0x1000, "recurse") {
            WalkStep::Stop => break,
            WalkStep::Next { .. } => depth += 1,
        }
    }
    assert_eq!(depth + 1, MAX_FRAMES);
}

#[test]
fn session_starts_empty() {
    let d = Debugger::new("samples/segfault");
    assert_eq!(d.target(), "samples/segfault");
    assert!(d.breakpoints().is_empty());
    assert!(!d.has_process());
}

#[test]
fn run_twice_leaves_one_process() {
    let mut d = Debugger::new("samples/sleepy_print");
    assert_eq!(d.flush_inferior(), None);
    d.attach(launched(100));
    assert_eq!(d.flush_inferior(), Some(100));
    assert!(!d.has_process());
    d.attach(launched(101));
    assert!(d.has_process());
    // Quit.
    assert_eq!(d.flush_inferior(), Some(101));
    assert!(!d.has_process());
    assert_eq!(d.flush_inferior(), None);
}

#[test]
fn breakpoints_survive_restart() {
    let mut d = Debugger::new("samples/count");
    d.add_breakpoint("*0x401136");
    d.attach(launched(5));
    d.flush_inferior();
    assert_eq!(d.breakpoints(), &vec![0x401136]);
}

#[test]
fn target_that_exits_leaves_no_process() {
    let mut d = Debugger::new("samples/exit");
    d.attach(launched(55));
    let inf = d.take_inferior().expect("process attached");
    let plan_inf = inf;
    assert!(!d.record_status(plan_inf, &Status::Exited(0)));
    assert!(!d.has_process());
    assert_eq!(d.take_inferior().err(), Some(SessionError::NoProcess));
    assert_eq!(d.take_inferior().err(), Some(SessionError::NoProcess));
}

#[test]
fn signaled_target_is_discarded_and_stopped_kept() {
    let mut d = Debugger::new("samples/segfault");
    d.attach(launched(56));
    let inf = d.take_inferior().unwrap();
    assert!(d.record_status(inf, &Status::Stopped(SIGSEGV, 0x401140)));
    assert!(d.has_process());
    let inf = d.take_inferior().unwrap();
    assert!(!d.record_status(inf, &Status::Signaled(SIGSEGV)));
    assert!(!d.has_process());
}

#[test]
fn malformed_breakpoint_falls_back_to_zero() {
    let mut d = Debugger::new("samples/count");
    let r = d.add_breakpoint("xyz");
    assert_eq!(r.addr, 0);
    assert!(!r.parsed);
    assert_eq!(r.index, 0);
    assert!(!r.install_now);
    let r2 = d.add_breakpoint("*0x401136");
    assert!(r2.parsed);
    assert_eq!(r2.index, 1);
    assert_eq!(d.breakpoints(), &vec![0, 0x401136]);
}

#[test]
fn breakpoint_while_running_is_installed_now() {
    let mut d = Debugger::new("samples/count");
    d.attach(launched(8));
    let r = d.add_breakpoint("401136");
    assert!(r.install_now);
    assert_eq!(r.addr, 0x401136);
}

#[test]
fn continue_and_backtrace_without_process_report_it() {
    let mut d = Debugger::new("samples/exit");
    d.attach(launched(60));
    let inf = match d.handle(DebuggerCommand::Continue) {
        SessionAction::Resume(inf) => inf,
        _ => panic!("continue must hand out the process"),
    };
    assert_eq!(inf.pid(), 60);
    assert!(!d.record_status(inf, &Status::Exited(0)));
    assert!(matches!(d.handle(DebuggerCommand::Continue), SessionAction::NoProcess));
    assert!(matches!(d.handle(DebuggerCommand::Backtrace), SessionAction::NoProcess));
    assert!(!d.has_process());
}

#[test]
fn handle_run_kills_previous_process() {
    let mut d = Debugger::new("samples/sleepy_print");
    match d.handle(DebuggerCommand::Run(vec!["5".to_string()])) {
        SessionAction::Launch { kill, args } => {
            assert_eq!(kill, None);
            assert_eq!(args, vec!["5".to_string()]);
        }
        _ => panic!("run must launch"),
    }
    d.attach(launched(70));
    match d.handle(DebuggerCommand::Run(vec![])) {
        SessionAction::Launch { kill, args } => {
            assert_eq!(kill, Some(70));
            assert!(args.is_empty());
        }
        _ => panic!("run must launch"),
    }
    assert!(!d.has_process());
    d.attach(launched(71));
    assert!(matches!(d.handle(DebuggerCommand::Quit), SessionAction::Exit { kill: Some(71) }));
    assert!(!d.has_process());
}

#[test]
fn handle_backtrace_hands_out_process() {
    let mut d = Debugger::new("samples/segfault");
    d.attach(launched(80));
    match d.handle(DebuggerCommand::Backtrace) {
        SessionAction::Backtrace(inf) => {
            assert_eq!(inf.pid(), 80);
            d.attach(inf);
        }
        _ => panic!("backtrace must hand out the process"),
    }
    assert!(d.has_process());
}

#[test]
fn handle_malformed_breakpoint_warns_and_uses_zero() {
    let mut d = Debugger::new("samples/count");
    match d.handle(DebuggerCommand::AddBreakpoint("xyz".to_string())) {
        SessionAction::BreakpointAdded(req, inf) => {
            assert_eq!(req.addr, 0);
            assert!(!req.parsed);
            assert!(inf.is_none());
        }
        _ => panic!("a breakpoint must be added"),
    }
    assert_eq!(d.breakpoints(), &vec![0]);
}

#[test]
fn handle_breakpoint_while_running_hands_out_process() {
    let mut d = Debugger::new("samples/count");
    d.attach(launched(90));
    match d.handle(DebuggerCommand::AddBreakpoint("*0x401136".to_string())) {
        SessionAction::BreakpointAdded(req, Some(mut inf)) => {
            assert_eq!(req.addr, 0x401136);
            assert_eq!(req.index, 0);
            assert!(req.install_now);
            inf.add_breakpoint(req.addr, Some(0x55));
            d.attach(inf);
        }
        _ => panic!("the running process must be handed out"),
    }
    assert!(d.has_process());
}
