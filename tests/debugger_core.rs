use deet::backtrace::{frame_step, is_entry_function, Frame, FrameStep};
use deet::command::{break_target, get_breakpoint_type, DebuggerCommand, parse_address, parse_unsigned_radix, BreakPointType, BreakTarget};
use deet::memory::{align_addr_to_word, patch_byte_at, patch_word, TRAP_OPCODE};
use deet::registry::{BreakPoint, BreakpointRegistry};
use deet::session::{ContinuePlan, Session, Status, SIGTRAP};

#[test]
fn align_rounds_down_to_word() {
    assert_eq!(align_addr_to_word(0x401003), 0x401000);
    assert_eq!(align_addr_to_word(0x401008), 0x401008);
    assert_eq!(align_addr_to_word(7), 0);
}

#[test]
fn patch_word_exact_values() {
    let (w, orig) = patch_word(0x1122334455667788, 0, TRAP_OPCODE);
    assert_eq!(w, 0x11223344556677cc);
    assert_eq!(orig, 0x88);
    let (w, orig) = patch_word(0x1122334455667788, 7, TRAP_OPCODE);
    assert_eq!(w, 0xcc22334455667788);
    assert_eq!(orig, 0x11);
    let (w, orig) = patch_byte_at(0x1122334455667788, 0x401002, TRAP_OPCODE);
    assert_eq!(w, 0x1122334455cc7788);
    assert_eq!(orig, 0x66);
}

#[test]
fn install_then_restore_gives_back_the_word() {
    let word: u64 = 0xdeadbeef01020304;
    for addr in 0x1000usize..0x1008 {
        let (armed, orig) = patch_byte_at(word, addr, TRAP_OPCODE);
        let (_, read_back) = patch_byte_at(armed, addr, TRAP_OPCODE);
        assert_eq!(read_back, TRAP_OPCODE);
        let (restored, trap) = patch_byte_at(armed, addr, orig);
        assert_eq!(trap, TRAP_OPCODE);
        assert_eq!(restored, word);
    }
}

#[test]
fn registry_same_address_twice_keeps_one_entry() {
    let mut r = BreakpointRegistry::new();
    assert_eq!(r.request_break(0x401000), 1);
    assert_eq!(r.request_break(0x401010), 2);
    assert_eq!(r.len(), 2);
    assert_eq!(r.request_break(0x401000), 1);
    assert_eq!(r.len(), 2);
    assert_eq!(r.addresses(), vec![0x401000, 0x401010]);
    assert_eq!(r.lookup(0x401010).map(|b| b.id()), Some(2));
    assert!(r.lookup(0x401020).is_none());
}

#[test]
fn registry_records_original_byte() {
    let mut r = BreakpointRegistry::new();
    r.request_break(0x500);
    assert!(!r.lookup(0x500).unwrap().installed);
    r.mark_installed(0x500, 0x55);
    let b = r.lookup(0x500).unwrap();
    assert!(b.installed);
    assert_eq!(b.orig_byte, 0x55);
    r.mark_disarmed(0x500);
    assert!(!r.lookup(0x500).unwrap().installed);
}

#[test]
fn breakpoint_set_byte() {
    let mut b = BreakPoint::new(3, 0x40);
    assert_eq!(b.addr(), 0x40);
    assert_eq!(b.id(), 3);
    b.set_byte(0x90);
    assert_eq!(b.orig_byte, 0x90);
    assert!(b.installed);
}

#[test]
fn parse_address_forms() {
    assert_eq!(parse_address("0x401000"), Some(0x401000));
    assert_eq!(parse_address("0X40100a"), Some(0x40100a));
    assert_eq!(parse_address("401000"), Some(0x401000));
    assert_eq!(parse_address("0"), Some(0));
    assert_eq!(parse_address("0x"), None);
    assert_eq!(parse_address(""), None);
    assert_eq!(parse_address("xyz"), None);
    assert_eq!(parse_address("ffffffffffffffff"), Some(usize::MAX));
    assert_eq!(parse_address("10000000000000000"), None);
}

#[test]
fn parse_unsigned_matches_std() {
    for s in ["42", "+42", "", "+", "-1", "4a", "18446744073709551615", "18446744073709551616", "007"] {
        assert_eq!(parse_unsigned_radix(s, 10), usize::from_str_radix(s, 10).ok(), "{}", s);
    }
    for s in ["ff", "FF", "+a", "g", "ffffffffffffffff1"] {
        assert_eq!(parse_unsigned_radix(s, 16), usize::from_str_radix(s, 16).ok(), "{}", s);
    }
}

#[test]
fn breakpoint_type_dispatch() {
    assert!(matches!(get_breakpoint_type("*0x0"), BreakPointType::Raw("0x0")));
    assert!(matches!(get_breakpoint_type("42"), BreakPointType::Line(42)));
    assert!(matches!(get_breakpoint_type("main"), BreakPointType::Func("main")));
    assert!(matches!(get_breakpoint_type("*main"), BreakPointType::Raw("main")));
}

#[test]
fn break_target_needs_resolver_only_for_lines_and_functions() {
    assert!(matches!(break_target("*0x0"), BreakTarget::Address(0)));
    assert!(matches!(break_target("*0x401000"), BreakTarget::Address(0x401000)));
    assert!(matches!(break_target("*zz"), BreakTarget::BadAddress));
    assert!(matches!(break_target("42"), BreakTarget::Line(42)));
    assert!(matches!(break_target("main"), BreakTarget::Function("main")));
    assert!(matches!(break_target("12ab"), BreakTarget::Function("12ab")));
}

#[test]
fn continue_at_trap_steps_over_first() {
    let mut s = Session::new();
    s.request_break(0x401000);
    assert_eq!(s.plan_continue(0x401001), ContinuePlan::NoProcess);
    let addrs = s.start();
    assert_eq!(addrs, vec![0x401000]);
    s.mark_installed(0x401000, 0x55);
    assert_eq!(s.plan_continue(0x401001), ContinuePlan::StepOver { addr: 0x401000, orig_byte: 0x55 });
    assert_eq!(s.plan_continue(0x401000), ContinuePlan::Resume);
    assert_eq!(s.plan_continue(0), ContinuePlan::Resume);
    assert!(s.finish_step(0x401000, Status::Stopped(SIGTRAP, 0x401004)));
    assert!(s.breakpoint_at(0x401000).unwrap().installed);
}

#[test]
fn failed_step_disarms_the_breakpoint() {
    let mut s = Session::new();
    s.request_break(0x10);
    s.start();
    s.mark_installed(0x10, 0x90);
    assert!(!s.finish_step(0x10, Status::Stopped(11, 0x11)));
    assert!(s.is_running());
    assert!(!s.breakpoint_at(0x10).unwrap().installed);
    assert_eq!(s.plan_continue(0x11), ContinuePlan::Resume);
    assert!(!s.finish_step(0x10, Status::Exited(0)));
    assert!(!s.is_running());
}

#[test]
fn break_while_running_asks_for_install() {
    let mut s = Session::new();
    let r = s.request_break(0x20);
    assert_eq!(r.id, 1);
    assert!(!r.install);
    s.start();
    let r = s.request_break(0x30);
    assert_eq!(r.id, 2);
    assert!(r.install);
    s.mark_installed(0x30, 1);
    let r = s.request_break(0x30);
    assert_eq!(r.id, 2);
    assert!(!r.install);
    assert_eq!(s.breakpoint_count(), 2);
}

#[test]
fn backtrace_without_process_is_skipped() {
    let s = Session::new();
    assert!(!s.is_running());
}

#[test]
fn exit_zero_ends_the_process() {
    let mut s = Session::new();
    s.request_break(0x40);
    s.start();
    s.mark_installed(0x40, 7);
    s.record_status(Status::Exited(0));
    assert!(!s.is_running());
    assert_eq!(s.plan_continue(0x41), ContinuePlan::NoProcess);
    assert!(!s.breakpoint_at(0x40).unwrap().installed);
    assert!(!s.quit());
}

#[test]
fn stop_keeps_process_and_quit_asks_for_kill() {
    let mut s = Session::new();
    s.start();
    s.record_status(Status::Stopped(SIGTRAP, 0x401001));
    assert!(s.is_running());
    s.record_status(Status::Signaled(9));
    assert!(!s.is_running());
    s.start();
    assert!(s.quit());
    assert!(!s.is_running());
}

#[test]
fn frame_steps() {
    let f = Frame { ip: 0x401020, base: 0x7ffc0000 };
    assert_eq!(frame_step(f, Some("main"), Some(10)), FrameStep::Outermost);
    assert_eq!(
        frame_step(f, Some("func"), Some(3)),
        FrameStep::Next { return_addr_at: 0x7ffc0008, caller_base_at: 0x7ffc0000 }
    );
    assert_eq!(frame_step(f, None, Some(3)), FrameStep::Unresolved);
    assert_eq!(frame_step(f, Some("func"), None), FrameStep::Unresolved);
    let top = Frame { ip: 1, base: usize::MAX - 3 };
    assert_eq!(frame_step(top, Some("func"), Some(1)), FrameStep::BadFrame);
}

#[test]
fn entry_function_name() {
    assert!(is_entry_function("main"));
    assert!(!is_entry_function("mai"));
    assert!(!is_entry_function("mainx"));
    assert!(!is_entry_function("Main"));
}

#[test]
fn commands_from_tokens() {
    assert!(matches!(DebuggerCommand::from_tokens(&vec!["q"]), Some(DebuggerCommand::Quit)));
    assert!(matches!(DebuggerCommand::from_tokens(&vec!["quit"]), Some(DebuggerCommand::Quit)));
    assert!(matches!(DebuggerCommand::from_tokens(&vec!["c"]), Some(DebuggerCommand::Continue)));
    assert!(matches!(DebuggerCommand::from_tokens(&vec!["bt"]), Some(DebuggerCommand::Backtrace)));
    match DebuggerCommand::from_tokens(&vec!["run", "a", "b"]) {
        Some(DebuggerCommand::Run(args)) => assert_eq!(args, vec!["a".to_string(), "b".to_string()]),
        _ => panic!("expected run"),
    }
    match DebuggerCommand::from_tokens(&vec!["b", "*0x401000"]) {
        Some(DebuggerCommand::Break(spec)) => assert_eq!(spec, "*0x401000"),
        _ => panic!("expected break"),
    }
    assert!(DebuggerCommand::from_tokens(&vec!["break"]).is_none());
    assert!(DebuggerCommand::from_tokens(&vec!["frobnicate"]).is_none());
    assert!(DebuggerCommand::from_tokens(&Vec::new()).is_none());
}
