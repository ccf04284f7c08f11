use gameboy_display::debug::{
    registers_text, step_text, DebugAction, Debugger, Registers, TickStep, HELP_TEXT, INFO_TEXT, PROMPT,
    UNKNOWN_COMMAND_TEXT,
};

#[test]
fn new_debugger_is_idle_and_empty() {
    let d = Debugger::new();
    assert!(!d.is_debugging());
    assert_eq!(d.breakpoints_text(), "No breakpoints found\n");
}

#[test]
fn add_breakpoint_appends_once() {
    let mut d = Debugger::new();
    d.add_breakpoint(Some(0x0100));
    d.add_breakpoint(Some(0x0200));
    d.add_breakpoint(Some(0x0100));
    d.add_breakpoint(None);
    assert_eq!(d.breakpoints_text(), "Breakpoints: 0x0100 0x0200\n");
}

#[test]
fn remove_breakpoint_keeps_order_of_the_rest() {
    let mut d = Debugger::new();
    d.add_breakpoint(Some(0x0001));
    d.add_breakpoint(Some(0xabcd));
    d.add_breakpoint(Some(0x0003));
    d.remove_breakpoint(Some(0xabcd));
    assert_eq!(d.breakpoints_text(), "Breakpoints: 0x0001 0x0003\n");
    d.remove_breakpoint(Some(0x7777));
    d.remove_breakpoint(None);
    assert_eq!(d.breakpoints_text(), "Breakpoints: 0x0001 0x0003\n");
    d.remove_breakpoint(Some(0x0001));
    d.remove_breakpoint(Some(0x0003));
    assert_eq!(d.breakpoints_text(), "No breakpoints found\n");
}

#[test]
fn delete_undoes_add() {
    let mut d = Debugger::new();
    d.add_breakpoint(Some(0x10));
    let before = d.breakpoints_text();
    d.add_breakpoint(Some(0x20));
    d.remove_breakpoint(Some(0x20));
    assert_eq!(d.breakpoints_text(), before);
}

#[test]
fn check_breakpoints_pauses_only_at_breakpoints() {
    let mut d = Debugger::new();
    d.add_breakpoint(Some(0x0150));
    d.check_breakpoints(0x014f);
    assert!(!d.is_debugging());
    d.check_breakpoints(0x0150);
    assert!(d.is_debugging());
    d.check_breakpoints(0x0151);
    assert!(d.is_debugging());
    d.set_debugging(false);
    assert!(!d.is_debugging());
    d.set_debugging(true);
    assert!(d.is_debugging());
}

#[test]
fn break_list_delete_commands() {
    let mut d = Debugger::new();
    assert_eq!(d.run_command("b 0100\n"), DebugAction::Done);
    assert_eq!(d.run_command("b C000\r\n"), DebugAction::Done);
    assert_eq!(d.run_command("l\n"), DebugAction::ListBreakpoints);
    assert_eq!(d.breakpoints_text(), "Breakpoints: 0x0100 0xc000\n");
    assert_eq!(d.run_command("d 100\n"), DebugAction::Done);
    assert_eq!(d.breakpoints_text(), "Breakpoints: 0xc000\n");
}

#[test]
fn break_command_with_bad_address_changes_nothing() {
    let mut d = Debugger::new();
    assert_eq!(d.run_command("b xyz\n"), DebugAction::Done);
    assert_eq!(d.run_command("b 10000\n"), DebugAction::Done);
    assert_eq!(d.run_command("b  0100\n"), DebugAction::Done);
    assert_eq!(d.breakpoints_text(), "No breakpoints found\n");
    assert_eq!(d.run_command("b +1f extra\n"), DebugAction::Done);
    assert_eq!(d.breakpoints_text(), "Breakpoints: 0x001f\n");
}

#[test]
fn commands_without_address() {
    let mut d = Debugger::new();
    assert_eq!(d.run_command("b\n"), DebugAction::MissingAddress);
    assert_eq!(d.run_command("d\n"), DebugAction::MissingAddress);
    assert_eq!(d.run_command("p"), DebugAction::MissingAddress);
    assert_eq!(d.breakpoints_text(), "No breakpoints found\n");
}

#[test]
fn continue_and_quit() {
    let mut d = Debugger::new();
    d.set_debugging(true);
    assert_eq!(d.run_command("q\n"), DebugAction::Quit);
    assert!(d.is_debugging());
    assert_eq!(d.run_command("c\n"), DebugAction::Continue);
    assert!(!d.is_debugging());
}

#[test]
fn other_commands() {
    let mut d = Debugger::new();
    assert_eq!(d.run_command("disass\n"), DebugAction::Disassemble);
    assert_eq!(d.run_command("h\n"), DebugAction::ShowHelp);
    assert_eq!(d.run_command("n\n"), DebugAction::Step);
    assert_eq!(d.run_command("reg\n"), DebugAction::ShowRegisters);
    assert_eq!(d.run_command("p ff80\n"), DebugAction::DumpMemory(0xff80));
    assert_eq!(d.run_command("p nope\n"), DebugAction::Done);
    assert_eq!(d.run_command("x\n"), DebugAction::Unknown);
    assert_eq!(d.run_command("\n"), DebugAction::Unknown);
    assert_eq!(d.run_command(""), DebugAction::Unknown);
    assert_eq!(d.run_command(" c\n"), DebugAction::Unknown);
    assert_eq!(d.run_command("C\n"), DebugAction::Unknown);
    assert_eq!(d.run_command("c\n\n"), DebugAction::Unknown);
}

#[test]
fn register_and_step_text() {
    let r = Registers { pc: 0x0150, sp: 0xfffe, af: 0x01b0, bc: 0x0013, de: 0x00d8, hl: 0x014d };
    assert_eq!(
        registers_text(&r),
        "PC: 0x0150\nSP: 0xfffe\nAF: 0x01b0\nBC: 0x0013\nDE: 0x00d8\nHL: 0x014d\n\n"
    );
    assert_eq!(step_text(0xabcd), "PC: 0xabcd\n");
}

#[test]
fn fixed_texts() {
    assert_eq!(PROMPT, "(gbd) ");
    assert_eq!(INFO_TEXT, "gbd - Game Boy Debugger\n\n");
    assert_eq!(UNKNOWN_COMMAND_TEXT, "Unknown command\n");
    assert!(HELP_TEXT.starts_with("'b XXXX' to add a breakpoint at that address\n'c' to continue"));
    assert!(HELP_TEXT.ends_with("'reg' to print register contents\n\n"));
    assert_eq!(HELP_TEXT.lines().count(), 11);
}

#[test]
fn after_tick_enters_the_debugger_at_breakpoints() {
    let mut d = Debugger::new();
    d.add_breakpoint(Some(0x0150));
    assert_eq!(d.after_tick(0x0100, false), TickStep { enter_debugger: false, frame_ready: false });
    assert_eq!(d.after_tick(0x0101, true), TickStep { enter_debugger: false, frame_ready: true });
    assert_eq!(d.after_tick(0x0150, true), TickStep { enter_debugger: true, frame_ready: true });
    assert!(d.is_debugging());
    assert_eq!(d.after_tick(0x0151, false), TickStep { enter_debugger: true, frame_ready: false });
    assert_eq!(d.run_command("c\n"), DebugAction::Continue);
    assert_eq!(d.after_tick(0x0152, false), TickStep { enter_debugger: false, frame_ready: false });
}
