//! The debugger's state: whether execution is paused in the debugger, and
//! the list of breakpoint addresses.
use vstd::prelude::*;
use crate::command::{
    command_words, first_two_words, lemma_split_at_first_space, split_spaces, str_eq, trim_newline,
    trim_newline_spec,
};
use crate::hex::{hex4_text, lemma_hex4_round_trip, parse_address, parse_hex_u16, push_hex4};

verus! {

/// What a debugger is, seen from outside: whether it has paused execution,
/// and its breakpoints in the order they were set.
pub ghost struct DebuggerModel {
    pub debugging: bool,
    pub breakpoints: Seq<u16>,
}

/// The breakpoints after asking to add `bp`: an address not yet in the list
/// goes at its end; an address already there, or none, changes nothing.
pub open spec fn with_breakpoint(bps: Seq<u16>, bp: Option<u16>) -> Seq<u16> {
    match bp {
        Some(addr) => if bps.contains(addr) {
            bps
        } else {
            bps.push(addr)
        },
        None => bps,
    }
}

/// The breakpoints after asking to delete `bp`: the first occurrence of the
/// address leaves the list, the others keep their order; an address not in
/// the list, or none, changes nothing.
pub open spec fn without_breakpoint(bps: Seq<u16>, bp: Option<u16>) -> Seq<u16> {
    match bp {
        Some(addr) => match bps.index_of_first(addr) {
            Some(i) => bps.remove(i),
            None => bps,
        },
        None => bps,
    }
}

/// What the program around the debugger is to do after one command line.
#[derive(Debug, Clone, Copy, PartialEq, Eq, Structural)]
pub enum DebugAction {
    /// `c`: leave the debugger and let the program run on.
    Continue,
    /// `q`: leave the debugger and quit.
    Quit,
    /// `b` or `d`, or `p` with no valid address: nothing to write.
    Done,
    /// `disass`: write the disassembly of the next instructions.
    Disassemble,
    /// `h`: write the list of commands.
    ShowHelp,
    /// `l`: write the list of breakpoints.
    ListBreakpoints,
    /// `n`: run one instruction, then write the program counter.
    Step,
    /// `p XXXX`: write the memory from this address on.
    DumpMemory(u16),
    /// `reg`: write the registers.
    ShowRegisters,
    /// Any other first word: say that the command is unknown.
    Unknown,
    /// `b`, `d` or `p` without a word after it: there is no address to read.
    MissingAddress,
}

/// The action for a command line, ending included.
pub open spec fn command_action(line: Seq<char>) -> DebugAction {
    let words = command_words(line);
    let cmd = words[0];
    if cmd == "b"@ {
        if words.len() < 2 {
            DebugAction::MissingAddress
        } else {
            DebugAction::Done
        }
    } else if cmd == "c"@ {
        DebugAction::Continue
    } else if cmd == "d"@ {
        if words.len() < 2 {
            DebugAction::MissingAddress
        } else {
            DebugAction::Done
        }
    } else if cmd == "disass"@ {
        DebugAction::Disassemble
    } else if cmd == "h"@ {
        DebugAction::ShowHelp
    } else if cmd == "l"@ {
        DebugAction::ListBreakpoints
    } else if cmd == "n"@ {
        DebugAction::Step
    } else if cmd == "p"@ {
        if words.len() < 2 {
            DebugAction::MissingAddress
        } else {
            match parse_hex_u16(words[1]) {
                Some(addr) => DebugAction::DumpMemory(addr),
                None => DebugAction::Done,
            }
        }
    } else if cmd == "q"@ {
        DebugAction::Quit
    } else if cmd == "reg"@ {
        DebugAction::ShowRegisters
    } else {
        DebugAction::Unknown
    }
}

/// The debugger after a command line: `b ADDR` adds a breakpoint, `d ADDR`
/// deletes one, `c` stops debugging; every other line leaves it as it was.
pub open spec fn command_state(m: DebuggerModel, line: Seq<char>) -> DebuggerModel {
    let words = command_words(line);
    let cmd = words[0];
    if cmd == "b"@ {
        if words.len() < 2 {
            m
        } else {
            DebuggerModel {
                debugging: m.debugging,
                breakpoints: with_breakpoint(m.breakpoints, parse_hex_u16(words[1])),
            }
        }
    } else if cmd == "c"@ {
        DebuggerModel { debugging: false, breakpoints: m.breakpoints }
    } else if cmd == "d"@ {
        if words.len() < 2 {
            m
        } else {
            DebuggerModel {
                debugging: m.debugging,
                breakpoints: without_breakpoint(m.breakpoints, parse_hex_u16(words[1])),
            }
        }
    } else {
        m
    }
}

/// What the debugger writes before it reads a command line.
pub const PROMPT: &'static str = "(gbd) ";

/// What the debugger writes when it takes over.
pub const INFO_TEXT: &'static str = "gbd - Game Boy Debugger\n\n";

/// What the `h` command writes.
pub const HELP_TEXT: &'static str = "'b XXXX' to add a breakpoint at that address\n\
    'c' to continue execution\n\
    'd XXXX' to delete breakpoint at that address\n\
    'disass' to show disassembly of next 5 instructions\n\
    'h' to print this message\n\
    'l' to print list of breakpoints\n\
    'n' to execute the next instruction\n\
    'p XXXX' to print 16 bytes at that address\n\
    'q' to quit debugging\n\
    'reg' to print register contents\n\n";

/// What the debugger writes for a command it does not know.
pub const UNKNOWN_COMMAND_TEXT: &'static str = "Unknown command\n";

/// The breakpoint addresses, each written ` 0xXXXX`, in order.
pub open spec fn addresses_text(bps: Seq<u16>) -> Seq<char>
    decreases bps.len(),
{
    if bps.len() == 0 {
        Seq::empty()
    } else {
        addresses_text(bps.drop_last()) + " 0x"@ + hex4_text(bps.last())
    }
}

/// What the `l` command writes for a list of breakpoints.
pub open spec fn breakpoints_listing(bps: Seq<u16>) -> Seq<char> {
    if bps.len() == 0 {
        "No breakpoints found\n"@
    } else {
        "Breakpoints:"@ + addresses_text(bps) + "\n"@
    }
}

/// The 16-bit registers that the `reg` command shows.
#[derive(Debug, Clone, Copy, PartialEq, Eq, Structural)]
pub struct Registers {
    pub pc: u16,
    pub sp: u16,
    pub af: u16,
    pub bc: u16,
    pub de: u16,
    pub hl: u16,
}

/// One line of the register listing: `NAME: 0xXXXX`.
pub open spec fn register_line(name: Seq<char>, v: u16) -> Seq<char> {
    name + ": 0x"@ + hex4_text(v) + "\n"@
}

/// What the `reg` command writes: one line per register, then an empty line.
pub open spec fn registers_listing(r: Registers) -> Seq<char> {
    register_line("PC"@, r.pc) + register_line("SP"@, r.sp) + register_line("AF"@, r.af)
        + register_line("BC"@, r.bc) + register_line("DE"@, r.de) + register_line("HL"@, r.hl)
        + "\n"@
}

/// Appends one line of the register listing.
fn push_register_line(out: &mut String, name: &str, v: u16)
    ensures
        final(out)@ == old(out)@ + register_line(name@, v),
{
    out.append(name);
    out.append(": 0x");
    push_hex4(out, v);
    out.append("\n");
    assert(final(out)@ =~= old(out)@ + register_line(name@, v));
}

/// What the `reg` command writes.
pub fn registers_text(r: &Registers) -> (res: String)
    ensures
        res@ == registers_listing(*r),
{
    let mut out = String::new();
    push_register_line(&mut out, "PC", r.pc);
    push_register_line(&mut out, "SP", r.sp);
    push_register_line(&mut out, "AF", r.af);
    push_register_line(&mut out, "BC", r.bc);
    push_register_line(&mut out, "DE", r.de);
    push_register_line(&mut out, "HL", r.hl);
    out.append("\n");
    assert(out@ =~= registers_listing(*r));
    out
}

/// What the `n` command writes after the step: the new program counter.
pub fn step_text(pc: u16) -> (res: String)
    ensures
        res@ == register_line("PC"@, pc),
{
    let mut out = String::new();
    push_register_line(&mut out, "PC", pc);
    assert(out@ =~= register_line("PC"@, pc));
    out
}

/// What the program is to do after the CPU has run one instruction.
#[derive(Debug, Clone, Copy, PartialEq, Eq, Structural)]
pub struct TickStep {
    /// Hand control to the debugger's command line first.
    pub enter_debugger: bool,
    /// A frame is complete: stop running and draw it.
    pub frame_ready: bool,
}

/// A command-line debugger for a running Game Boy program.
pub struct Debugger {
    debugging: bool,
    breakpoints: Vec<u16>,
}

impl View for Debugger {
    type V = DebuggerModel;

    closed spec fn view(&self) -> DebuggerModel {
        DebuggerModel { debugging: self.debugging, breakpoints: self.breakpoints@ }
    }
}

/// Whether `v` holds `addr`.
fn contains_address(v: &Vec<u16>, addr: u16) -> (res: bool)
    ensures
        res == v@.contains(addr),
{
    let mut i: usize = 0;
    while i < v.len()
        invariant
            i <= v.len(),
            forall|j: int| 0 <= j < i ==> v@[j] != addr,
        decreases v.len() - i,
    {
        if v[i] == addr {
            return true;
        }
        i = i + 1;
    }
    false
}

impl Debugger {
    /// No address appears twice among the breakpoints.
    #[verifier::type_invariant]
    spec fn distinct_breakpoints(self) -> bool {
        self.breakpoints@.no_duplicates()
    }

    /// A debugger that is not paused and has no breakpoints.
    pub fn new() -> (res: Self)
        ensures
            res@ == (DebuggerModel { debugging: false, breakpoints: Seq::empty() }),
            res@.breakpoints.no_duplicates(),
    {
        Self { debugging: false, breakpoints: Vec::new() }
    }

    /// Adds a breakpoint at `bp`, unless it is `None` or already set.
    pub fn add_breakpoint(&mut self, bp: Option<u16>)
        ensures
            final(self)@ == (DebuggerModel {
                debugging: old(self)@.debugging,
                breakpoints: with_breakpoint(old(self)@.breakpoints, bp),
            }),
            final(self)@.breakpoints.no_duplicates(),
    {
        proof {
            use_type_invariant(&*self);
        }
        if let Some(addr) = bp {
            if !contains_address(&self.breakpoints, addr) {
                proof {
                    lemma_add_keeps_distinct(self.breakpoints@, bp);
                }
                let mut bps = Vec::new();
                std::mem::swap(&mut bps, &mut self.breakpoints);
                bps.push(addr);
                self.breakpoints = bps;
            }
        }
    }

    /// Deletes the breakpoint at `bp`, if it is set.
    pub fn remove_breakpoint(&mut self, bp: Option<u16>)
        ensures
            final(self)@ == (DebuggerModel {
                debugging: old(self)@.debugging,
                breakpoints: without_breakpoint(old(self)@.breakpoints, bp),
            }),
            final(self)@.breakpoints.no_duplicates(),
    {
        proof {
            use_type_invariant(&*self);
        }
        if let Some(addr) = bp {
            let ghost before = self.breakpoints@;
            let n = self.breakpoints.len();
            let mut i: usize = 0;
            while i < n
                invariant
                    n == self.breakpoints.len(),
                    self.breakpoints@ == before,
                    self@ == old(self)@,
                    bp == Some(addr),
                    before.no_duplicates(),
                    i <= n,
                    forall|j: int| 0 <= j < i ==> before[j] != addr,
                decreases n - i,
            {
                if self.breakpoints[i] == addr {
                    proof {
                        before.index_of_first_ensures(addr);
                        assert(before[i as int] == addr);
                    }
                    assert(before.index_of_first(addr) == Some(i as int));
                    assert(before.remove(i as int).no_duplicates()) by {
                        before.remove_ensures(i as int);
                    }
                    let mut bps = Vec::new();
                    std::mem::swap(&mut bps, &mut self.breakpoints);
                    bps.remove(i);
                    self.breakpoints = bps;
                    return;
                }
                i = i + 1;
            }
            proof {
                before.index_of_first_ensures(addr);
            }
            assert(!before.contains(addr));
        }
    }

    /// Pauses execution if a breakpoint is set at `pc`; a paused debugger
    /// stays paused.
    pub fn check_breakpoints(&mut self, pc: u16)
        ensures
            final(self)@ == (DebuggerModel {
                debugging: old(self)@.debugging || old(self)@.breakpoints.contains(pc),
                breakpoints: old(self)@.breakpoints,
            }),
            final(self)@.breakpoints.no_duplicates(),
    {
        proof {
            use_type_invariant(&*self);
        }
        if contains_address(&self.breakpoints, pc) {
            self.debugging = true;
        }
    }

    /// Whether execution is paused in the debugger.
    pub fn is_debugging(&self) -> (res: bool)
        ensures
            res == self@.debugging,
    {
        self.debugging
    }

    /// Pauses execution (`true`) or lets it go on (`false`).
    pub fn set_debugging(&mut self, debug: bool)
        ensures
            final(self)@ == (DebuggerModel {
                debugging: debug,
                breakpoints: old(self)@.breakpoints,
            }),
            final(self)@.breakpoints.no_duplicates(),
    {
        proof {
            use_type_invariant(&*self);
        }
        self.debugging = debug;
    }

    /// Decides what follows an instruction that left the program counter at
    /// `pc` and that did (`rendered`) or did not complete a frame: execution
    /// pauses at a breakpoint, a paused debugger takes the command line, and
    /// a complete frame ends the run (after the debugger, if it took over).
    pub fn after_tick(&mut self, pc: u16, rendered: bool) -> (res: TickStep)
        ensures
            final(self)@ == (DebuggerModel {
                debugging: old(self)@.debugging || old(self)@.breakpoints.contains(pc),
                breakpoints: old(self)@.breakpoints,
            }),
            final(self)@.breakpoints.no_duplicates(),
            res == (TickStep { enter_debugger: final(self)@.debugging, frame_ready: rendered }),
    {
        self.check_breakpoints(pc);
        TickStep { enter_debugger: self.is_debugging(), frame_ready: rendered }
    }

    /// Carries out one command line as the user typed it, line ending
    /// included, and says what is left to do outside the debugger.
    pub fn run_command(&mut self, line: &str) -> (res: DebugAction)
        ensures
            final(self)@ == command_state(old(self)@, line@),
            res == command_action(line@),
            final(self)@.breakpoints.no_duplicates(),
    {
        proof {
            use_type_invariant(&*self);
        }
        let t = trim_newline(line);
        let (cmd, arg) = first_two_words(t);
        if str_eq(cmd, "b") {
            match arg {
                None => DebugAction::MissingAddress,
                Some(w) => {
                    self.add_breakpoint(parse_address(w));
                    DebugAction::Done
                },
            }
        } else if str_eq(cmd, "c") {
            self.set_debugging(false);
            DebugAction::Continue
        } else if str_eq(cmd, "d") {
            match arg {
                None => DebugAction::MissingAddress,
                Some(w) => {
                    self.remove_breakpoint(parse_address(w));
                    DebugAction::Done
                },
            }
        } else if str_eq(cmd, "disass") {
            DebugAction::Disassemble
        } else if str_eq(cmd, "h") {
            DebugAction::ShowHelp
        } else if str_eq(cmd, "l") {
            DebugAction::ListBreakpoints
        } else if str_eq(cmd, "n") {
            DebugAction::Step
        } else if str_eq(cmd, "p") {
            match arg {
                None => DebugAction::MissingAddress,
                Some(w) => match parse_address(w) {
                    Some(addr) => DebugAction::DumpMemory(addr),
                    None => DebugAction::Done,
                },
            }
        } else if str_eq(cmd, "q") {
            DebugAction::Quit
        } else if str_eq(cmd, "reg") {
            DebugAction::ShowRegisters
        } else {
            DebugAction::Unknown
        }
    }

    /// What the `l` command writes.
    pub fn breakpoints_text(&self) -> (res: String)
        ensures
            res@ == breakpoints_listing(self@.breakpoints),
    {
        let n = self.breakpoints.len();
        if n == 0 {
            return String::from_str("No breakpoints found\n");
        }
        let mut out = String::from_str("Breakpoints:");
        let mut i: usize = 0;
        while i < n
            invariant
                n == self.breakpoints@.len(),
                i <= n,
                out@ == "Breakpoints:"@ + addresses_text(self.breakpoints@.take(i as int)),
            decreases n - i,
        {
            out.append(" 0x");
            push_hex4(&mut out, self.breakpoints[i]);
            assert(self.breakpoints@.take(i + 1).drop_last() =~= self.breakpoints@.take(i as int));
            i = i + 1;
            assert(out@ =~= "Breakpoints:"@ + addresses_text(self.breakpoints@.take(i as int)));
        }
        assert(self.breakpoints@.take(n as int) =~= self.breakpoints@);
        out.append("\n");
        assert(out@ =~= breakpoints_listing(self@.breakpoints));
        out
    }
}

/// Adding a breakpoint sets it: afterwards the address is in the list.
pub proof fn lemma_added_is_set(bps: Seq<u16>, addr: u16)
    ensures
        with_breakpoint(bps, Some(addr)).contains(addr),
{
    if !bps.contains(addr) {
        assert(bps.push(addr)[bps.len() as int] == addr);
    }
}

/// Adding the same breakpoint twice is adding it once.
pub proof fn lemma_add_idempotent(bps: Seq<u16>, bp: Option<u16>)
    ensures
        with_breakpoint(with_breakpoint(bps, bp), bp) == with_breakpoint(bps, bp),
{
    if let Some(addr) = bp {
        lemma_added_is_set(bps, addr);
    }
}

/// Adding keeps each address at most once in the list.
pub proof fn lemma_add_keeps_distinct(bps: Seq<u16>, bp: Option<u16>)
    requires
        bps.no_duplicates(),
    ensures
        with_breakpoint(bps, bp).no_duplicates(),
{
    if let Some(addr) = bp {
        if !bps.contains(addr) {
            let r = bps.push(addr);
            assert forall|i: int, j: int|
                0 <= i < r.len() && 0 <= j < r.len() && i != j implies r[i] != r[j] by {
                if i < bps.len() && j < bps.len() {
                } else if i < bps.len() {
                    assert(bps.contains(bps[i]));
                } else {
                    assert(bps.contains(bps[j]));
                }
            }
        }
    }
}

/// Deleting a breakpoint clears it: where no address is listed twice,
/// afterwards the address is not in the list.
pub proof fn lemma_deleted_is_clear(bps: Seq<u16>, addr: u16)
    requires
        bps.no_duplicates(),
    ensures
        !without_breakpoint(bps, Some(addr)).contains(addr),
{
    bps.index_of_first_ensures(addr);
    if let Some(i) = bps.index_of_first(addr) {
        let r = bps.remove(i);
        bps.remove_ensures(i);
        if r.contains(addr) {
            let j = choose|j: int| 0 <= j < r.len() && r[j] == addr;
            if j < i {
                assert(bps[j] == addr);
            } else {
                assert(bps[j + 1] == addr);
            }
        }
    }
}

/// Deleting a breakpoint that was just added to a list without it gives
/// the list back as it was.
pub proof fn lemma_delete_undoes_add(bps: Seq<u16>, addr: u16)
    requires
        !bps.contains(addr),
    ensures
        without_breakpoint(with_breakpoint(bps, Some(addr)), Some(addr)) == bps,
{
    let r = bps.push(addr);
    r.index_of_first_ensures(addr);
    assert(r[bps.len() as int] == addr);
    let i = r.index_of_first(addr).unwrap();
    if i < bps.len() {
        assert(bps[i] == addr);
    }
    assert(r.remove(bps.len() as int) =~= bps);
}

/// No hexadecimal digit is a space.
proof fn lemma_hex4_has_no_space(v: u16)
    ensures
        forall|i: int| 0 <= i < hex4_text(v).len() ==> hex4_text(v)[i] != ' ',
{
}

/// The two words of a command line `CMD XXXX`, ending included, are the
/// command and the address.
proof fn lemma_address_command_words(cmd: Seq<char>, addr: u16)
    requires
        cmd.len() == 1,
        cmd[0] != ' ',
    ensures
        command_words(cmd + " "@ + hex4_text(addr) + "\n"@) =~= seq![cmd, hex4_text(addr)],
{
    reveal_strlit(" ");
    reveal_strlit("\n");
    let line = cmd + " "@ + hex4_text(addr) + "\n"@;
    let s = cmd + " "@ + hex4_text(addr);
    assert(trim_newline_spec(line) =~= s);
    let h = hex4_text(addr);
    lemma_split_at_first_space(s, 1);
    assert(s.take(1) =~= cmd);
    assert(s.skip(2) =~= h);
    lemma_hex4_has_no_space(addr);
    lemma_split_at_first_space(h, h.len() as int);
}

/// Typing `b` and an address as the debugger writes it sets a breakpoint at
/// that address and writes nothing; nothing else changes.
pub proof fn lemma_break_command(m: DebuggerModel, addr: u16)
    ensures
        command_state(m, "b"@ + " "@ + hex4_text(addr) + "\n"@) == (DebuggerModel {
            debugging: m.debugging,
            breakpoints: with_breakpoint(m.breakpoints, Some(addr)),
        }),
        command_action("b"@ + " "@ + hex4_text(addr) + "\n"@) == DebugAction::Done,
        command_state(m, "b"@ + " "@ + hex4_text(addr) + "\n"@).breakpoints == if m.breakpoints.contains(
            addr,
        ) {
            m.breakpoints
        } else {
            m.breakpoints.push(addr)
        },
{
    reveal_strlit("b");
    lemma_address_command_words("b"@, addr);
    lemma_hex4_round_trip(addr);
}

/// Typing `d` and an address as the debugger writes it deletes the
/// breakpoint at that address and writes nothing; nothing else changes.
pub proof fn lemma_delete_command(m: DebuggerModel, addr: u16)
    ensures
        command_state(m, "d"@ + " "@ + hex4_text(addr) + "\n"@) == (DebuggerModel {
            debugging: m.debugging,
            breakpoints: without_breakpoint(m.breakpoints, Some(addr)),
        }),
        command_action("d"@ + " "@ + hex4_text(addr) + "\n"@) == DebugAction::Done,
{
    reveal_strlit("b");
    reveal_strlit("c");
    reveal_strlit("d");
    lemma_address_command_words("d"@, addr);
    lemma_hex4_round_trip(addr);
}

/// Typing `c` stops debugging, keeps the breakpoints, and lets the program
/// run on.
pub proof fn lemma_continue_command(m: DebuggerModel)
    ensures
        command_state(m, "c\n"@) == (DebuggerModel { debugging: false, breakpoints: m.breakpoints }),
        command_action("c\n"@) == DebugAction::Continue,
{
    reveal_strlit("b");
    reveal_strlit("c");
    reveal_strlit("c\n");
    let s = "c\n"@.drop_last();
    assert(trim_newline_spec("c\n"@) == s);
    lemma_split_at_first_space(s, 1);
    assert(split_spaces(s)[0] =~= "c"@);
}

/// Typing `q` quits and leaves the debugger as it was.
pub proof fn lemma_quit_command(m: DebuggerModel)
    ensures
        command_state(m, "q\n"@) == m,
        command_action("q\n"@) == DebugAction::Quit,
{
    reveal_strlit("b");
    reveal_strlit("c");
    reveal_strlit("d");
    reveal_strlit("disass");
    reveal_strlit("h");
    reveal_strlit("l");
    reveal_strlit("n");
    reveal_strlit("p");
    reveal_strlit("q");
    reveal_strlit("q\n");
    let s = "q\n"@.drop_last();
    assert(trim_newline_spec("q\n"@) == s);
    lemma_split_at_first_space(s, 1);
    assert(split_spaces(s)[0] =~= "q"@);
}

/// Typing `p` and an address as the debugger writes it asks for the dump
/// at exactly that address, and leaves the debugger as it was.
pub proof fn lemma_print_command(m: DebuggerModel, addr: u16)
    ensures
        command_state(m, "p"@ + " "@ + hex4_text(addr) + "\n"@) == m,
        command_action("p"@ + " "@ + hex4_text(addr) + "\n"@) == DebugAction::DumpMemory(addr),
{
    reveal_strlit("b");
    reveal_strlit("c");
    reveal_strlit("d");
    reveal_strlit("disass");
    reveal_strlit("h");
    reveal_strlit("l");
    reveal_strlit("n");
    reveal_strlit("p");
    lemma_address_command_words("p"@, addr);
    lemma_hex4_round_trip(addr);
}

/// Only `b`, `c` and `d` change the debugger: a line with any other first
/// word leaves its breakpoints and its pause state as they were.
pub proof fn lemma_other_commands_keep_state(m: DebuggerModel, line: Seq<char>)
    requires
        command_words(line)[0] != "b"@,
        command_words(line)[0] != "c"@,
        command_words(line)[0] != "d"@,
    ensures
        command_state(m, line) == m,
{
}

/// Adding never disturbs the breakpoints already set: they keep their
/// places, and at most one address joins them, at the end.
pub proof fn lemma_add_keeps_order(bps: Seq<u16>, bp: Option<u16>)
    ensures
        with_breakpoint(bps, bp).len() == bps.len() || with_breakpoint(bps, bp).len() == bps.len() + 1,
        forall|j: int| 0 <= j < bps.len() ==> #[trigger] with_breakpoint(bps, bp)[j] == bps[j],
        with_breakpoint(bps, bp).len() == bps.len() + 1 ==> bp == Some(
            with_breakpoint(bps, bp)[bps.len() as int],
        ) && !bps.contains(bp.unwrap()),
{
}

/// Deleting the address found first at index `i` takes out exactly that
/// entry: the breakpoints before it and after it stay, in their order.
pub proof fn lemma_delete_keeps_order(bps: Seq<u16>, addr: u16, i: int)
    requires
        0 <= i < bps.len(),
        bps[i] == addr,
        forall|j: int| 0 <= j < i ==> bps[j] != addr,
    ensures
        without_breakpoint(bps, Some(addr)) == bps.take(i) + bps.skip(i + 1),
        without_breakpoint(bps, Some(addr)).len() == bps.len() - 1,
        forall|j: int|
            0 <= j < bps.len() - 1 ==> #[trigger] without_breakpoint(bps, Some(addr))[j] == bps[if j
                < i {
                j
            } else {
                j + 1
            }],
{
    bps.index_of_first_ensures(addr);
    let f = bps.index_of_first(addr).unwrap();
    if f < i {
        assert(bps[f] == addr);
    }
    if f > i {
        assert(bps[i] == addr);
    }
    assert(bps.remove(i) =~= bps.take(i) + bps.skip(i + 1));
}

/// Deleting an address that is not set changes nothing.
pub proof fn lemma_delete_absent(bps: Seq<u16>, addr: u16)
    requires
        !bps.contains(addr),
    ensures
        without_breakpoint(bps, Some(addr)) == bps,
{
    bps.index_of_first_ensures(addr);
}

proof fn lemma_addresses_text(bps: Seq<u16>)
    ensures
        addresses_text(bps).len() == 7 * bps.len(),
        forall|j: int|
            0 <= j < bps.len() ==> #[trigger] addresses_text(bps).subrange(7 * j, 7 * j + 7) == " 0x"@
                + hex4_text(bps[j]),
    decreases bps.len(),
{
    reveal_strlit(" 0x");
    if bps.len() > 0 {
        let p = bps.drop_last();
        lemma_addresses_text(p);
        let t = addresses_text(bps);
        assert forall|j: int| 0 <= j < bps.len() implies #[trigger] t.subrange(7 * j, 7 * j + 7)
            == " 0x"@ + hex4_text(bps[j]) by {
            if j < p.len() {
                assert(t.subrange(7 * j, 7 * j + 7) =~= addresses_text(p).subrange(7 * j, 7 * j + 7));
                assert(p[j] == bps[j]);
            } else {
                assert(t.subrange(7 * j, 7 * j + 7) =~= " 0x"@ + hex4_text(bps.last()));
            }
        }
    }
}

/// The `l` listing shows every breakpoint, in order, and nothing else:
/// `Breakpoints:`, then ` 0xXXXX` for each address, then the line end;
/// an empty list says so.
pub proof fn lemma_listing_shows_every_breakpoint(bps: Seq<u16>)
    ensures
        bps.len() == 0 ==> breakpoints_listing(bps) == "No breakpoints found\n"@,
        bps.len() > 0 ==> {
            let t = breakpoints_listing(bps);
            &&& t.len() == 13 + 7 * bps.len()
            &&& t.take(12) == "Breakpoints:"@
            &&& forall|j: int|
                0 <= j < bps.len() ==> #[trigger] t.subrange(12 + 7 * j, 19 + 7 * j) == " 0x"@
                    + hex4_text(bps[j])
            &&& t[t.len() - 1] == '\n'
        },
{
    reveal_strlit("Breakpoints:");
    reveal_strlit("\n");
    if bps.len() > 0 {
        lemma_addresses_text(bps);
        let a = addresses_text(bps);
        let t = breakpoints_listing(bps);
        assert(t.take(12) =~= "Breakpoints:"@);
        assert forall|j: int| 0 <= j < bps.len() implies #[trigger] t.subrange(12 + 7 * j, 19 + 7 * j)
            == " 0x"@ + hex4_text(bps[j]) by {
            assert(t.subrange(12 + 7 * j, 19 + 7 * j) =~= a.subrange(7 * j, 7 * j + 7));
            assert(a.subrange(7 * j, 7 * j + 7) == " 0x"@ + hex4_text(bps[j]));
        }
    }
}

/// The `reg` listing is six lines of eleven characters, `PC`, `SP`, `AF`,
/// `BC`, `DE`, `HL` in that order, each `NAME: 0xXXXX` with the register's
/// value, and then an empty line.
pub proof fn lemma_registers_listing(r: Registers)
    ensures
        ({
            let t = registers_listing(r);
            &&& t.len() == 67
            &&& t.subrange(0, 11) == "PC: 0x"@ + hex4_text(r.pc) + "\n"@
            &&& t.subrange(11, 22) == "SP: 0x"@ + hex4_text(r.sp) + "\n"@
            &&& t.subrange(22, 33) == "AF: 0x"@ + hex4_text(r.af) + "\n"@
            &&& t.subrange(33, 44) == "BC: 0x"@ + hex4_text(r.bc) + "\n"@
            &&& t.subrange(44, 55) == "DE: 0x"@ + hex4_text(r.de) + "\n"@
            &&& t.subrange(55, 66) == "HL: 0x"@ + hex4_text(r.hl) + "\n"@
            &&& t[66] == '\n'
        }),
{
    reveal_strlit("PC");
    reveal_strlit("SP");
    reveal_strlit("AF");
    reveal_strlit("BC");
    reveal_strlit("DE");
    reveal_strlit("HL");
    reveal_strlit(": 0x");
    reveal_strlit("\n");
    reveal_strlit("PC: 0x");
    reveal_strlit("SP: 0x");
    reveal_strlit("AF: 0x");
    reveal_strlit("BC: 0x");
    reveal_strlit("DE: 0x");
    reveal_strlit("HL: 0x");
    let t = registers_listing(r);
    assert(t.subrange(0, 11) =~= "PC: 0x"@ + hex4_text(r.pc) + "\n"@);
    assert(t.subrange(11, 22) =~= "SP: 0x"@ + hex4_text(r.sp) + "\n"@);
    assert(t.subrange(22, 33) =~= "AF: 0x"@ + hex4_text(r.af) + "\n"@);
    assert(t.subrange(33, 44) =~= "BC: 0x"@ + hex4_text(r.bc) + "\n"@);
    assert(t.subrange(44, 55) =~= "DE: 0x"@ + hex4_text(r.de) + "\n"@);
    assert(t.subrange(55, 66) =~= "HL: 0x"@ + hex4_text(r.hl) + "\n"@);
}

/// A line of one word and its ending cuts into that word alone.
proof fn lemma_one_word_line(w: Seq<char>)
    requires
        forall|i: int| 0 <= i < w.len() ==> w[i] != ' ' && w[i] != '\r',
    ensures
        command_words(w + "\n"@) == seq![w],
{
    reveal_strlit("\n");
    assert((w + "\n"@).drop_last() =~= w);
    if w.len() > 0 {
        assert(w[w.len() - 1] != '\r');
    }
    assert(trim_newline_spec(w + "\n"@) =~= w);
    lemma_split_at_first_space(w, w.len() as int);
}

/// `disass`, `h`, `l`, `n` and `reg` ask for the disassembly, the help, the
/// breakpoint list, a single step and the registers, and change nothing.
pub proof fn lemma_plain_commands(m: DebuggerModel)
    ensures
        command_action("disass\n"@) == DebugAction::Disassemble,
        command_action("h\n"@) == DebugAction::ShowHelp,
        command_action("l\n"@) == DebugAction::ListBreakpoints,
        command_action("n\n"@) == DebugAction::Step,
        command_action("reg\n"@) == DebugAction::ShowRegisters,
        command_state(m, "disass\n"@) == m,
        command_state(m, "h\n"@) == m,
        command_state(m, "l\n"@) == m,
        command_state(m, "n\n"@) == m,
        command_state(m, "reg\n"@) == m,
{
    reveal_strlit("b");
    reveal_strlit("c");
    reveal_strlit("d");
    reveal_strlit("disass");
    reveal_strlit("h");
    reveal_strlit("l");
    reveal_strlit("n");
    reveal_strlit("p");
    reveal_strlit("q");
    reveal_strlit("reg");
    reveal_strlit("\n");
    reveal_strlit("disass\n");
    reveal_strlit("h\n");
    reveal_strlit("l\n");
    reveal_strlit("n\n");
    reveal_strlit("reg\n");
    assert("disass\n"@ =~= "disass"@ + "\n"@);
    assert("h\n"@ =~= "h"@ + "\n"@);
    assert("l\n"@ =~= "l"@ + "\n"@);
    assert("n\n"@ =~= "n"@ + "\n"@);
    assert("reg\n"@ =~= "reg"@ + "\n"@);
    lemma_one_word_line("disass"@);
    lemma_one_word_line("h"@);
    lemma_one_word_line("l"@);
    lemma_one_word_line("n"@);
    lemma_one_word_line("reg"@);
}

} // verus!
