# gameboy_display

A desktop frontend for a Game Boy emulator core, with a built-in
command-line debugger. The library in `src/` is verified with Verus; the
program in `app/` opens the SDL window, reads the ROM file and the
terminal, and drives the emulator core.

- `src/debug.rs`: the debugger's state (paused or not, breakpoints), the
  effect of each command line, and the text of its listings.
- `src/command.rs`: cutting a command line into words.
- `src/hex.rs`: reading and writing hexadecimal addresses.
- `src/memory.rs`, `src/opcodes.rs`: memory dumps and the disassembler.
- `src/display.rs`: pixel layout of the window and the key bindings.
