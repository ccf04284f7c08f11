//! What the debugger shows of the Game Boy's 64 KiB address space: a dump of
//! up to sixteen bytes, and the disassembly of the next instructions. Both
//! read a snapshot `mem` of the whole address space, `mem[a]` being the byte
//! at address `a`.
use vstd::prelude::*;
use crate::hex::{hex2_text, hex4_text, push_hex2, push_hex4};
use crate::opcodes::{opcode_length, opcode_name, OPCODE_LENGTH, OPCODE_NAMES};

verus! {

/// The number of addresses a 16-bit address space holds.
pub const ADDRESS_SPACE_SIZE: usize = 0x10000;

/// How many bytes a memory dump shows, where the address space has them.
pub const DUMP_LENGTH: usize = 16;

/// How many instructions a disassembly shows.
pub const DISASSEMBLY_COUNT: u16 = 5;

/// The address `offset` bytes after `start`, 16-bit addresses wrapping
/// around from 0xFFFF to 0x0000.
pub open spec fn wrapped_address(start: int, offset: int) -> int {
    (start + offset) % (ADDRESS_SPACE_SIZE as int)
}

/// The `count` bytes from `start` on, each written ` xx`.
pub open spec fn bytes_text(mem: Seq<u8>, start: int, count: nat) -> Seq<char>
    decreases count,
{
    if count == 0 {
        Seq::empty()
    } else {
        bytes_text(mem, start, (count - 1) as nat) + " "@ + hex2_text(
            mem[wrapped_address(start, count - 1)],
        )
    }
}

/// How many bytes the dump from `addr` shows: sixteen, or fewer where the
/// address space ends before.
pub open spec fn dump_length(addr: u16) -> nat {
    if addr + DUMP_LENGTH <= ADDRESS_SPACE_SIZE {
        DUMP_LENGTH as nat
    } else {
        (ADDRESS_SPACE_SIZE - addr) as nat
    }
}

/// The dump of the bytes at `addr` and after: the address, a colon, and
/// the bytes from `addr` on, at most sixteen and none past 0xFFFF.
pub open spec fn memory_dump(addr: u16, mem: Seq<u8>) -> Seq<char> {
    "0x"@ + hex4_text(addr) + ": "@ + bytes_text(mem, addr as int, dump_length(addr)) + "\n"@
}

/// Appends the `count` bytes from `start` on, each written ` xx`.
pub fn push_bytes(out: &mut String, mem: &[u8], start: usize, count: usize)
    requires
        mem@.len() == ADDRESS_SPACE_SIZE,
        start < ADDRESS_SPACE_SIZE,
        count <= ADDRESS_SPACE_SIZE,
    ensures
        final(out)@ == old(out)@ + bytes_text(mem@, start as int, count as nat),
{
    let mut i: usize = 0;
    while i < count
        invariant
            mem@.len() == ADDRESS_SPACE_SIZE,
            start < ADDRESS_SPACE_SIZE,
            count <= ADDRESS_SPACE_SIZE,
            i <= count,
            out@ == old(out)@ + bytes_text(mem@, start as int, i as nat),
        decreases count - i,
    {
        out.append(" ");
        push_hex2(out, mem[(start + i) % ADDRESS_SPACE_SIZE]);
        i = i + 1;
        assert(out@ =~= old(out)@ + bytes_text(mem@, start as int, i as nat));
    }
}

/// The text that the `p` command writes for `addr`.
pub fn memory_dump_text(addr: u16, mem: &[u8]) -> (res: String)
    requires
        mem@.len() == ADDRESS_SPACE_SIZE,
    ensures
        res@ == memory_dump(addr, mem@),
{
    let start = addr as usize;
    let count = if start + DUMP_LENGTH <= ADDRESS_SPACE_SIZE {
        DUMP_LENGTH
    } else {
        ADDRESS_SPACE_SIZE - start
    };
    let mut out = String::new();
    out.append("0x");
    push_hex4(&mut out, addr);
    out.append(": ");
    push_bytes(&mut out, mem, start, count);
    out.append("\n");
    assert(out@ =~= memory_dump(addr, mem@));
    out
}

/// The line that shows the instruction at `pc`: its address, its mnemonic,
/// and its bytes, the opcode included.
pub open spec fn instruction_line(pc: u16, mem: Seq<u8>) -> Seq<char> {
    let op = mem[pc as int];
    "0x"@ + hex4_text(pc) + " | "@ + OPCODE_NAMES@[op as int]@ + " | "@ + bytes_text(
        mem,
        pc as int,
        OPCODE_LENGTH@[op as int] as nat,
    ) + "\n"@
}

/// The disassembly of `count` instructions from `pc` on, one line each;
/// each instruction starts where the one before it ends, addresses
/// wrapping around from 0xFFFF to 0x0000.
pub open spec fn disassembly(pc: u16, mem: Seq<u8>, count: nat) -> Seq<char>
    decreases count,
{
    if count == 0 {
        Seq::empty()
    } else {
        let len = OPCODE_LENGTH@[mem[pc as int] as int];
        instruction_line(pc, mem) + disassembly(
            wrapped_address(pc as int, len as int) as u16,
            mem,
            (count - 1) as nat,
        )
    }
}

/// What the `disass` command writes for the program counter `pc`.
pub fn disassembly_text(pc: u16, mem: &[u8]) -> (res: String)
    requires
        mem@.len() == ADDRESS_SPACE_SIZE,
    ensures
        res@ == disassembly(pc, mem@, DISASSEMBLY_COUNT as nat),
{
    let mut out = String::new();
    let mut cur: u16 = pc;
    let mut k: u16 = 0;
    assert(out@ + disassembly(cur, mem@, (DISASSEMBLY_COUNT - k) as nat) =~= disassembly(
        cur,
        mem@,
        (DISASSEMBLY_COUNT - k) as nat,
    ));
    while k < DISASSEMBLY_COUNT
        invariant
            mem@.len() == ADDRESS_SPACE_SIZE,
            k <= DISASSEMBLY_COUNT,
            disassembly(pc, mem@, DISASSEMBLY_COUNT as nat) == out@ + disassembly(
                cur,
                mem@,
                (DISASSEMBLY_COUNT - k) as nat,
            ),
        decreases DISASSEMBLY_COUNT - k,
    {
        let ghost before = out@;
        let op = mem[cur as usize];
        let len = opcode_length(op);
        out.append("0x");
        push_hex4(&mut out, cur);
        out.append(" | ");
        out.append(opcode_name(op));
        out.append(" | ");
        push_bytes(&mut out, mem, cur as usize, len as usize);
        out.append("\n");
        assert(out@ =~= before + instruction_line(cur, mem@));
        let next = ((cur as usize + len as usize) % ADDRESS_SPACE_SIZE) as u16;
        let ghost rest = disassembly(next, mem@, (DISASSEMBLY_COUNT - k - 1) as nat);
        assert(before + (instruction_line(cur, mem@) + rest) =~= out@ + rest);
        cur = next;
        k = k + 1;
    }
    assert(out@ + Seq::<char>::empty() =~= out@);
    out
}

/// The bytes text holds, for each of the `count` bytes in turn, a space
/// and the byte's two digits; the `j`-th is the byte at `start + j`,
/// addresses wrapping around after 0xFFFF.
pub proof fn lemma_bytes_text(mem: Seq<u8>, start: int, count: nat)
    ensures
        bytes_text(mem, start, count).len() == 3 * count,
        forall|j: int|
            0 <= j < count ==> #[trigger] bytes_text(mem, start, count).subrange(3 * j, 3 * j + 3)
                == " "@ + hex2_text(mem[(start + j) % 0x10000]),
    decreases count,
{
    reveal_strlit(" ");
    if count > 0 {
        let c1 = (count - 1) as nat;
        lemma_bytes_text(mem, start, c1);
        let t = bytes_text(mem, start, count);
        let p = bytes_text(mem, start, c1);
        assert forall|j: int| 0 <= j < count implies #[trigger] t.subrange(3 * j, 3 * j + 3) == " "@
            + hex2_text(mem[(start + j) % 0x10000]) by {
            if j < c1 {
                assert(t.subrange(3 * j, 3 * j + 3) =~= p.subrange(3 * j, 3 * j + 3));
            } else {
                assert(t.subrange(3 * j, 3 * j + 3) =~= " "@ + hex2_text(
                    mem[wrapped_address(start, c1 as int)],
                ));
            }
        }
    }
}

/// The `p` dump at `addr` writes the address, then the bytes at `addr`,
/// `addr + 1`, and so on, sixteen of them or up to 0xFFFF where memory ends
/// sooner, then the line end.
pub proof fn lemma_dump_shows_bytes_at_address(addr: u16, mem: Seq<u8>)
    requires
        mem.len() == ADDRESS_SPACE_SIZE,
    ensures
        ({
            let n: int = if addr + 16 <= 0x10000 {
                16
            } else {
                0x10000 - addr
            };
            let t = memory_dump(addr, mem);
            &&& t.len() == 9 + 3 * n
            &&& t.take(8) == "0x"@ + hex4_text(addr) + ": "@
            &&& forall|j: int|
                0 <= j < n ==> #[trigger] t.subrange(8 + 3 * j, 11 + 3 * j) == " "@ + hex2_text(
                    mem[addr + j],
                )
            &&& t[t.len() - 1] == '\n'
        }),
{
    reveal_strlit("0x");
    reveal_strlit(": ");
    reveal_strlit("\n");
    let n = dump_length(addr);
    lemma_bytes_text(mem, addr as int, n);
    let b = bytes_text(mem, addr as int, n);
    let t = memory_dump(addr, mem);
    assert(t.take(8) =~= "0x"@ + hex4_text(addr) + ": "@);
    assert forall|j: int| 0 <= j < n implies #[trigger] t.subrange(8 + 3 * j, 11 + 3 * j) == " "@
        + hex2_text(mem[addr + j]) by {
        assert(t.subrange(8 + 3 * j, 11 + 3 * j) =~= b.subrange(3 * j, 3 * j + 3));
        assert((addr + j) % 0x10000 == addr + j);
    }
}

/// Each line of the disassembly shows one instruction: its address, its
/// mnemonic, and its bytes; the next line shows the instruction that starts
/// right after it, addresses wrapping around after 0xFFFF.
pub proof fn lemma_disassembly_step(pc: u16, mem: Seq<u8>, count: nat)
    requires
        mem.len() == ADDRESS_SPACE_SIZE,
    ensures
        ({
            let op = mem[pc as int];
            let len = OPCODE_LENGTH@[op as int];
            let line = "0x"@ + hex4_text(pc) + " | "@ + OPCODE_NAMES@[op as int]@ + " | "@ + bytes_text(
                mem,
                pc as int,
                len as nat,
            ) + "\n"@;
            disassembly(pc, mem, count + 1) == line + disassembly(
                ((pc + len) % 0x10000) as u16,
                mem,
                count,
            )
        }),
        disassembly(pc, mem, 0) == Seq::<char>::empty(),
{
}

} // verus!
