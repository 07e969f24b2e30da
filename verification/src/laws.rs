//! What holds of every run of the machine, proved from the statement of
//! its cycle.

use crate::display::blank;
use crate::instruction::{class_of, decode_spec, n_of, Instruction};
use crate::keypad::KEY_COUNT;
use crate::machine::{
    execute_spec, initial_machine, step_spec, Chip8Error, Machine, FLAG_REGISTER, STACK_SIZE,
};
use crate::ram::{font_table, initial_memory, word_at, GLYPH_SIZE, PROGRAM_START, RAM_SIZE};
use vstd::prelude::*;

verus! {

/// The word that the next cycle of `m` fetches.
pub open spec fn fetched(m: Machine) -> u16 {
    word_at(m.memory, m.pc as int) as u16
}

/// Whether the next cycle of `m` runs the instruction `ins`: the
/// program counter leaves room for a word, and the word there decodes
/// to `ins`.
pub open spec fn runs(m: Machine, ins: Instruction) -> bool {
    m.pc + 2 <= RAM_SIZE && decode_spec(fetched(m)) == Some(ins)
}

/// Whether the program counter and every return address on the stack
/// are even.
pub open spec fn aligned(m: Machine) -> bool {
    &&& m.pc % 2 == 0
    &&& forall|k: int| 0 <= k < m.sp ==> #[trigger] m.stack[k] % 2 == 0
}

/// A machine is well formed before its first cycle, with the program
/// unchanged from `0x200` on, the font below address 80, and zero in
/// every other byte.
pub proof fn lemma_initial_machine(rom: Seq<u8>)
    requires
        rom.len() <= RAM_SIZE - PROGRAM_START,
    ensures
        initial_machine(rom).wf(),
        aligned(initial_machine(rom)),
        initial_machine(rom).pc == PROGRAM_START,
        initial_machine(rom).memory.subrange(PROGRAM_START as int, PROGRAM_START + rom.len())
            == rom,
        forall|a: int|
            80 <= a < RAM_SIZE && !(PROGRAM_START <= a < PROGRAM_START + rom.len())
                ==> initial_machine(rom).memory[a] == 0,
{
    crate::ram::lemma_initial_memory(rom);
}

/// Every instruction leaves a well-formed machine well formed: the
/// stack pointer stays between 0 and 16, and no part changes its size.
pub proof fn lemma_execute_keeps_wf(m: Machine, ins: Instruction, keys: Seq<bool>)
    requires
        m.wf(),
        ins.wf(),
    ensures
        execute_spec(m, ins, keys) matches Ok(after) ==> after.wf(),
{
}

/// Every cycle leaves a well-formed machine well formed.
pub proof fn lemma_step_keeps_wf(m: Machine, keys: Seq<bool>)
    requires
        m.wf(),
    ensures
        step_spec(m, keys) matches Ok(after) ==> after.wf(),
{
    if m.pc + 2 <= RAM_SIZE {
        let word = fetched(m);
        crate::instruction::lemma_decode_wf(word);
        if let Some(ins) = decode_spec(word) {
            lemma_execute_keeps_wf(m, ins, keys);
        }
    }
}

/// A word that is no instruction stops the machine with an error that
/// carries the program counter and the word.
pub proof fn lemma_invalid_opcode(m: Machine, keys: Seq<bool>)
    requires
        m.pc + 2 <= RAM_SIZE,
        decode_spec(fetched(m)) is None,
    ensures
        step_spec(m, keys) == Err::<Machine, Chip8Error>(
            Chip8Error::InvalidOpcode { pc: m.pc, word: fetched(m) },
        ),
{
}

/// A word of class 5, 8 or 9 whose last nibble is not zero is no
/// instruction; nor is any word of class 0 but `00E0` and `00EE`, nor
/// any of class B or C.
pub proof fn lemma_malformed_words(word: u16)
    requires
        ({
            ||| (class_of(word) == 0x5 || class_of(word) == 0x8 || class_of(word) == 0x9) && n_of(
                word,
            ) != 0
            ||| class_of(word) == 0x0 && word != 0x00E0 && word != 0x00EE
            ||| class_of(word) == 0xB
            ||| class_of(word) == 0xC
        }),
    ensures
        decode_spec(word) is None,
{
}

/// The timer loses one for every executed instruction, and stays at
/// zero once it is there. The one instruction that sets the timer
/// leaves it at one less than it was set to.
pub proof fn lemma_timer_runs_down(m: Machine, keys: Seq<bool>)
    requires
        m.wf(),
        step_spec(m, keys) is Ok,
    ensures
        ({
            let after = step_spec(m, keys)->Ok_0;
            let set_to = match decode_spec(fetched(m)) {
                Some(Instruction::LdDtVx { x }) => m.v[x as int],
                _ => m.dt,
            };
            after.dt == if set_to > 0 {
                set_to - 1
            } else {
                0
            }
        }),
{
}

/// A call followed by a return comes back to the instruction after the
/// call, with the stack pointer as it was before the call.
pub proof fn lemma_call_then_ret(m: Machine, addr: u16, keys: Seq<bool>)
    requires
        m.wf(),
        m.sp < STACK_SIZE,
        runs(m, Instruction::Call { addr }),
        runs(m.call_addr(addr)->Ok_0, Instruction::Ret),
    ensures
        step_spec(m, keys) matches Ok(called) && called.pc == addr && called.sp == m.sp + 1 && (
        step_spec(called, keys) matches Ok(returned) && returned.pc == m.pc + 2 && returned.sp
            == m.sp),
{
    let called = step_spec(m, keys)->Ok_0;
    assert(called.memory == m.memory);
    assert(called.pc == addr);
    assert(fetched(called) == fetched(m.call_addr(addr)->Ok_0));
}

/// A return with no call to return from, and a call with sixteen calls
/// already on the stack, stop the machine.
pub proof fn lemma_stack_limits(m: Machine, addr: u16, keys: Seq<bool>)
    requires
        m.wf(),
    ensures
        m.sp == 0 && runs(m, Instruction::Ret) ==> step_spec(m, keys) == Err::<
            Machine,
            Chip8Error,
        >(Chip8Error::StackUnderflow { pc: m.pc }),
        m.sp == STACK_SIZE && runs(m, Instruction::Call { addr }) ==> step_spec(m, keys) == Err::<
            Machine,
            Chip8Error,
        >(Chip8Error::StackOverflow { pc: m.pc }),
{
}

/// Loading a byte into a register and then adding a byte to it leaves
/// the sum modulo 256 in the register, and the program counter four
/// bytes on.
pub proof fn lemma_load_then_add(m: Machine, x: u8, a: u8, b: u8, keys: Seq<bool>)
    requires
        m.wf(),
        x < 16,
        runs(m, Instruction::LdByte { x, kk: a }),
        runs(m.ld_vx_byte(x, a), Instruction::AddByte { x, kk: b }),
    ensures
        step_spec(m, keys) matches Ok(loaded) && loaded.v[x as int] == a && (step_spec(
            loaded,
            keys,
        ) matches Ok(added) && added.v[x as int] == (a + b) % 256 && added.pc == m.pc + 4),
{
    let loaded = step_spec(m, keys)->Ok_0;
    assert(loaded.memory == m.memory);
    assert(fetched(loaded) == fetched(m.ld_vx_byte(x, a)));
}

/// The condition on which an instruction skips the one after it, for
/// the instructions that may skip.
pub open spec fn skip_condition(m: Machine, ins: Instruction, keys: Seq<bool>) -> Option<bool> {
    match ins {
        Instruction::SeByte { x, kk } => Some(m.v[x as int] == kk),
        Instruction::SneByte { x, kk } => Some(m.v[x as int] != kk),
        Instruction::SeReg { x, y } => Some(m.v[x as int] == m.v[y as int]),
        Instruction::SneReg { x, y } => Some(m.v[x as int] != m.v[y as int]),
        Instruction::Sknp { x } => if m.v[x as int] < KEY_COUNT {
            Some(!keys[m.v[x as int] as int])
        } else {
            None
        },
        _ => None,
    }
}

/// A skip instruction moves the program counter on by four bytes where
/// its condition holds and by two where it does not. Beyond that only
/// the timer runs: no register, no memory and no pixel changes.
pub proof fn lemma_skips(m: Machine, ins: Instruction, keys: Seq<bool>, skip: bool)
    requires
        m.wf(),
        runs(m, ins),
        skip_condition(m, ins, keys) == Some(skip),
    ensures
        step_spec(m, keys) == Ok::<Machine, Chip8Error>(
            Machine {
                pc: if skip {
                    (m.pc + 4) as u16
                } else {
                    (m.pc + 2) as u16
                },
                ..m
            }.ticked(),
        ),
{
}

/// An instruction other than a jump or a call to an odd address keeps
/// the program counter and the return addresses even.
proof fn lemma_execute_keeps_aligned(m: Machine, ins: Instruction, keys: Seq<bool>)
    requires
        m.wf(),
        ins.wf(),
        m.pc + 2 <= RAM_SIZE,
        aligned(m),
        execute_spec(m, ins, keys) is Ok,
        match ins {
            Instruction::Jp { addr } | Instruction::Call { addr } => addr % 2 == 0,
            _ => true,
        },
    ensures
        aligned(execute_spec(m, ins, keys)->Ok_0),
{
    let after = execute_spec(m, ins, keys)->Ok_0;
    match ins {
        Instruction::Call { addr } => {
            assert forall|k: int| 0 <= k < after.sp implies #[trigger] after.stack[k] % 2 == 0 by {
                if k < m.sp {
                    assert(m.stack[k] % 2 == 0);
                }
            }
        },
        Instruction::Ret => {
            assert(m.stack[m.sp - 1] % 2 == 0);
            assert forall|k: int| 0 <= k < after.sp implies #[trigger] after.stack[k] % 2 == 0 by {
                assert(m.stack[k] % 2 == 0);
            }
        },
        _ => {
            assert(after.stack == m.stack);
            assert(after.sp == m.sp);
            assert forall|k: int| 0 <= k < after.sp implies #[trigger] after.stack[k] % 2 == 0 by {
                assert(m.stack[k] % 2 == 0);
            }
        },
    }
}

/// A program counter that is even stays even, and so do the return
/// addresses on the stack, as long as the program jumps to and calls
/// even addresses only.
pub proof fn lemma_even_program_counter(m: Machine, keys: Seq<bool>)
    requires
        m.wf(),
        aligned(m),
        step_spec(m, keys) is Ok,
        match decode_spec(fetched(m)) {
            Some(Instruction::Jp { addr }) | Some(Instruction::Call { addr }) => addr % 2 == 0,
            _ => true,
        },
    ensures
        aligned(step_spec(m, keys)->Ok_0),
{
    let ins = decode_spec(fetched(m))->Some_0;
    let executed = execute_spec(m, ins, keys)->Ok_0;
    crate::instruction::lemma_decode_wf(fetched(m));
    lemma_execute_keeps_aligned(m, ins, keys);
    let after = step_spec(m, keys)->Ok_0;
    assert(after == executed.ticked());
    assert(after.stack == executed.stack && after.sp == executed.sp && after.pc == executed.pc);
    assert forall|k: int| 0 <= k < after.sp implies #[trigger] after.stack[k] % 2 == 0 by {
        assert(executed.stack[k] % 2 == 0);
    }
}

/// The glyph instruction points `I` at the glyph of a hexadecimal
/// digit: at five times the digit, where the font holds its five bytes
/// before the first cycle.
pub proof fn lemma_glyph_address(m: Machine, x: u8, rom: Seq<u8>)
    requires
        m.wf(),
        x < 16,
        m.v[x as int] < 16,
    ensures
        m.ld_f_vx(x).i == 5 * m.v[x as int],
        m.ld_f_vx(x).i + GLYPH_SIZE <= 80,
        initial_memory(rom).subrange(m.ld_f_vx(x).i as int, m.ld_f_vx(x).i + GLYPH_SIZE)
            == font_table().subrange(m.ld_f_vx(x).i as int, m.ld_f_vx(x).i + GLYPH_SIZE),
{
    let at = m.ld_f_vx(x).i as int;
    assert(initial_memory(rom).subrange(at, at + GLYPH_SIZE) =~= font_table().subrange(
        at,
        at + GLYPH_SIZE,
    ));
}

/// The flag register changes only where an instruction draws, or names
/// it as the register to write to. Neither addition sets a flag.
pub proof fn lemma_flag_register(m: Machine, ins: Instruction, keys: Seq<bool>)
    requires
        m.wf(),
        ins.wf(),
        execute_spec(m, ins, keys) is Ok,
        match ins {
            Instruction::Drw { .. } => false,
            Instruction::LdByte { x, .. }
            | Instruction::AddByte { x, .. }
            | Instruction::LdReg { x, .. }
            | Instruction::LdVxDt { x }
            | Instruction::LdVxI { x } => x != FLAG_REGISTER,
            _ => true,
        },
    ensures
        execute_spec(m, ins, keys)->Ok_0.v[FLAG_REGISTER as int] == m.v[FLAG_REGISTER as int],
{
}

/// The screen changes only where the machine clears it or draws on it,
/// and memory only where the machine stores decimal digits.
pub proof fn lemma_screen_and_memory(m: Machine, ins: Instruction, keys: Seq<bool>)
    requires
        m.wf(),
        ins.wf(),
        execute_spec(m, ins, keys) is Ok,
    ensures
        !(ins is Cls || ins is Drw) ==> execute_spec(m, ins, keys)->Ok_0.pixels == m.pixels,
        !(ins is LdB) ==> execute_spec(m, ins, keys)->Ok_0.memory == m.memory,
{
}

/// After the clear instruction every pixel is off, whatever was on the
/// screen.
pub proof fn lemma_clear_screen(m: Machine, keys: Seq<bool>)
    requires
        m.wf(),
        runs(m, Instruction::Cls),
    ensures
        step_spec(m, keys) matches Ok(after) && after.pixels == blank() && (forall|p: int|
            0 <= p < after.pixels.len() ==> !after.pixels[p]),
{
}

} // verus!
