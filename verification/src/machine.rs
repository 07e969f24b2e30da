//! What one cycle of the machine does, stated over plain values: the
//! machine's state as sequences and integers, and the state that each
//! instruction leaves behind.

use crate::display::{blank, cell_count, drawn, erases};
use crate::instruction::{decode_spec, Instruction};
use crate::keypad::KEY_COUNT;
use crate::ram::{initial_memory, word_at, written, GLYPH_SIZE, PROGRAM_START, RAM_SIZE};
use vstd::prelude::*;

verus! {

/// Number of general registers.
pub const REGISTER_COUNT: usize = 16;

/// Number of return addresses that the call stack holds.
pub const STACK_SIZE: usize = 16;

/// The register that doubles as the collision flag.
pub const FLAG_REGISTER: usize = 0xF;

/// Why the machine stopped. Each of these is fatal: the machine makes
/// no attempt to go on, and its state is as it was before the cycle.
#[derive(Clone, Copy, Debug, PartialEq, Eq, Structural)]
pub enum Chip8Error {
    /// The word at `pc` is no instruction of the machine.
    InvalidOpcode { pc: u16, word: u16 },
    /// The instruction at `pc` reaches outside memory: it wants the
    /// `len` bytes from `start` on.
    Address { pc: u16, start: u16, len: u16 },
    /// The call at `pc` would nest deeper than the stack holds.
    StackOverflow { pc: u16 },
    /// The return at `pc` has no call to return from.
    StackUnderflow { pc: u16 },
    /// The instruction at `pc` asks for a key that the keypad lacks.
    InvalidKey { pc: u16, key: u8 },
}

/// The machine's state.
#[verifier::ext_equal]
pub struct Machine {
    /// The general registers `V0` to `VF`.
    pub v: Seq<u8>,
    /// The address register `I`.
    pub i: u16,
    /// The program counter.
    pub pc: u16,
    /// The stack pointer: the number of calls that have not returned.
    pub sp: u8,
    /// The delay timer.
    pub dt: u8,
    /// The call stack; its entries below `sp` are return addresses.
    pub stack: Seq<u16>,
    /// The 4096 bytes of memory.
    pub memory: Seq<u8>,
    /// The 2048 pixels, row by row.
    pub pixels: Seq<bool>,
}

impl Machine {
    /// The parts have their sizes, and the stack pointer does not point
    /// past the stack.
    pub open spec fn wf(self) -> bool {
        &&& self.v.len() == REGISTER_COUNT
        &&& self.stack.len() == STACK_SIZE
        &&& self.memory.len() == RAM_SIZE
        &&& self.pixels.len() == crate::display::PIXEL_COUNT
        &&& self.sp <= STACK_SIZE
    }

    /// The state with the program counter moved on by `by` bytes.
    pub open spec fn advanced(self, by: int) -> Machine {
        Machine { pc: (self.pc + by) as u16, ..self }
    }

    /// The state after an instruction that skips the next one if `skip`
    /// holds.
    pub open spec fn skipped_if(self, skip: bool) -> Machine {
        self.advanced(
            if skip {
                4
            } else {
                2
            },
        )
    }

    /// The state with register `x` set to `value`.
    pub open spec fn with_register(self, x: int, value: u8) -> Machine {
        Machine { v: self.v.update(x, value), ..self }
    }

    /// The state after the timer has run for one cycle.
    pub open spec fn ticked(self) -> Machine {
        Machine {
            dt: if self.dt > 0 {
                (self.dt - 1) as u8
            } else {
                0
            },
            ..self
        }
    }

    /// `00E0`: every pixel is off.
    pub open spec fn cls(self) -> Machine {
        Machine { pixels: blank(), ..self }.advanced(2)
    }

    /// `00EE`: the program counter is the newest return address, which
    /// leaves the stack. Stops where the stack is empty.
    pub open spec fn ret(self) -> Result<Machine, Chip8Error> {
        if self.sp == 0 {
            Err(Chip8Error::StackUnderflow { pc: self.pc })
        } else {
            Ok(Machine { sp: (self.sp - 1) as u8, pc: self.stack[self.sp - 1], ..self })
        }
    }

    /// `1nnn`: the program counter is `addr`.
    pub open spec fn jp_addr(self, addr: u16) -> Machine {
        Machine { pc: addr, ..self }
    }

    /// `2nnn`: the address of the instruction after the call goes onto
    /// the stack, and the program counter is `addr`. Stops where the
    /// stack is full.
    pub open spec fn call_addr(self, addr: u16) -> Result<Machine, Chip8Error> {
        if self.sp >= STACK_SIZE {
            Err(Chip8Error::StackOverflow { pc: self.pc })
        } else {
            Ok(
                Machine {
                    stack: self.stack.update(self.sp as int, (self.pc + 2) as u16),
                    sp: (self.sp + 1) as u8,
                    pc: addr,
                    ..self
                },
            )
        }
    }

    /// `3xkk`: skips if `Vx == kk`.
    pub open spec fn se_vx_byte(self, x: u8, kk: u8) -> Machine {
        self.skipped_if(self.v[x as int] == kk)
    }

    /// `4xkk`: skips if `Vx != kk`.
    pub open spec fn sne_vx_byte(self, x: u8, kk: u8) -> Machine {
        self.skipped_if(self.v[x as int] != kk)
    }

    /// `5xy0`: skips if `Vx == Vy`.
    pub open spec fn se_vx_vy(self, x: u8, y: u8) -> Machine {
        self.skipped_if(self.v[x as int] == self.v[y as int])
    }

    /// `6xkk`: `Vx` is `kk`.
    pub open spec fn ld_vx_byte(self, x: u8, kk: u8) -> Machine {
        self.with_register(x as int, kk).advanced(2)
    }

    /// `7xkk`: `Vx` is `Vx + kk` modulo 256; no flag is set.
    pub open spec fn add_vx_byte(self, x: u8, kk: u8) -> Machine {
        self.with_register(x as int, ((self.v[x as int] + kk) % 256) as u8).advanced(2)
    }

    /// `8xy0`: `Vx` is `Vy`.
    pub open spec fn ld_vx_vy(self, x: u8, y: u8) -> Machine {
        self.with_register(x as int, self.v[y as int]).advanced(2)
    }

    /// `9xy0`: skips if `Vx != Vy`.
    pub open spec fn sne_vx_vy(self, x: u8, y: u8) -> Machine {
        self.skipped_if(self.v[x as int] != self.v[y as int])
    }

    /// `Annn`: `I` is `addr`.
    pub open spec fn ld_i_addr(self, addr: u16) -> Machine {
        Machine { i: addr, ..self }.advanced(2)
    }

    /// The `n` bytes at `I`: the rows of the sprite that `Dxyn` draws.
    pub open spec fn sprite(self, n: u8) -> Seq<u8> {
        self.memory.subrange(self.i as int, self.i + n)
    }

    /// `Dxyn`: the sprite of `n` rows at `I` is XOR-ed onto the screen
    /// at `(Vx, Vy)`, and `VF` is 1 if that erased a pixel, else 0.
    /// Stops where the sprite does not lie inside memory.
    pub open spec fn drw_vx_vy_nibble(self, x: u8, y: u8, n: u8) -> Result<Machine, Chip8Error> {
        if self.i + n > RAM_SIZE {
            Err(Chip8Error::Address { pc: self.pc, start: self.i, len: n as u16 })
        } else {
            let rows = self.sprite(n);
            let at_x = self.v[x as int] as int;
            let at_y = self.v[y as int] as int;
            let flag = if erases(self.pixels, at_x, at_y, rows, cell_count(rows)) {
                1u8
            } else {
                0u8
            };
            Ok(
                Machine {
                    pixels: drawn(self.pixels, at_x, at_y, rows, cell_count(rows)),
                    ..self
                }.with_register(FLAG_REGISTER as int, flag).advanced(2),
            )
        }
    }

    /// `ExA1`: skips if key `Vx` is up. Stops where `Vx` is no key.
    pub open spec fn sknp_vx(self, x: u8, keys: Seq<bool>) -> Result<Machine, Chip8Error> {
        if self.v[x as int] >= KEY_COUNT {
            Err(Chip8Error::InvalidKey { pc: self.pc, key: self.v[x as int] })
        } else {
            Ok(self.skipped_if(!keys[self.v[x as int] as int]))
        }
    }

    /// `Fx07`: `Vx` is the delay timer.
    pub open spec fn ld_vx_dt(self, x: u8) -> Machine {
        self.with_register(x as int, self.dt).advanced(2)
    }

    /// `Fx15`: the delay timer is `Vx`.
    pub open spec fn ld_dt_vx(self, x: u8) -> Machine {
        Machine { dt: self.v[x as int], ..self }.advanced(2)
    }

    /// `Fx1E`: `I` is `I + Vx` modulo 65536; no flag is set.
    pub open spec fn add_i_vx(self, x: u8) -> Machine {
        Machine { i: ((self.i + self.v[x as int]) % 0x10000) as u16, ..self }.advanced(2)
    }

    /// `Fx29`: `I` is the address of the glyph of digit `Vx`.
    pub open spec fn ld_f_vx(self, x: u8) -> Machine {
        Machine { i: (self.v[x as int] * GLYPH_SIZE) as u16, ..self }.advanced(2)
    }

    /// `Fx33`: the hundreds, tens and ones of `Vx` lie at `I`, `I + 1`
    /// and `I + 2`. Stops where these do not lie inside memory.
    pub open spec fn ld_b_vx(self, x: u8) -> Result<Machine, Chip8Error> {
        if self.i + 3 > RAM_SIZE {
            Err(Chip8Error::Address { pc: self.pc, start: self.i, len: 3 })
        } else {
            Ok(
                Machine {
                    memory: written(self.memory, self.i as int, decimal_digits(self.v[x as int])),
                    ..self
                }.advanced(2),
            )
        }
    }

    /// `Fx65`: `V0` to `Vx` hold the bytes at `I` to `I + x`. Stops
    /// where these do not lie inside memory.
    pub open spec fn ld_vx_i(self, x: u8) -> Result<Machine, Chip8Error> {
        if self.i + x + 1 > RAM_SIZE {
            Err(Chip8Error::Address { pc: self.pc, start: self.i, len: (x + 1) as u16 })
        } else {
            Ok(
                Machine {
                    v: loaded_registers(self.v, self.memory, self.i as int, x as int),
                    ..self
                }.advanced(2),
            )
        }
    }
}

/// The hundreds, tens and ones of a byte.
pub open spec fn decimal_digits(value: u8) -> Seq<u8> {
    seq![value / 100, (value / 10) % 10, value % 10]
}

/// Registers after `V0` to `Vx` have been loaded from `memory` at
/// `start`.
pub open spec fn loaded_registers(v: Seq<u8>, memory: Seq<u8>, start: int, x: int) -> Seq<u8> {
    Seq::new(
        v.len(),
        |r: int|
            if r <= x {
                memory[start + r]
            } else {
                v[r]
            },
    )
}

/// The machine before its first cycle: registers, timer and stack at
/// zero, the screen blank, the program counter at the program's start.
pub open spec fn initial_machine(rom: Seq<u8>) -> Machine {
    Machine {
        v: Seq::new(REGISTER_COUNT as nat, |r: int| 0u8),
        i: 0,
        pc: PROGRAM_START as u16,
        sp: 0,
        dt: 0,
        stack: Seq::new(STACK_SIZE as nat, |s: int| 0u16),
        memory: initial_memory(rom),
        pixels: blank(),
    }
}

/// What an instruction does to a machine whose program counter stands
/// on it: the state it leaves, or the error it stops with. `keys` says
/// which keys of the keypad are down.
pub open spec fn execute_spec(m: Machine, ins: Instruction, keys: Seq<bool>) -> Result<
    Machine,
    Chip8Error,
> {
    match ins {
        Instruction::Cls => Ok(m.cls()),
        Instruction::Ret => m.ret(),
        Instruction::Jp { addr } => Ok(m.jp_addr(addr)),
        Instruction::Call { addr } => m.call_addr(addr),
        Instruction::SeByte { x, kk } => Ok(m.se_vx_byte(x, kk)),
        Instruction::SneByte { x, kk } => Ok(m.sne_vx_byte(x, kk)),
        Instruction::SeReg { x, y } => Ok(m.se_vx_vy(x, y)),
        Instruction::LdByte { x, kk } => Ok(m.ld_vx_byte(x, kk)),
        Instruction::AddByte { x, kk } => Ok(m.add_vx_byte(x, kk)),
        Instruction::LdReg { x, y } => Ok(m.ld_vx_vy(x, y)),
        Instruction::SneReg { x, y } => Ok(m.sne_vx_vy(x, y)),
        Instruction::LdI { addr } => Ok(m.ld_i_addr(addr)),
        Instruction::Drw { x, y, n } => m.drw_vx_vy_nibble(x, y, n),
        Instruction::Sknp { x } => m.sknp_vx(x, keys),
        Instruction::LdVxDt { x } => Ok(m.ld_vx_dt(x)),
        Instruction::LdDtVx { x } => Ok(m.ld_dt_vx(x)),
        Instruction::AddI { x } => Ok(m.add_i_vx(x)),
        Instruction::LdF { x } => Ok(m.ld_f_vx(x)),
        Instruction::LdB { x } => m.ld_b_vx(x),
        Instruction::LdVxI { x } => m.ld_vx_i(x),
    }
}

/// Whether a cycle that was to end as `expected` did: on success with
/// the expected state, on an error with that error and the state
/// untouched.
pub open spec fn ends_as(
    before: Machine,
    after: Machine,
    result: Result<(), Chip8Error>,
    expected: Result<Machine, Chip8Error>,
) -> bool {
    match expected {
        Ok(m) => result is Ok && after == m,
        Err(e) => result == Err::<(), Chip8Error>(e) && after == before,
    }
}

/// One cycle: fetch the word at the program counter, decode it, execute
/// it, and let the timer run.
pub open spec fn step_spec(m: Machine, keys: Seq<bool>) -> Result<Machine, Chip8Error> {
    if m.pc + 2 > RAM_SIZE {
        Err(Chip8Error::Address { pc: m.pc, start: m.pc, len: 2 })
    } else {
        let word = word_at(m.memory, m.pc as int) as u16;
        match decode_spec(word) {
            None => Err(Chip8Error::InvalidOpcode { pc: m.pc, word }),
            Some(ins) => match execute_spec(m, ins, keys) {
                Ok(after) => Ok(after.ticked()),
                Err(e) => Err(e),
            },
        }
    }
}

} // verus!
