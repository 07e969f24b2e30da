//! The machine: registers, call stack, timer, memory and screen, and
//! the cycle that runs one instruction.

use crate::display::Display;
use crate::instruction::{decode, Instruction};
use crate::keypad::Keypad;
use crate::machine::{
    decimal_digits, ends_as, execute_spec, initial_machine, loaded_registers, step_spec,
    Chip8Error, Machine, STACK_SIZE,
};
use crate::ram::{Ram, PROGRAM_START, RAM_SIZE};
use vstd::prelude::*;

verus! {

/// A CHIP-8 machine.
pub struct Chip8 {
    vx: [u8; 16],
    i: u16,
    pc: u16,
    sp: u8,
    dt: u8,
    stack: [u16; 16],
    ram: Ram,
    display: Display,
}

impl View for Chip8 {
    type V = Machine;

    closed spec fn view(&self) -> Machine {
        Machine {
            v: self.vx@,
            i: self.i,
            pc: self.pc,
            sp: self.sp,
            dt: self.dt,
            stack: self.stack@,
            memory: self.ram@,
            pixels: self.display@,
        }
    }
}

impl Chip8 {
    /// The stack pointer does not point past the stack.
    pub open spec fn wf(&self) -> bool {
        self@.wf()
    }

    /// Whether the program counter leaves room in memory for the
    /// instruction it stands on.
    pub open spec fn fetchable(&self) -> bool {
        self@.pc + 2 <= RAM_SIZE
    }

    /// The sizes of the parts are those of every machine.
    proof fn lemma_sizes(&self)
        ensures
            self@.v.len() == 16,
            self@.stack.len() == 16,
            self@.memory.len() == RAM_SIZE,
            self@.pixels.len() == crate::display::PIXEL_COUNT,
            self@.memory == self.ram@,
            self@.pixels == self.display@,
    {
        self.ram.lemma_size();
        self.display.lemma_size();
    }

    /// 00E0 - CLS
    /// Clear the display.
    fn cls(&mut self)
        requires
            old(self).wf(),
            old(self).fetchable(),
        ensures
            final(self)@ == old(self)@.cls(),
    {
        self.display.clear();
        self.pc += 2;
    }

    /// 00EE - RET
    /// Return from a subroutine.
    ///
    /// The interpreter subtracts 1 from the stack pointer, then sets the
    /// program counter to the address at the top of the stack.
    fn ret(&mut self) -> (result: Result<(), Chip8Error>)
        requires
            old(self).wf(),
        ensures
            ends_as(old(self)@, final(self)@, result, old(self)@.ret()),
    {
        if self.sp == 0 {
            return Err(Chip8Error::StackUnderflow { pc: self.pc });
        }
        self.sp -= 1;
        self.pc = self.stack[self.sp as usize];
        Ok(())
    }

    /// 1nnn - JP addr
    /// Jump to location nnn.
    ///
    /// The interpreter sets the program counter to nnn.
    fn jp_addr(&mut self, addr: u16)
        ensures
            final(self)@ == old(self)@.jp_addr(addr),
    {
        self.pc = addr;
    }

    /// 2nnn - CALL addr
    /// Call subroutine at nnn.
    ///
    /// The interpreter puts the address of the next instruction on the
    /// top of the stack, then increments the stack pointer. The PC is
    /// then set to nnn.
    fn call_addr(&mut self, addr: u16) -> (result: Result<(), Chip8Error>)
        requires
            old(self).wf(),
            old(self).fetchable(),
        ensures
            ends_as(old(self)@, final(self)@, result, old(self)@.call_addr(addr)),
    {
        if self.sp as usize >= STACK_SIZE {
            return Err(Chip8Error::StackOverflow { pc: self.pc });
        }
        // Put the address to return to on the top of the stack
        self.stack[self.sp as usize] = self.pc + 2;

        // Increment stack pointer
        self.sp += 1;

        // Set PC to specified value
        self.pc = addr;
        Ok(())
    }

    /// Moves the program counter past this instruction, and past the
    /// next one too if `skip` holds.
    fn skip_if(&mut self, skip: bool)
        requires
            old(self).fetchable(),
        ensures
            final(self)@ == old(self)@.skipped_if(skip),
    {
        if skip {
            self.pc += 2;
        }
        self.pc += 2;
    }

    /// 3xkk - SE Vx, byte
    /// Skip next instruction if Vx = kk.
    ///
    /// The interpreter compares register Vx to kk, and if they are equal,
    /// increments the program counter by 2.
    fn se_vx_byte(&mut self, x: u8, kk: u8)
        requires
            old(self).fetchable(),
            x < 16,
        ensures
            final(self)@ == old(self)@.se_vx_byte(x, kk),
    {
        self.skip_if(self.vx[x as usize] == kk);
    }

    /// 4xkk - SNE Vx, byte
    /// Skip next instruction if Vx != kk.
    ///
    /// The interpreter compares register Vx to kk, and if they are not equal,
    /// increments the program counter by 2.
    fn sne_vx_byte(&mut self, x: u8, kk: u8)
        requires
            old(self).fetchable(),
            x < 16,
        ensures
            final(self)@ == old(self)@.sne_vx_byte(x, kk),
    {
        self.skip_if(self.vx[x as usize] != kk);
    }

    /// 5xy0 - SE Vx, Vy
    /// Skip next instruction if Vx = Vy.
    ///
    /// The interpreter compares register Vx to register Vy, and if they are
    /// equal, increments the program counter by 2.
    fn se_vx_vy(&mut self, x: u8, y: u8)
        requires
            old(self).fetchable(),
            x < 16,
            y < 16,
        ensures
            final(self)@ == old(self)@.se_vx_vy(x, y),
    {
        self.skip_if(self.vx[x as usize] == self.vx[y as usize]);
    }

    /// 6xkk - LD Vx, byte
    /// Set Vx = kk.
    ///
    /// The interpreter puts the value kk into register Vx.
    fn ld_vx_byte(&mut self, x: u8, kk: u8)
        requires
            old(self).fetchable(),
            x < 16,
        ensures
            final(self)@ == old(self)@.ld_vx_byte(x, kk),
    {
        self.vx[x as usize] = kk;
        self.pc += 2;
    }

    /// 7xkk - ADD Vx, byte
    /// Set Vx = Vx + kk.
    ///
    /// Adds the value kk to the value of register Vx, then stores the result
    /// in Vx.
    fn add_vx_byte(&mut self, x: u8, kk: u8)
        requires
            old(self).fetchable(),
            x < 16,
        ensures
            final(self)@ == old(self)@.add_vx_byte(x, kk),
    {
        let sum = self.vx[x as usize].wrapping_add(kk);
        self.vx[x as usize] = sum;
        self.pc += 2;
    }

    /// 8xy0 - LD Vx, Vy
    /// Set Vx = Vy.
    ///
    /// Stores the value of register Vy in register Vx.
    fn ld_vx_vy(&mut self, x: u8, y: u8)
        requires
            old(self).fetchable(),
            x < 16,
            y < 16,
        ensures
            final(self)@ == old(self)@.ld_vx_vy(x, y),
    {
        let value = self.vx[y as usize];
        self.vx[x as usize] = value;
        self.pc += 2;
    }

    /// 9xy0 - SNE Vx, Vy
    /// Skip next instruction if Vx != Vy.
    ///
    /// The values of Vx and Vy are compared, and if they are not equal, the
    /// program counter is increased by 2.
    fn sne_vx_vy(&mut self, x: u8, y: u8)
        requires
            old(self).fetchable(),
            x < 16,
            y < 16,
        ensures
            final(self)@ == old(self)@.sne_vx_vy(x, y),
    {
        self.skip_if(self.vx[x as usize] != self.vx[y as usize]);
    }

    /// Annn - LD I, addr
    /// Set I = nnn.
    ///
    /// The value of register I is set to nnn.
    fn ld_i_addr(&mut self, addr: u16)
        requires
            old(self).fetchable(),
        ensures
            final(self)@ == old(self)@.ld_i_addr(addr),
    {
        self.i = addr;
        self.pc += 2;
    }

    /// Dxyn - DRW Vx, Vy, nibble
    /// Display n-byte sprite starting at memory location I at (Vx, Vy),
    /// set VF = collision.
    ///
    /// The interpreter reads n bytes from memory, starting at the address
    /// stored in I. These bytes are then displayed as sprites on screen at
    /// coordinates (Vx, Vy). Sprites are XORed onto the existing screen. If
    /// this causes any pixels to be erased, VF is set to 1, otherwise it is
    /// set to 0. If the sprite is positioned so part of it is outside the
    /// coordinates of the display, it wraps around to the opposite side of the
    /// screen.
    fn drw_vx_vy_nibble(&mut self, x: u8, y: u8, n: u8) -> (result: Result<(), Chip8Error>)
        requires
            old(self).wf(),
            old(self).fetchable(),
            x < 16,
            y < 16,
        ensures
            ends_as(old(self)@, final(self)@, result, old(self)@.drw_vx_vy_nibble(x, y, n)),
    {
        proof {
            self.lemma_sizes();
        }
        let start = self.i as usize;
        let size = n as usize;
        if start + size > RAM_SIZE {
            return Err(Chip8Error::Address { pc: self.pc, start: self.i, len: n as u16 });
        }
        let sprite_data = self.ram.read_bytes(start, size);
        let pixels_erased = self.display.draw_sprite(
            self.vx[x as usize] as usize,
            self.vx[y as usize] as usize,
            sprite_data,
        );

        if pixels_erased {
            self.vx[0xF] = 0x1;
        } else {
            self.vx[0xF] = 0x0;
        }

        self.pc += 2;
        Ok(())
    }

    /// ExA1 - SKNP Vx
    /// Skip next instruction if key with the value of Vx is not pressed.
    ///
    /// Checks the keyboard, and if the key corresponding to the value of Vx is
    /// currently in the up position, PC is increased by 2.
    fn sknp_vx(&mut self, x: u8, keys: &Keypad) -> (result: Result<(), Chip8Error>)
        requires
            old(self).fetchable(),
            x < 16,
        ensures
            ends_as(old(self)@, final(self)@, result, old(self)@.sknp_vx(x, keys@)),
    {
        let key = self.vx[x as usize];
        if key >= 16 {
            return Err(Chip8Error::InvalidKey { pc: self.pc, key });
        }
        self.skip_if(!keys.is_down(key));
        Ok(())
    }

    /// Fx07 - LD Vx, DT
    /// Set Vx = delay timer value.
    ///
    /// The value of DT is placed into Vx.
    fn ld_vx_dt(&mut self, x: u8)
        requires
            old(self).fetchable(),
            x < 16,
        ensures
            final(self)@ == old(self)@.ld_vx_dt(x),
    {
        self.vx[x as usize] = self.dt;
        self.pc += 2;
    }

    /// Fx15 - LD DT, Vx
    /// Set delay timer = Vx.
    ///
    /// DT is set equal to the value of Vx.
    fn ld_dt_vx(&mut self, x: u8)
        requires
            old(self).fetchable(),
            x < 16,
        ensures
            final(self)@ == old(self)@.ld_dt_vx(x),
    {
        self.dt = self.vx[x as usize];
        self.pc += 2;
    }

    /// Fx1E - ADD I, Vx
    /// Set I = I + Vx.
    ///
    /// The values of I and Vx are added, and the results are stored in I.
    fn add_i_vx(&mut self, x: u8)
        requires
            old(self).fetchable(),
            x < 16,
        ensures
            final(self)@ == old(self)@.add_i_vx(x),
    {
        self.i = self.i.wrapping_add(self.vx[x as usize] as u16);
        self.pc += 2;
    }

    /// Fx29 - LD F, Vx
    /// Set I = location of sprite for digit Vx.
    ///
    /// The value of I is set to the location for the hexadecimal sprite
    /// corresponding to the value of Vx.
    fn ld_f_vx(&mut self, x: u8)
        requires
            old(self).fetchable(),
            x < 16,
        ensures
            final(self)@ == old(self)@.ld_f_vx(x),
    {
        let digit = self.vx[x as usize] as u16;

        // Each sprite is 5 bytes long, so multiply the digit by 5 to get the
        // memory address. For example, the sprite for 0 begins at 0x0, and the
        // sprite for 1 begins at 0x5
        self.i = digit * 5;
        self.pc += 2;
    }

    /// Fx33 - LD B, Vx
    /// Store BCD representation of Vx in memory locations I, I+1, and I+2.
    ///
    /// The interpreter takes the decimal value of Vx, and places the hundreds
    /// digit in memory at location in I, the tens digit at location I+1, and
    /// the ones digit at location I+2.
    fn ld_b_vx(&mut self, x: u8) -> (result: Result<(), Chip8Error>)
        requires
            old(self).fetchable(),
            x < 16,
        ensures
            ends_as(old(self)@, final(self)@, result, old(self)@.ld_b_vx(x)),
    {
        let start = self.i as usize;
        if start + 3 > RAM_SIZE {
            return Err(Chip8Error::Address { pc: self.pc, start: self.i, len: 3 });
        }
        let reg_val = self.vx[x as usize];

        let hundreds: u8 = reg_val / 100;
        let tens: u8 = (reg_val / 10) % 10;
        let ones: u8 = reg_val % 10;
        let digits: [u8; 3] = [hundreds, tens, ones];
        assert(digits@ =~= decimal_digits(reg_val));

        self.ram.write_data(start, digits.as_slice());
        self.pc += 2;
        Ok(())
    }

    /// Fx65 - LD Vx, [I]
    /// Read registers V0 through Vx from memory starting at location I.
    ///
    /// The interpreter reads values from memory starting at location I into
    /// registers V0 through Vx.
    fn ld_vx_i(&mut self, x: u8) -> (result: Result<(), Chip8Error>)
        requires
            old(self).wf(),
            old(self).fetchable(),
            x < 16,
        ensures
            ends_as(old(self)@, final(self)@, result, old(self)@.ld_vx_i(x)),
    {
        proof {
            self.lemma_sizes();
        }
        let start = self.i as usize;
        let count = x as usize + 1;
        if start + count > RAM_SIZE {
            return Err(Chip8Error::Address { pc: self.pc, start: self.i, len: x as u16 + 1 });
        }
        let mut r: usize = 0;
        while r < count
            invariant
                count == x + 1,
                x < 16,
                r <= count,
                start == old(self)@.i,
                start + count <= RAM_SIZE,
                old(self)@.v.len() == 16,
                self@ == (Machine {
                    v: loaded_registers(old(self)@.v, old(self)@.memory, start as int, r - 1),
                    ..old(self)@
                }),
            decreases count - r,
        {
            let memory_index = start + r;
            let byte = *self.ram.read_byte(memory_index);
            self.vx[r] = byte;
            r += 1;
            assert(self@.v =~= loaded_registers(
                old(self)@.v,
                old(self)@.memory,
                start as int,
                r - 1,
            ));
        }
        self.pc += 2;
        Ok(())
    }

    /// Runs a decoded instruction on which the program counter stands.
    fn execute(&mut self, ins: Instruction, keys: &Keypad) -> (result: Result<(), Chip8Error>)
        requires
            old(self).wf(),
            old(self).fetchable(),
            ins.wf(),
        ensures
            ends_as(old(self)@, final(self)@, result, execute_spec(old(self)@, ins, keys@)),
    {
        match ins {
            Instruction::Cls => {
                self.cls();
                Ok(())
            },
            Instruction::Ret => self.ret(),
            Instruction::Jp { addr } => {
                self.jp_addr(addr);
                Ok(())
            },
            Instruction::Call { addr } => self.call_addr(addr),
            Instruction::SeByte { x, kk } => {
                self.se_vx_byte(x, kk);
                Ok(())
            },
            Instruction::SneByte { x, kk } => {
                self.sne_vx_byte(x, kk);
                Ok(())
            },
            Instruction::SeReg { x, y } => {
                self.se_vx_vy(x, y);
                Ok(())
            },
            Instruction::LdByte { x, kk } => {
                self.ld_vx_byte(x, kk);
                Ok(())
            },
            Instruction::AddByte { x, kk } => {
                self.add_vx_byte(x, kk);
                Ok(())
            },
            Instruction::LdReg { x, y } => {
                self.ld_vx_vy(x, y);
                Ok(())
            },
            Instruction::SneReg { x, y } => {
                self.sne_vx_vy(x, y);
                Ok(())
            },
            Instruction::LdI { addr } => {
                self.ld_i_addr(addr);
                Ok(())
            },
            Instruction::Drw { x, y, n } => self.drw_vx_vy_nibble(x, y, n),
            Instruction::Sknp { x } => self.sknp_vx(x, keys),
            Instruction::LdVxDt { x } => {
                self.ld_vx_dt(x);
                Ok(())
            },
            Instruction::LdDtVx { x } => {
                self.ld_dt_vx(x);
                Ok(())
            },
            Instruction::AddI { x } => {
                self.add_i_vx(x);
                Ok(())
            },
            Instruction::LdF { x } => {
                self.ld_f_vx(x);
                Ok(())
            },
            Instruction::LdB { x } => self.ld_b_vx(x),
            Instruction::LdVxI { x } => self.ld_vx_i(x),
        }
    }

    /// A machine with `rom` loaded, about to run its first instruction.
    ///
    /// The program has to fit between `0x200` and the end of memory.
    pub fn new(rom: &[u8]) -> (chip8: Chip8)
        requires
            rom@.len() <= RAM_SIZE - PROGRAM_START,
        ensures
            chip8@ == initial_machine(rom@),
            chip8.wf(),
    {
        let chip8 = Chip8 {
            vx: [0x0; 16],
            i: 0x0,
            pc: 0x200,
            sp: 0x0,
            dt: 0x0,
            stack: [0x0; 16],
            ram: Ram::new(rom),
            display: Display::new(),
        };
        proof {
            chip8.lemma_sizes();
            assert(chip8@.v =~= initial_machine(rom@).v);
            assert(chip8@.stack =~= initial_machine(rom@).stack);
        }
        chip8
    }

    /// The value of register `Vx`.
    pub fn register(&self, x: u8) -> (value: u8)
        requires
            x < 16,
        ensures
            value == self@.v[x as int],
    {
        self.vx[x as usize]
    }

    /// The registers `V0` to `VF`, in this order.
    pub fn registers(&self) -> (values: &[u8])
        ensures
            values@ == self@.v,
    {
        self.vx.as_slice()
    }

    /// The address register `I`.
    pub fn index_register(&self) -> (value: u16)
        ensures
            value == self@.i,
    {
        self.i
    }

    /// The address of the instruction that the next cycle runs.
    pub fn program_counter(&self) -> (value: u16)
        ensures
            value == self@.pc,
    {
        self.pc
    }

    /// The number of calls that have not returned yet.
    pub fn stack_pointer(&self) -> (value: u8)
        ensures
            value == self@.sp,
    {
        self.sp
    }

    /// The delay timer.
    pub fn delay_timer(&self) -> (value: u8)
        ensures
            value == self@.dt,
    {
        self.dt
    }

    /// The sixteen entries of the call stack; those below the stack
    /// pointer are return addresses.
    pub fn stack(&self) -> (entries: &[u16])
        ensures
            entries@ == self@.stack,
    {
        self.stack.as_slice()
    }

    /// The machine's memory.
    pub fn ram(&self) -> (ram: &Ram)
        ensures
            ram@ == self@.memory,
    {
        &self.ram
    }

    /// The machine's screen.
    pub fn display(&self) -> (display: &Display)
        ensures
            display@ == self@.pixels,
    {
        &self.display
    }

    /// Runs one cycle: fetches the word at the program counter, decodes
    /// and executes it, and then lets the delay timer run down by one.
    ///
    /// `keys` is the state of the keypad during this cycle. On `Ok` the
    /// screen is due for a refresh. An error is fatal, and leaves the
    /// machine as it was.
    pub fn run_instruction(&mut self, keys: &Keypad) -> (result: Result<(), Chip8Error>)
        requires
            old(self).wf(),
        ensures
            final(self).wf(),
            ends_as(old(self)@, final(self)@, result, step_spec(old(self)@, keys@)),
    {
        proof {
            self.lemma_sizes();
        }
        let pc = self.pc as usize;
        if pc + 2 > RAM_SIZE {
            return Err(Chip8Error::Address { pc: self.pc, start: self.pc, len: 2 });
        }
        let current_instruction = self.ram.read_word(pc);
        match decode(current_instruction) {
            None => Err(Chip8Error::InvalidOpcode { pc: self.pc, word: current_instruction }),
            Some(ins) => {
                match self.execute(ins, keys) {
                    Err(e) => Err(e),
                    Ok(()) => {
                        // Decrement Timers
                        if self.dt > 0 {
                            self.dt -= 1;
                        }
                        proof {
                            self.lemma_sizes();
                        }
                        Ok(())
                    },
                }
            },
        }
    }
}

} // verus!
