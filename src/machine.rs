use vstd::prelude::*;
use crate::model::{
    execute, font_glyphs, op_n, op_nn, op_nnn, op_x, op_y, outcome, reg, set_pc,
    set_regs, skip_if, key_down, spec_add_carry, spec_bcd, spec_call, spec_cls, spec_draw,
    spec_load, spec_ret, spec_shl, spec_shr, spec_store, spec_sub_into_x, spec_wait_key, step,
    hits, sprite_row, sprite_col, Fault, MachineView, MAX_ROM_LEN, START_ADDR,
};

verus! {

/// The whole state of one CHIP-8 machine.
pub struct Chip8 {
    /// 4 KiB of memory; glyphs at 0x000..0x050, programs from 0x200.
    pub ram: [u8; 4096],
    /// Registers V0..VF; VF doubles as the flag register.
    pub registers: [u8; 16],
    /// Return addresses of open calls.
    pub stack: [u16; 16],
    /// 64x32 display, row by row; `true` is a lit pixel.
    pub video: [bool; 2048],
    /// Key latch for keys 0x0..0xF; a non-zero entry is a pressed key.
    pub keypad: [u8; 16],
    /// Next free stack slot.
    pub sp: u8,
    /// Program counter.
    pub pc: u16,
    /// Index register I.
    pub i: u16,
    /// Sound timer.
    pub st: u8,
    /// Delay timer.
    pub dt: u8,
    /// The instruction word being executed.
    pub opcode: u16,
}

impl View for Chip8 {
    type V = MachineView;

    open spec fn view(&self) -> MachineView {
        MachineView {
            ram: self.ram@,
            registers: self.registers@,
            stack: self.stack@,
            video: self.video@,
            keypad: self.keypad@,
            sp: self.sp,
            pc: self.pc,
            i: self.i,
            st: self.st,
            dt: self.dt,
            opcode: self.opcode,
        }
    }
}

impl Chip8 {
    /// The stack pointer never passes the sixteen slots.
    pub open spec fn wf(&self) -> bool {
        self.sp <= 16
    }

    /// A machine with zeroed state, the glyphs loaded and `pc` at `START_ADDR`.
    pub fn new() -> (chip: Chip8)
        ensures
            chip.wf(),
            forall|a: int| 0 <= a < 80 ==> chip.ram@[a] == font_glyphs()[a],
            forall|a: int| 80 <= a < 4096 ==> chip.ram@[a] == 0,
            forall|k: int| 0 <= k < 16 ==> chip.registers@[k] == 0 && chip.stack@[k] == 0
                && chip.keypad@[k] == 0,
            forall|p: int| 0 <= p < 2048 ==> !chip.video@[p],
            chip.sp == 0 && chip.pc == START_ADDR && chip.i == 0,
            chip.st == 0 && chip.dt == 0 && chip.opcode == 0,
    {
        let mut chip = Chip8 {
            ram: [0; 4096],
            registers: [0; 16],
            stack: [0; 16],
            keypad: [0; 16],
            video: [false; 2048],
            sp: 0,
            pc: 0x200,
            i: 0,
            st: 0,
            dt: 0,
            opcode: 0,
        };
        let fonts: [u8; 80] = [
            0xF0, 0x90, 0x90, 0x90, 0xF0, // 0
            0x20, 0x60, 0x20, 0x20, 0x70, // 1
            0xF0, 0x10, 0xF0, 0x80, 0xF0, // 2
            0xF0, 0x10, 0xF0, 0x10, 0xF0, // 3
            0x90, 0x90, 0xF0, 0x10, 0x10, // 4
            0xF0, 0x80, 0xF0, 0x10, 0xF0, // 5
            0xF0, 0x80, 0xF0, 0x90, 0xF0, // 6
            0xF0, 0x10, 0x20, 0x40, 0x40, // 7
            0xF0, 0x90, 0xF0, 0x90, 0xF0, // 8
            0xF0, 0x90, 0xF0, 0x10, 0xF0, // 9
            0xF0, 0x90, 0xF0, 0x90, 0x90, // A
            0xE0, 0x90, 0xE0, 0x90, 0xE0, // B
            0xF0, 0x80, 0x80, 0x80, 0xF0, // C
            0xE0, 0x90, 0x90, 0x90, 0xE0, // D
            0xF0, 0x80, 0xF0, 0x80, 0xF0, // E
            0xF0, 0x80, 0xF0, 0x80, 0x80, // F
        ];
        assert(fonts@ =~= font_glyphs());
        let mut a: usize = 0;
        while a < 80
            invariant
                a <= 80,
                fonts@ == font_glyphs(),
                forall|b: int| 0 <= b < a ==> chip.ram@[b] == font_glyphs()[b],
                forall|b: int| 80 <= b < 4096 ==> chip.ram@[b] == 0,
                forall|k: int| 0 <= k < 16 ==> chip.registers@[k] == 0 && chip.stack@[k] == 0
                    && chip.keypad@[k] == 0,
                forall|p: int| 0 <= p < 2048 ==> !chip.video@[p],
                chip.sp == 0 && chip.pc == START_ADDR && chip.i == 0,
                chip.st == 0 && chip.dt == 0 && chip.opcode == 0,
            decreases 80 - a,
        {
            chip.ram[a] = fonts[a];
            a += 1;
        }
        chip
    }
}


/// Relies on rand::random: one byte from the thread-local generator; any value may come.
#[verifier::external_body]
fn random_byte() -> u8 {
    rand::random::<u8>()
}

fn field_x(w: u16) -> (r: usize)
    ensures
        r == op_x(w),
        r < 16,
{
    proof {
        assert((w & 0x0F00) >> 8u16 < 16) by (bit_vector);
    }
    ((w & 0x0F00) >> 8) as usize
}

fn field_y(w: u16) -> (r: usize)
    ensures
        r == op_y(w),
        r < 16,
{
    proof {
        assert((w & 0x00F0) >> 4u16 < 16) by (bit_vector);
    }
    ((w & 0x00F0) >> 4) as usize
}


/// Cells of the sprite already composed once the loop stands at (`row`, `col`).
spec fn painted(m: MachineView, x0: int, y0: int, n: int, row: int, col: int, p: int) -> bool {
    let r = sprite_row(y0, p / 64);
    let c = sprite_col(x0, p % 64);
    hits(m, x0, y0, n, p) && (r < row || (r == row && c < col))
}

/// Sprite cell (`row`, `col`) lands on display cell `idx`, and on no other.
proof fn lemma_cell_of(x0: int, y0: int, row: int, col: int, cx: int, cy: int, idx: int)
    requires
        0 <= x0 < 64,
        0 <= y0 < 32,
        0 <= row < 16,
        0 <= col < 8,
        cx == (x0 + col) % 64,
        cy == (y0 + row) % 32,
        idx == cy * 64 + cx,
    ensures
        0 <= idx < 2048,
        idx / 64 == cy,
        idx % 64 == cx,
        sprite_row(y0, idx / 64) == row,
        sprite_col(x0, idx % 64) == col,
        forall|p: int|
            0 <= p < 2048 && sprite_row(y0, p / 64) == row && #[trigger] sprite_col(x0, p % 64) == col
                ==> p == idx,
{
}

impl Chip8 {
    /// Copies `rom` into memory from `START_ADDR` on. A program longer than
    /// `MAX_ROM_LEN` bytes is refused and nothing is written.
    pub fn load_rom(&mut self, rom: &[u8]) -> (r: Result<(), Fault>)
        ensures
            rom@.len() > MAX_ROM_LEN ==> r == Err::<(), Fault>(Fault::RomTooLarge)
                && *final(self) == *old(self),
            rom@.len() <= MAX_ROM_LEN ==> r == Ok::<(), Fault>(()) && final(self)@ == (
            MachineView {
                ram: Seq::new(
                    4096,
                    |a: int|
                        if START_ADDR <= a < START_ADDR + rom@.len() {
                            rom@[a - START_ADDR]
                        } else {
                            old(self).ram@[a]
                        },
                ),
                ..old(self)@
            }),
    {
        if rom.len() > MAX_ROM_LEN {
            return Err(Fault::RomTooLarge);
        }
        let mut k: usize = 0;
        while k < rom.len()
            invariant
                rom@.len() <= MAX_ROM_LEN,
                k <= rom@.len(),
                forall|a: int|
                    0 <= a < 4096 ==> self.ram@[a] == if START_ADDR <= a < START_ADDR + k {
                        rom@[a - START_ADDR]
                    } else {
                        old(self).ram@[a]
                    },
                self@ == (MachineView { ram: self.ram@, ..old(self)@ }),
            decreases rom@.len() - k,
        {
            self.ram[START_ADDR + k] = rom[k];
            k += 1;
        }
        assert(self.ram@ =~= Seq::new(
            4096,
            |a: int|
                if START_ADDR <= a < START_ADDR + rom@.len() {
                    rom@[a - START_ADDR]
                } else {
                    old(self).ram@[a]
                },
        ));
        Ok(())
    }

    /// Counts both timers down by one, each only while above zero.
    pub fn tick_timers(&mut self)
        ensures
            final(self)@ == (MachineView {
                dt: if old(self).dt > 0 { (old(self).dt - 1) as u8 } else { 0u8 },
                st: if old(self).st > 0 { (old(self).st - 1) as u8 } else { 0u8 },
                ..old(self)@
            }),
            final(self).wf() == old(self).wf(),
    {
        if self.dt > 0 {
            self.dt -= 1;
        }
        if self.st > 0 {
            self.st -= 1;
        }
    }

    /// Whether the sound timer is running, that is whether a tone should sound.
    pub fn sound_on(&self) -> (r: bool)
        ensures
            r == (self.st > 0),
    {
        self.st > 0
    }

    /// Latches key `key` as pressed (`value` non-zero) or released (`value` zero).
    pub fn set_key_value(&mut self, key: usize, value: u8)
        requires
            key < 16,
        ensures
            final(self)@ == (MachineView { keypad: old(self).keypad@.update(key as int, value), ..old(self)@ }),
            final(self).wf() == old(self).wf(),
    {
        self.keypad[key] = value;
    }

    /// Runs one instruction, with a random byte drawn for the one instruction
    /// that uses one. Whatever byte came, the step is that of `step`.
    pub fn cycle(&mut self) -> (r: Result<(), Fault>)
        requires
            old(self).wf(),
        ensures
            final(self).wf(),
            exists|b: u8| outcome(old(self)@, final(self)@, r, #[trigger] step(old(self)@, b)),
    {
        let b = random_byte();
        let r = self.cycle_with(b);
        assert(outcome(old(self)@, self@, r, step(old(self)@, b)));
        r
    }

    /// Runs one instruction, with `rnd` as the random byte. On a fault the
    /// machine is left as it was.
    pub fn cycle_with(&mut self, rnd: u8) -> (r: Result<(), Fault>)
        requires
            old(self).wf(),
        ensures
            final(self).wf(),
            outcome(old(self)@, final(self)@, r, step(old(self)@, rnd)),
    {
        if self.pc > 0xFFE {
            return Err(Fault::AddressFault);
        }
        let pc = self.pc as usize;
        let opcode: u16 = (self.ram[pc] as u16) << 8 | self.ram[pc + 1] as u16;
        let saved_pc = self.pc;
        let saved_opcode = self.opcode;
        self.opcode = opcode;
        self.pc = self.pc + 2;
        let r = self.dispatch(rnd);
        if r.is_err() {
            self.pc = saved_pc;
            self.opcode = saved_opcode;
        }
        r
    }

    fn dispatch(&mut self, rnd: u8) -> (r: Result<(), Fault>)
        requires
            old(self).wf(),
            old(self).pc >= 2,
            old(self).pc <= 0x1000,
        ensures
            final(self).wf(),
            outcome(old(self)@, final(self)@, r, execute(old(self)@, rnd)),
    {
        let w = self.opcode;
        let d1 = (w & 0xF000) >> 12;
        let d2 = (w & 0x0F00) >> 8;
        let d3 = (w & 0x00F0) >> 4;
        let d4 = w & 0x000F;
        if d1 == 0 && d2 == 0 && d3 == 0xE && d4 == 0 {
            self.op_00e0();
            Ok(())
        } else if d1 == 0 && d2 == 0 && d3 == 0xE && d4 == 0xE {
            self.op_00ee()
        } else if d1 == 1 {
            self.op_1nnn();
            Ok(())
        } else if d1 == 2 {
            self.op_2nnn()
        } else if d1 == 3 {
            self.op_3xnn();
            Ok(())
        } else if d1 == 4 {
            self.op_4xnn();
            Ok(())
        } else if d1 == 5 && d4 == 0 {
            self.op_5xy0();
            Ok(())
        } else if d1 == 6 {
            self.op_6xnn();
            Ok(())
        } else if d1 == 7 {
            self.op_7xnn();
            Ok(())
        } else if d1 == 8 && d4 == 0 {
            self.op_8xy0();
            Ok(())
        } else if d1 == 8 && d4 == 1 {
            self.op_8xy1();
            Ok(())
        } else if d1 == 8 && d4 == 2 {
            self.op_8xy2();
            Ok(())
        } else if d1 == 8 && d4 == 3 {
            self.op_8xy3();
            Ok(())
        } else if d1 == 8 && d4 == 4 {
            self.op_8xy4();
            Ok(())
        } else if d1 == 8 && d4 == 5 {
            self.op_8xy5();
            Ok(())
        } else if d1 == 8 && d4 == 6 {
            self.op_8xy6();
            Ok(())
        } else if d1 == 8 && d4 == 7 {
            self.op_8xy7();
            Ok(())
        } else if d1 == 8 && d4 == 0xE {
            self.op_8xye();
            Ok(())
        } else if d1 == 9 && d4 == 0 {
            self.op_9xy0();
            Ok(())
        } else if d1 == 0xA {
            self.op_annn();
            Ok(())
        } else if d1 == 0xB {
            self.op_bnnn();
            Ok(())
        } else if d1 == 0xC {
            self.op_cxnn(rnd);
            Ok(())
        } else if d1 == 0xD {
            self.op_dxyn()
        } else if d1 == 0xE && d3 == 9 && d4 == 0xE {
            self.op_ex9e();
            Ok(())
        } else if d1 == 0xE && d3 == 0xA && d4 == 1 {
            self.op_exa1();
            Ok(())
        } else if d1 == 0xF && d3 == 0 && d4 == 7 {
            self.op_fx07();
            Ok(())
        } else if d1 == 0xF && d3 == 0 && d4 == 0xA {
            self.op_fx0a();
            Ok(())
        } else if d1 == 0xF && d3 == 1 && d4 == 5 {
            self.op_fx15();
            Ok(())
        } else if d1 == 0xF && d3 == 1 && d4 == 8 {
            self.op_fx18();
            Ok(())
        } else if d1 == 0xF && d3 == 1 && d4 == 0xE {
            self.op_fx1e();
            Ok(())
        } else if d1 == 0xF && d3 == 2 && d4 == 9 {
            self.op_fx29();
            Ok(())
        } else if d1 == 0xF && d3 == 3 && d4 == 3 {
            self.op_fx33()
        } else if d1 == 0xF && d3 == 5 && d4 == 5 {
            self.op_fx55()
        } else if d1 == 0xF && d3 == 6 && d4 == 5 {
            self.op_fx65()
        } else {
            Err(Fault::IllegalOpcode(w))
        }
    }

    /// `CLS`: clears the display.
    fn op_00e0(&mut self)
        ensures
            final(self)@ == spec_cls(old(self)@),
    {
        self.video = [false; 2048];
        assert(self.video@ =~= crate::model::blank_video());
    }

    /// `RET`: pops the return address into `pc`.
    fn op_00ee(&mut self) -> (r: Result<(), Fault>)
        requires
            old(self).wf(),
        ensures
            final(self).wf(),
            outcome(old(self)@, final(self)@, r, spec_ret(old(self)@)),
    {
        if self.sp == 0 {
            return Err(Fault::StackUnderflow);
        }
        self.sp -= 1;
        self.pc = self.stack[self.sp as usize];
        Ok(())
    }

    /// `JMP nnn`.
    fn op_1nnn(&mut self)
        ensures
            final(self)@ == set_pc(old(self)@, op_nnn(old(self).opcode)),
    {
        self.pc = self.opcode & 0x0FFF;
    }

    /// `CALL nnn`: pushes `pc` and jumps.
    fn op_2nnn(&mut self) -> (r: Result<(), Fault>)
        requires
            old(self).wf(),
        ensures
            final(self).wf(),
            outcome(old(self)@, final(self)@, r, spec_call(old(self)@)),
    {
        if self.sp >= 16 {
            return Err(Fault::StackOverflow);
        }
        self.stack[self.sp as usize] = self.pc;
        self.sp += 1;
        self.pc = self.opcode & 0x0FFF;
        Ok(())
    }

    /// `SE Vx, nn`.
    fn op_3xnn(&mut self)
        requires
            old(self).pc <= 0x1000,
        ensures
            final(self)@ == skip_if(old(self)@, reg(old(self)@, op_x(old(self).opcode)) == op_nn(old(self).opcode)),
    {
        let x = field_x(self.opcode);
        let nn: u8 = (self.opcode & 0x00FF) as u8;
        if self.registers[x] == nn {
            self.pc += 2;
        }
    }

    /// `SNE Vx, nn`.
    fn op_4xnn(&mut self)
        requires
            old(self).pc <= 0x1000,
        ensures
            final(self)@ == skip_if(old(self)@, reg(old(self)@, op_x(old(self).opcode)) != op_nn(old(self).opcode)),
    {
        let x = field_x(self.opcode);
        let nn: u8 = (self.opcode & 0x00FF) as u8;
        if self.registers[x] != nn {
            self.pc += 2;
        }
    }

    /// `SE Vx, Vy`.
    fn op_5xy0(&mut self)
        requires
            old(self).pc <= 0x1000,
        ensures
            final(self)@ == skip_if(old(self)@, reg(old(self)@, op_x(old(self).opcode)) == reg(old(self)@, op_y(old(self).opcode))),
    {
        let x = field_x(self.opcode);
        let y = field_y(self.opcode);
        if self.registers[x] == self.registers[y] {
            self.pc += 2;
        }
    }

    /// `LD Vx, nn`.
    fn op_6xnn(&mut self)
        ensures
            final(self)@ == set_regs(old(self)@, old(self).registers@.update(op_x(old(self).opcode) as int, op_nn(old(self).opcode))),
    {
        let x = field_x(self.opcode);
        let nn: u8 = (self.opcode & 0x00FF) as u8;
        self.registers[x] = nn;
    }

    /// `ADD Vx, nn`, modulo 256, flags untouched.
    fn op_7xnn(&mut self)
        ensures
            final(self)@ == set_regs(old(self)@, old(self).registers@.update(
                op_x(old(self).opcode) as int,
                ((reg(old(self)@, op_x(old(self).opcode)) + op_nn(old(self).opcode)) % 256) as u8,
            )),
    {
        let x = field_x(self.opcode);
        let nn: u8 = (self.opcode & 0x00FF) as u8;
        self.registers[x] = self.registers[x].wrapping_add(nn);
    }

    /// `LD Vx, Vy`.
    fn op_8xy0(&mut self)
        ensures
            final(self)@ == set_regs(old(self)@, old(self).registers@.update(
                op_x(old(self).opcode) as int, reg(old(self)@, op_y(old(self).opcode)))),
    {
        let x = field_x(self.opcode);
        let y = field_y(self.opcode);
        self.registers[x] = self.registers[y];
    }

    /// `OR Vx, Vy`.
    fn op_8xy1(&mut self)
        ensures
            final(self)@ == set_regs(old(self)@, old(self).registers@.update(
                op_x(old(self).opcode) as int,
                reg(old(self)@, op_x(old(self).opcode)) | reg(old(self)@, op_y(old(self).opcode)))),
    {
        let x = field_x(self.opcode);
        let y = field_y(self.opcode);
        self.registers[x] = self.registers[x] | self.registers[y];
    }

    /// `AND Vx, Vy`.
    fn op_8xy2(&mut self)
        ensures
            final(self)@ == set_regs(old(self)@, old(self).registers@.update(
                op_x(old(self).opcode) as int,
                reg(old(self)@, op_x(old(self).opcode)) & reg(old(self)@, op_y(old(self).opcode)))),
    {
        let x = field_x(self.opcode);
        let y = field_y(self.opcode);
        self.registers[x] = self.registers[x] & self.registers[y];
    }

    /// `XOR Vx, Vy`.
    fn op_8xy3(&mut self)
        ensures
            final(self)@ == set_regs(old(self)@, old(self).registers@.update(
                op_x(old(self).opcode) as int,
                reg(old(self)@, op_x(old(self).opcode)) ^ reg(old(self)@, op_y(old(self).opcode)))),
    {
        let x = field_x(self.opcode);
        let y = field_y(self.opcode);
        self.registers[x] = self.registers[x] ^ self.registers[y];
    }

    /// `ADD Vx, Vy`: VF = 1 on carry.
    fn op_8xy4(&mut self)
        ensures
            final(self)@ == spec_add_carry(old(self)@),
    {
        let x = field_x(self.opcode);
        let y = field_y(self.opcode);
        let a = self.registers[x];
        let b = self.registers[y];
        let carry = a as u16 + b as u16 > 255;
        self.registers[0xF] = if carry { 1 } else { 0 };
        self.registers[x] = a.wrapping_add(b);
    }

    /// `SUB Vx, Vy`: VF = 1 when no borrow.
    fn op_8xy5(&mut self)
        ensures
            final(self)@ == spec_sub_into_x(old(self)@, reg(old(self)@, op_x(old(self).opcode)),
                reg(old(self)@, op_y(old(self).opcode))),
    {
        let x = field_x(self.opcode);
        let y = field_y(self.opcode);
        let a = self.registers[x];
        let b = self.registers[y];
        self.registers[0xF] = if a >= b { 1 } else { 0 };
        self.registers[x] = a.wrapping_sub(b);
    }

    /// `SHR Vx`: VF = low bit, then Vx halves; Vy is not read.
    fn op_8xy6(&mut self)
        ensures
            final(self)@ == spec_shr(old(self)@),
    {
        let x = field_x(self.opcode);
        self.registers[0xF] = self.registers[x] % 2;
        self.registers[x] = self.registers[x] / 2;
    }

    /// `SUBN Vx, Vy`: Vx = Vy - Vx, VF = 1 when no borrow.
    fn op_8xy7(&mut self)
        ensures
            final(self)@ == spec_sub_into_x(old(self)@, reg(old(self)@, op_y(old(self).opcode)),
                reg(old(self)@, op_x(old(self).opcode))),
    {
        let x = field_x(self.opcode);
        let y = field_y(self.opcode);
        let a = self.registers[y];
        let b = self.registers[x];
        self.registers[0xF] = if a >= b { 1 } else { 0 };
        self.registers[x] = a.wrapping_sub(b);
    }

    /// `SHL Vx`: VF = high bit, then Vx doubles modulo 256; Vy is not read.
    fn op_8xye(&mut self)
        ensures
            final(self)@ == spec_shl(old(self)@),
    {
        let x = field_x(self.opcode);
        self.registers[0xF] = self.registers[x] / 128;
        self.registers[x] = self.registers[x].wrapping_mul(2);
    }

    /// `SNE Vx, Vy`.
    fn op_9xy0(&mut self)
        requires
            old(self).pc <= 0x1000,
        ensures
            final(self)@ == skip_if(old(self)@, reg(old(self)@, op_x(old(self).opcode)) != reg(old(self)@, op_y(old(self).opcode))),
    {
        let x = field_x(self.opcode);
        let y = field_y(self.opcode);
        if self.registers[x] != self.registers[y] {
            self.pc += 2;
        }
    }

    /// `LD I, nnn`.
    fn op_annn(&mut self)
        ensures
            final(self)@ == (MachineView { i: op_nnn(old(self).opcode), ..old(self)@ }),
    {
        self.i = self.opcode & 0x0FFF;
    }

    /// `JMP V0, nnn`.
    fn op_bnnn(&mut self)
        ensures
            final(self)@ == set_pc(old(self)@, (reg(old(self)@, 0) + op_nnn(old(self).opcode)) as u16),
    {
        let w = self.opcode;
        let nnn = w & 0x0FFF;
        proof {
            assert(w & 0x0FFF <= 0x0FFF) by (bit_vector);
        }
        self.pc = self.registers[0] as u16 + nnn;
    }

    /// `RND Vx, nn`: Vx = `rnd` AND nn.
    fn op_cxnn(&mut self, rnd: u8)
        ensures
            final(self)@ == set_regs(old(self)@, old(self).registers@.update(
                op_x(old(self).opcode) as int, rnd & op_nn(old(self).opcode))),
    {
        let x = field_x(self.opcode);
        let nn: u8 = (self.opcode & 0x00FF) as u8;
        self.registers[x] = rnd & nn;
    }

    /// `DRW Vx, Vy, n`.
    #[verifier::rlimit(100)]
    fn op_dxyn(&mut self) -> (r: Result<(), Fault>)
        ensures
            outcome(old(self)@, final(self)@, r, spec_draw(old(self)@)),
            final(self).sp == old(self).sp,
    {
        let w = self.opcode;
        let x = field_x(w);
        let y = field_y(w);
        proof {
            assert(w & 0x000F < 16) by (bit_vector);
        }
        let n: usize = (w & 0x000F) as usize;
        let base = self.i as usize;
        if n > 0 && base + n > 0x1000 {
            return Err(Fault::AddressFault);
        }
        let x0: usize = (self.registers[x] % 64) as usize;
        let y0: usize = (self.registers[y] % 32) as usize;
        let ghost m0 = self@;
        let mut collision = false;
        let mut row: usize = 0;
        while row < n
            invariant
                m0 == old(self)@,
                n == op_n(m0.opcode),
                n < 16,
                base == m0.i,
                n == 0 || base + n <= 0x1000,
                x0 == reg(m0, op_x(m0.opcode)) % 64,
                y0 == reg(m0, op_y(m0.opcode)) % 32,
                row <= n,
                self@ == (MachineView { video: self.video@, ..m0 }),
                forall|p: int|
                    0 <= p < 2048 ==> self.video@[p] == (m0.video[p] != painted(
                        m0,
                        x0 as int,
                        y0 as int,
                        n as int,
                        row as int,
                        0,
                        p,
                    )),
                collision == exists|p: int|
                    0 <= p < 2048 && #[trigger] painted(
                        m0,
                        x0 as int,
                        y0 as int,
                        n as int,
                        row as int,
                        0,
                        p,
                    ) && m0.video[p],
            decreases n - row,
        {
            let sprite_byte = self.ram[base + row];
            let cy = (y0 + row) % 32;
            let mut col: usize = 0;
            while col < 8
                invariant
                    m0 == old(self)@,
                    n == op_n(m0.opcode),
                    n < 16,
                    base == m0.i,
                    base + n <= 0x1000,
                    x0 < 64,
                    y0 < 32,
                    row < n,
                    col <= 8,
                    cy == (y0 + row) % 32,
                    sprite_byte == m0.ram[base + row],
                    self@ == (MachineView { video: self.video@, ..m0 }),
                    forall|p: int|
                        0 <= p < 2048 ==> self.video@[p] == (m0.video[p] != painted(
                            m0,
                            x0 as int,
                            y0 as int,
                            n as int,
                            row as int,
                            col as int,
                            p,
                        )),
                    collision == exists|p: int|
                        0 <= p < 2048 && #[trigger] painted(
                            m0,
                            x0 as int,
                            y0 as int,
                            n as int,
                            row as int,
                            col as int,
                            p,
                        ) && m0.video[p],
                decreases 8 - col,
            {
                let cx = (x0 + col) % 64;
                let idx = cy * 64 + cx;
                proof {
                    lemma_cell_of(x0 as int, y0 as int, row as int, col as int, cx as int, cy as int, idx as int);
                }
                let bit = sprite_byte & (0x80u8 >> col as u8) != 0;
                assert(bit == hits(m0, x0 as int, y0 as int, n as int, idx as int));
                if bit {
                    if self.video[idx] {
                        collision = true;
                    }
                    self.video[idx] = !self.video[idx];
                }
                col += 1;
                proof {
                    let (xi, yi, ni, ri, ci) = (x0 as int, y0 as int, n as int, row as int, col as int);
                    assert forall|p: int| 0 <= p < 2048 implies #[trigger] painted(m0, xi, yi, ni, ri, ci, p)
                        == (painted(m0, xi, yi, ni, ri, ci - 1, p) || (p == idx && bit)) by {
                        if sprite_row(yi, p / 64) == ri && sprite_col(xi, p % 64) == ci - 1 {
                            assert(p == idx);
                        }
                    }
                    if collision {
                        if exists|p: int| 0 <= p < 2048 && #[trigger] painted(m0, xi, yi, ni, ri, ci - 1, p) && m0.video[p] {
                            let q = choose|p: int| 0 <= p < 2048 && #[trigger] painted(m0, xi, yi, ni, ri, ci - 1, p) && m0.video[p];
                            assert(painted(m0, xi, yi, ni, ri, ci, q));
                        } else {
                            assert(painted(m0, xi, yi, ni, ri, ci, idx as int) && m0.video[idx as int]);
                        }
                    } else {
                        assert forall|p: int| 0 <= p < 2048 && #[trigger] painted(m0, xi, yi, ni, ri, ci, p)
                            implies !m0.video[p] by {
                            if p != idx {
                                assert(painted(m0, xi, yi, ni, ri, ci - 1, p));
                            }
                        }
                    }
                }
            }
            row += 1;
            proof {
                let (xi, yi, ni, ri) = (x0 as int, y0 as int, n as int, row as int);
                assert forall|p: int| 0 <= p < 2048 implies #[trigger] painted(m0, xi, yi, ni, ri, 0, p)
                    == painted(m0, xi, yi, ni, ri - 1, 8, p) by {}
                if collision {
                    let p = choose|p: int| 0 <= p < 2048 && #[trigger] painted(m0, xi, yi, ni, ri - 1, 8, p) && m0.video[p];
                    assert(painted(m0, xi, yi, ni, ri, 0, p));
                }
            }
        }
        self.registers[15] = if collision { 1 } else { 0 };
        proof {
            let (xi, yi, ni) = (x0 as int, y0 as int, n as int);
            assert forall|p: int| 0 <= p < 2048 implies #[trigger] painted(m0, xi, yi, ni, ni, 0, p)
                == hits(m0, xi, yi, ni, p) by {}
            assert(self.video@ =~= crate::model::drawn_video(m0, xi, yi, ni));
            if collision {
                let p = choose|p: int| 0 <= p < 2048 && #[trigger] painted(m0, xi, yi, ni, ni, 0, p) && m0.video[p];
                assert(hits(m0, xi, yi, ni, p));
            } else {
                assert(!crate::model::collides(m0, xi, yi, ni));
            }
        }
        Ok(())
    }

    /// `SKP Vx`: skips when the key named by Vx is down.
    fn op_ex9e(&mut self)
        requires
            old(self).pc <= 0x1000,
        ensures
            final(self)@ == skip_if(old(self)@, key_down(old(self)@, reg(old(self)@, op_x(old(self).opcode)))),
    {
        let x = field_x(self.opcode);
        let k = self.registers[x] as usize;
        if k < 16 && self.keypad[k] > 0 {
            self.pc += 2;
        }
    }

    /// `SKNP Vx`: skips when the key named by Vx is up.
    fn op_exa1(&mut self)
        requires
            old(self).pc <= 0x1000,
        ensures
            final(self)@ == skip_if(old(self)@, !key_down(old(self)@, reg(old(self)@, op_x(old(self).opcode)))),
    {
        let x = field_x(self.opcode);
        let k = self.registers[x] as usize;
        if !(k < 16 && self.keypad[k] > 0) {
            self.pc += 2;
        }
    }

    /// `LD Vx, DT`.
    fn op_fx07(&mut self)
        ensures
            final(self)@ == set_regs(old(self)@, old(self).registers@.update(op_x(old(self).opcode) as int, old(self).dt)),
    {
        let x = field_x(self.opcode);
        self.registers[x] = self.dt;
    }

    /// `LD Vx, KEY`: when key x is down, Vx = x; else `pc` steps back so the
    /// instruction runs again on the next step.
    fn op_fx0a(&mut self)
        requires
            old(self).pc >= 2,
        ensures
            final(self)@ == spec_wait_key(old(self)@),
    {
        let x = field_x(self.opcode);
        if self.keypad[x] > 0 {
            self.registers[x] = x as u8;
        } else {
            self.pc -= 2;
        }
    }

    /// `LD DT, Vx`.
    fn op_fx15(&mut self)
        ensures
            final(self)@ == (MachineView { dt: reg(old(self)@, op_x(old(self).opcode)), ..old(self)@ }),
    {
        let x = field_x(self.opcode);
        self.dt = self.registers[x];
    }

    /// `LD ST, Vx`.
    fn op_fx18(&mut self)
        ensures
            final(self)@ == (MachineView { st: reg(old(self)@, op_x(old(self).opcode)), ..old(self)@ }),
    {
        let x = field_x(self.opcode);
        self.st = self.registers[x];
    }

    /// `ADD I, Vx`, modulo 65536.
    fn op_fx1e(&mut self)
        ensures
            final(self)@ == (MachineView {
                i: ((old(self).i + reg(old(self)@, op_x(old(self).opcode))) % 65536) as u16,
                ..old(self)@
            }),
    {
        let x = field_x(self.opcode);
        self.i = self.i.wrapping_add(self.registers[x] as u16);
    }

    /// `LD I, FONT(Vx)`: I = address of the glyph of Vx.
    fn op_fx29(&mut self)
        ensures
            final(self)@ == (MachineView { i: (reg(old(self)@, op_x(old(self).opcode)) * 5) as u16, ..old(self)@ }),
    {
        let x = field_x(self.opcode);
        self.i = self.registers[x] as u16 * 5;
    }

    /// `BCD Vx`: hundreds, tens and ones of Vx at I, I+1, I+2.
    fn op_fx33(&mut self) -> (r: Result<(), Fault>)
        ensures
            outcome(old(self)@, final(self)@, r, spec_bcd(old(self)@)),
            final(self).sp == old(self).sp,
    {
        let x = field_x(self.opcode);
        let v: u8 = self.registers[x];
        let a = self.i as usize;
        if a + 2 > 0xFFF {
            return Err(Fault::AddressFault);
        }
        self.ram[a] = v / 100;
        self.ram[a + 1] = (v / 10) % 10;
        self.ram[a + 2] = v % 10;
        Ok(())
    }

    /// `LD [I], Vx`: V0..Vx into memory from I; I is kept.
    fn op_fx55(&mut self) -> (r: Result<(), Fault>)
        ensures
            outcome(old(self)@, final(self)@, r, spec_store(old(self)@)),
            final(self).sp == old(self).sp,
    {
        let x = field_x(self.opcode);
        let a = self.i as usize;
        if a + x > 0xFFF {
            return Err(Fault::AddressFault);
        }
        let mut k: usize = 0;
        while k <= x
            invariant
                x < 16,
                a + x <= 0xFFF,
                a == old(self).i,
                k <= x + 1,
                self@ == (MachineView { ram: self.ram@, ..old(self)@ }),
                forall|b: int|
                    0 <= b < 4096 ==> self.ram@[b] == if a <= b < a + k {
                        old(self).registers@[b - a]
                    } else {
                        old(self).ram@[b]
                    },
            decreases x + 1 - k,
        {
            self.ram[a + k] = self.registers[k];
            k += 1;
        }
        assert(self.ram@ =~= spec_store(old(self)@).unwrap().ram);
        Ok(())
    }

    /// `LD Vx, [I]`: memory from I into V0..Vx; I advances by x + 1.
    fn op_fx65(&mut self) -> (r: Result<(), Fault>)
        ensures
            outcome(old(self)@, final(self)@, r, spec_load(old(self)@)),
            final(self).sp == old(self).sp,
    {
        let x = field_x(self.opcode);
        let a = self.i as usize;
        if a + x > 0xFFF {
            return Err(Fault::AddressFault);
        }
        let mut k: usize = 0;
        while k <= x
            invariant
                x < 16,
                a + x <= 0xFFF,
                a == old(self).i,
                k <= x + 1,
                self@ == (MachineView { registers: self.registers@, ..old(self)@ }),
                forall|b: int|
                    0 <= b < 16 ==> self.registers@[b] == if b < k {
                        old(self).ram@[a + b]
                    } else {
                        old(self).registers@[b]
                    },
            decreases x + 1 - k,
        {
            self.registers[k] = self.ram[a + k];
            k += 1;
        }
        assert(self.registers@ =~= spec_load(old(self)@).unwrap().registers);
        self.i = self.i.wrapping_add(x as u16 + 1);
        Ok(())
    }
}

} // verus!
