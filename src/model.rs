use vstd::prelude::*;

verus! {

/// Width of the display in pixels.
pub const DISP_WIDTH: usize = 64;

/// Height of the display in pixels.
pub const DISP_HEIGHT: usize = 32;

/// First address of a loaded program.
pub const START_ADDR: usize = 0x200;

/// Largest program that fits between `START_ADDR` and the end of memory.
pub const MAX_ROM_LEN: usize = 3584;

/// Why a step or a load did not happen. A fault leaves the machine as it was.
#[derive(Clone, Copy, Debug, PartialEq, Eq, Structural)]
pub enum Fault {
    /// The fetched word matches no instruction.
    IllegalOpcode(u16),
    /// The program counter, or an address an instruction needs, lies past 0xFFF.
    AddressFault,
    /// A call with all sixteen stack slots in use.
    StackOverflow,
    /// A return with an empty stack.
    StackUnderflow,
    /// A program longer than the memory above `START_ADDR`.
    RomTooLarge,
}

/// The abstract state of a machine: every array seen as a sequence.
pub struct MachineView {
    pub ram: Seq<u8>,
    pub registers: Seq<u8>,
    pub stack: Seq<u16>,
    pub video: Seq<bool>,
    pub keypad: Seq<u8>,
    pub sp: u8,
    pub pc: u16,
    pub i: u16,
    pub st: u8,
    pub dt: u8,
    pub opcode: u16,
}

/// The built-in hexadecimal glyphs, five bytes each, for digits 0 to F.
pub open spec fn font_glyphs() -> Seq<u8> {
    seq![
        0xF0u8, 0x90, 0x90, 0x90, 0xF0, 0x20, 0x60, 0x20, 0x20, 0x70,
        0xF0, 0x10, 0xF0, 0x80, 0xF0, 0xF0, 0x10, 0xF0, 0x10, 0xF0,
        0x90, 0x90, 0xF0, 0x10, 0x10, 0xF0, 0x80, 0xF0, 0x10, 0xF0,
        0xF0, 0x80, 0xF0, 0x90, 0xF0, 0xF0, 0x10, 0x20, 0x40, 0x40,
        0xF0, 0x90, 0xF0, 0x90, 0xF0, 0xF0, 0x90, 0xF0, 0x10, 0xF0,
        0xF0, 0x90, 0xF0, 0x90, 0x90, 0xE0, 0x90, 0xE0, 0x90, 0xE0,
        0xF0, 0x80, 0x80, 0x80, 0xF0, 0xE0, 0x90, 0x90, 0x90, 0xE0,
        0xF0, 0x80, 0xF0, 0x80, 0xF0, 0xF0, 0x80, 0xF0, 0x80, 0x80,
    ]
}

// ---- fields of an instruction word ----

pub open spec fn op_kind(w: u16) -> u16 {
    (w & 0xF000) >> 12u16
}

pub open spec fn op_x(w: u16) -> u16 {
    (w & 0x0F00) >> 8u16
}

pub open spec fn op_y(w: u16) -> u16 {
    (w & 0x00F0) >> 4u16
}

pub open spec fn op_n(w: u16) -> u16 {
    w & 0x000F
}

pub open spec fn op_nn(w: u16) -> u8 {
    (w & 0x00FF) as u8
}

pub open spec fn op_nnn(w: u16) -> u16 {
    w & 0x0FFF
}

/// The big-endian word stored at `pc` and `pc + 1`.
pub open spec fn word_at(ram: Seq<u8>, pc: int) -> u16 {
    ((ram[pc] as u16) << 8u16) | (ram[pc + 1] as u16)
}

// ---- effects of single instructions; `m.pc` already points past the word ----

pub open spec fn reg(m: MachineView, k: u16) -> u8 {
    m.registers[k as int]
}

pub open spec fn set_regs(m: MachineView, regs: Seq<u8>) -> MachineView {
    MachineView { registers: regs, ..m }
}

pub open spec fn set_pc(m: MachineView, pc: u16) -> MachineView {
    MachineView { pc: pc, ..m }
}

/// Skips the next instruction when `cond` holds.
pub open spec fn skip_if(m: MachineView, cond: bool) -> MachineView {
    if cond {
        set_pc(m, (m.pc + 2) as u16)
    } else {
        m
    }
}

/// Whether key `k` is down; a value past the keypad names no key, so it is never down.
pub open spec fn key_down(m: MachineView, k: u8) -> bool {
    k < 16 && m.keypad[k as int] > 0
}

pub open spec fn blank_video() -> Seq<bool> {
    Seq::new(2048, |p: int| false)
}

pub open spec fn spec_cls(m: MachineView) -> MachineView {
    MachineView { video: blank_video(), ..m }
}

pub open spec fn spec_ret(m: MachineView) -> Result<MachineView, Fault> {
    if m.sp == 0 {
        Err(Fault::StackUnderflow)
    } else {
        Ok(MachineView { sp: (m.sp - 1) as u8, pc: m.stack[m.sp - 1], ..m })
    }
}

pub open spec fn spec_call(m: MachineView) -> Result<MachineView, Fault> {
    if m.sp >= 16 {
        Err(Fault::StackOverflow)
    } else {
        Ok(
            MachineView {
                stack: m.stack.update(m.sp as int, m.pc),
                sp: (m.sp + 1) as u8,
                pc: op_nnn(m.opcode),
                ..m
            },
        )
    }
}

/// Sum of two registers modulo 256, with the carry in VF (set before Vx).
pub open spec fn spec_add_carry(m: MachineView) -> MachineView {
    let (x, y) = (op_x(m.opcode), op_y(m.opcode));
    let s = reg(m, x) + reg(m, y);
    set_regs(
        m,
        m.registers.update(15, if s > 255 { 1u8 } else { 0u8 }).update(x as int, (s % 256) as u8),
    )
}

/// `a - b` modulo 256 into Vx, with VF = 1 when no borrow occurred (set before Vx).
pub open spec fn spec_sub_into_x(m: MachineView, a: u8, b: u8) -> MachineView {
    let x = op_x(m.opcode);
    set_regs(
        m,
        m.registers.update(15, if a >= b { 1u8 } else { 0u8 }).update(
            x as int,
            ((a - b + 256) % 256) as u8,
        ),
    )
}

pub open spec fn spec_shr(m: MachineView) -> MachineView {
    let x = op_x(m.opcode);
    let r1 = m.registers.update(15, reg(m, x) % 2);
    set_regs(m, r1.update(x as int, r1[x as int] / 2))
}

pub open spec fn spec_shl(m: MachineView) -> MachineView {
    let x = op_x(m.opcode);
    let r1 = m.registers.update(15, reg(m, x) / 128);
    set_regs(m, r1.update(x as int, ((r1[x as int] * 2) % 256) as u8))
}

pub open spec fn spec_wait_key(m: MachineView) -> MachineView {
    let x = op_x(m.opcode);
    if m.keypad[x as int] > 0 {
        set_regs(m, m.registers.update(x as int, x as u8))
    } else {
        set_pc(m, (m.pc - 2) as u16)
    }
}

pub open spec fn spec_bcd(m: MachineView) -> Result<MachineView, Fault> {
    let v = reg(m, op_x(m.opcode));
    let a = m.i as int;
    if a + 2 > 0xFFF {
        Err(Fault::AddressFault)
    } else {
        Ok(
            MachineView {
                ram: m.ram.update(a, v / 100).update(a + 1, (v / 10) % 10).update(a + 2, v % 10),
                ..m
            },
        )
    }
}

pub open spec fn spec_store(m: MachineView) -> Result<MachineView, Fault> {
    let x = op_x(m.opcode) as int;
    let a = m.i as int;
    if a + x > 0xFFF {
        Err(Fault::AddressFault)
    } else {
        Ok(
            MachineView {
                ram: Seq::new(
                    4096,
                    |k: int|
                        if a <= k <= a + x {
                            m.registers[k - a]
                        } else {
                            m.ram[k]
                        },
                ),
                ..m
            },
        )
    }
}

pub open spec fn spec_load(m: MachineView) -> Result<MachineView, Fault> {
    let x = op_x(m.opcode) as int;
    let a = m.i as int;
    if a + x > 0xFFF {
        Err(Fault::AddressFault)
    } else {
        Ok(
            MachineView {
                registers: Seq::new(
                    16,
                    |k: int|
                        if k <= x {
                            m.ram[a + k]
                        } else {
                            m.registers[k]
                        },
                ),
                i: (a + x + 1) as u16,
                ..m
            },
        )
    }
}

// ---- sprites ----

/// Sprite row of a display row `py`, for a sprite whose top row is `y0`.
pub open spec fn sprite_row(y0: int, py: int) -> int {
    (py - y0 + 32) % 32
}

/// Sprite column of a display column `px`, for a sprite whose left column is `x0`.
pub open spec fn sprite_col(x0: int, px: int) -> int {
    (px - x0 + 64) % 64
}

/// Whether bit `col` (most significant first) of sprite row `row` is set.
pub open spec fn sprite_bit(m: MachineView, row: int, col: int) -> bool {
    m.ram[m.i + row] & (0x80u8 >> (col as u8)) != 0
}

/// Whether a sprite of `n` rows at (`x0`, `y0`) covers display cell `p` with a set bit.
pub open spec fn hits(m: MachineView, x0: int, y0: int, n: int, p: int) -> bool {
    let r = sprite_row(y0, p / 64);
    let c = sprite_col(x0, p % 64);
    r < n && c < 8 && sprite_bit(m, r, c)
}

/// The display after composing the sprite onto it by exclusive or.
pub open spec fn drawn_video(m: MachineView, x0: int, y0: int, n: int) -> Seq<bool> {
    Seq::new(2048, |p: int| m.video[p] != hits(m, x0, y0, n, p))
}

/// Whether the sprite turns some lit cell off.
pub open spec fn collides(m: MachineView, x0: int, y0: int, n: int) -> bool {
    exists|p: int| 0 <= p < 2048 && #[trigger] hits(m, x0, y0, n, p) && m.video[p]
}

pub open spec fn spec_draw(m: MachineView) -> Result<MachineView, Fault> {
    let x0 = reg(m, op_x(m.opcode)) % 64;
    let y0 = reg(m, op_y(m.opcode)) % 32;
    let n = op_n(m.opcode) as int;
    if n > 0 && m.i + n > 0x1000 {
        Err(Fault::AddressFault)
    } else {
        Ok(
            MachineView {
                video: drawn_video(m, x0 as int, y0 as int, n),
                registers: m.registers.update(
                    15,
                    if collides(m, x0 as int, y0 as int, n) { 1u8 } else { 0u8 },
                ),
                ..m
            },
        )
    }
}

/// What the instruction in `m.opcode` does, once `m.pc` points past it;
/// `rnd` is the random byte offered to the one instruction that uses one.
pub open spec fn execute(m: MachineView, rnd: u8) -> Result<MachineView, Fault> {
    let w = m.opcode;
    let (d1, d2, d3, d4) = (op_kind(w), op_x(w), op_y(w), op_n(w));
    let (x, y, nn, nnn) = (op_x(w), op_y(w), op_nn(w), op_nnn(w));
    if d1 == 0 && d2 == 0 && d3 == 0xE && d4 == 0 {
        Ok(spec_cls(m))
    } else if d1 == 0 && d2 == 0 && d3 == 0xE && d4 == 0xE {
        spec_ret(m)
    } else if d1 == 1 {
        Ok(set_pc(m, nnn))
    } else if d1 == 2 {
        spec_call(m)
    } else if d1 == 3 {
        Ok(skip_if(m, reg(m, x) == nn))
    } else if d1 == 4 {
        Ok(skip_if(m, reg(m, x) != nn))
    } else if d1 == 5 && d4 == 0 {
        Ok(skip_if(m, reg(m, x) == reg(m, y)))
    } else if d1 == 6 {
        Ok(set_regs(m, m.registers.update(x as int, nn)))
    } else if d1 == 7 {
        Ok(set_regs(m, m.registers.update(x as int, ((reg(m, x) + nn) % 256) as u8)))
    } else if d1 == 8 && d4 == 0 {
        Ok(set_regs(m, m.registers.update(x as int, reg(m, y))))
    } else if d1 == 8 && d4 == 1 {
        Ok(set_regs(m, m.registers.update(x as int, reg(m, x) | reg(m, y))))
    } else if d1 == 8 && d4 == 2 {
        Ok(set_regs(m, m.registers.update(x as int, reg(m, x) & reg(m, y))))
    } else if d1 == 8 && d4 == 3 {
        Ok(set_regs(m, m.registers.update(x as int, reg(m, x) ^ reg(m, y))))
    } else if d1 == 8 && d4 == 4 {
        Ok(spec_add_carry(m))
    } else if d1 == 8 && d4 == 5 {
        Ok(spec_sub_into_x(m, reg(m, x), reg(m, y)))
    } else if d1 == 8 && d4 == 6 {
        Ok(spec_shr(m))
    } else if d1 == 8 && d4 == 7 {
        Ok(spec_sub_into_x(m, reg(m, y), reg(m, x)))
    } else if d1 == 8 && d4 == 0xE {
        Ok(spec_shl(m))
    } else if d1 == 9 && d4 == 0 {
        Ok(skip_if(m, reg(m, x) != reg(m, y)))
    } else if d1 == 0xA {
        Ok(MachineView { i: nnn, ..m })
    } else if d1 == 0xB {
        Ok(set_pc(m, (reg(m, 0) + nnn) as u16))
    } else if d1 == 0xC {
        Ok(set_regs(m, m.registers.update(x as int, rnd & nn)))
    } else if d1 == 0xD {
        spec_draw(m)
    } else if d1 == 0xE && d3 == 9 && d4 == 0xE {
        Ok(skip_if(m, key_down(m, reg(m, x))))
    } else if d1 == 0xE && d3 == 0xA && d4 == 1 {
        Ok(skip_if(m, !key_down(m, reg(m, x))))
    } else if d1 == 0xF && d3 == 0 && d4 == 7 {
        Ok(set_regs(m, m.registers.update(x as int, m.dt)))
    } else if d1 == 0xF && d3 == 0 && d4 == 0xA {
        Ok(spec_wait_key(m))
    } else if d1 == 0xF && d3 == 1 && d4 == 5 {
        Ok(MachineView { dt: reg(m, x), ..m })
    } else if d1 == 0xF && d3 == 1 && d4 == 8 {
        Ok(MachineView { st: reg(m, x), ..m })
    } else if d1 == 0xF && d3 == 1 && d4 == 0xE {
        Ok(MachineView { i: ((m.i + reg(m, x)) % 65536) as u16, ..m })
    } else if d1 == 0xF && d3 == 2 && d4 == 9 {
        Ok(MachineView { i: (reg(m, x) * 5) as u16, ..m })
    } else if d1 == 0xF && d3 == 3 && d4 == 3 {
        spec_bcd(m)
    } else if d1 == 0xF && d3 == 5 && d4 == 5 {
        spec_store(m)
    } else if d1 == 0xF && d3 == 6 && d4 == 5 {
        spec_load(m)
    } else {
        Err(Fault::IllegalOpcode(w))
    }
}

/// One fetch-decode-execute step: the word at `pc` is fetched, `pc` moves past
/// it, and the instruction runs. On a fault the machine stays as it was.
pub open spec fn step(m: MachineView, rnd: u8) -> Result<MachineView, Fault> {
    if m.pc > 0xFFE {
        Err(Fault::AddressFault)
    } else {
        execute(MachineView { opcode: word_at(m.ram, m.pc as int), pc: (m.pc + 2) as u16, ..m }, rnd)
    }
}

/// Whether a run of a fallible operation from `before` to `after`, returning `r`,
/// is the one `expected` describes; a fault changes nothing.
pub open spec fn outcome(
    before: MachineView,
    after: MachineView,
    r: Result<(), Fault>,
    expected: Result<MachineView, Fault>,
) -> bool {
    match expected {
        Ok(m) => r == Ok::<(), Fault>(()) && after == m,
        Err(e) => r == Err::<(), Fault>(e) && after == before,
    }
}

} // verus!
