use vstd::prelude::*;
use crate::model::{
    hits, op_kind, op_n, op_x, op_y, reg, spec_draw, spec_load, spec_store, step,
    word_at, Fault, MachineView,
};

verus! {

proof fn lemma_fields_small(w: u16)
    ensures
        op_x(w) < 16,
        op_y(w) < 16,
        op_n(w) < 16,
{
    assert((w & 0x0F00) >> 8u16 < 16) by (bit_vector);
    assert((w & 0x00F0) >> 4u16 < 16) by (bit_vector);
    assert(w & 0x000F < 16) by (bit_vector);
}

/// Whether the instruction in `w` may move `pc` other than past itself:
/// returns, jumps, calls, skips and the key wait.
pub open spec fn moves_pc(w: u16) -> bool {
    let k = op_kind(w);
    k == 0 || k == 1 || k == 2 || k == 3 || k == 4 || k == 5 || k == 9 || k == 0xB || k == 0xE
        || (k == 0xF && op_y(w) == 0 && op_n(w) == 0xA)
}

/// Whether `w` is a conditional skip.
pub open spec fn is_skip(w: u16) -> bool {
    let k = op_kind(w);
    k == 3 || k == 4 || k == 5 || k == 9 || k == 0xE
}

/// Every step that succeeds first moves `pc` past the fetched word: an
/// instruction that does not move `pc` itself leaves it 2 further on, and a
/// skip leaves it 2 or 4 further on.
pub proof fn lemma_step_advances_pc(m: MachineView, rnd: u8)
    requires
        m.registers.len() == 16,
        step(m, rnd) is Ok,
    ensures
        m.pc <= 0xFFE,
        !moves_pc(word_at(m.ram, m.pc as int)) ==> step(m, rnd)->Ok_0.pc == m.pc + 2,
        is_skip(word_at(m.ram, m.pc as int)) ==> (step(m, rnd)->Ok_0.pc == m.pc + 2
            || step(m, rnd)->Ok_0.pc == m.pc + 4),
{
}

/// Clearing the screen leaves every one of the 2048 cells dark, whatever was lit.
pub proof fn lemma_clear_blanks_display(m: MachineView, rnd: u8)
    requires
        m.pc <= 0xFFE,
        word_at(m.ram, m.pc as int) == 0x00E0,
    ensures
        step(m, rnd) is Ok,
        forall|p: int| 0 <= p < 2048 ==> !step(m, rnd)->Ok_0.video[p],
{
    let w = word_at(m.ram, m.pc as int);
    assert(w == 0x00E0 ==> (w & 0xF000) >> 12u16 == 0 && (w & 0x0F00) >> 8u16 == 0 && (w & 0x00F0)
        >> 4u16 == 0xE && w & 0x000F == 0) by (bit_vector);
}

/// A draw sets VF to 1 exactly when some cell goes from lit to dark.
pub proof fn lemma_draw_flag_is_collision(m: MachineView)
    requires
        m.registers.len() == 16,
        m.video.len() == 2048,
        spec_draw(m) is Ok,
    ensures
        (spec_draw(m)->Ok_0.registers[15] == 1) <==> (exists|p: int|
            0 <= p < 2048 && m.video[p] && !(#[trigger] spec_draw(m)->Ok_0.video[p])),
{
    let m2 = spec_draw(m)->Ok_0;
    let x0 = (reg(m, op_x(m.opcode)) % 64) as int;
    let y0 = (reg(m, op_y(m.opcode)) % 32) as int;
    let n = op_n(m.opcode) as int;
    if m2.registers[15] == 1 {
        let p = choose|p: int| 0 <= p < 2048 && #[trigger] hits(m, x0, y0, n, p) && m.video[p];
        assert(m.video[p] && !m2.video[p]);
    }
    if exists|p: int| 0 <= p < 2048 && m.video[p] && !(#[trigger] m2.video[p]) {
        let p = choose|p: int| 0 <= p < 2048 && m.video[p] && !(#[trigger] m2.video[p]);
        assert(hits(m, x0, y0, n, p));
    }
}

/// Drawing the same sprite twice at the same place restores the display, and
/// the second draw reports a collision exactly when the first lit some cell.
/// The place is the same only when neither coordinate register is VF, which
/// the first draw overwrites.
#[verifier::rlimit(60)]
pub proof fn lemma_draw_twice_restores(m: MachineView)
    requires
        m.registers.len() == 16,
        m.video.len() == 2048,
        op_x(m.opcode) != 15,
        op_y(m.opcode) != 15,
        spec_draw(m) is Ok,
    ensures
        spec_draw(spec_draw(m)->Ok_0) is Ok,
        spec_draw(spec_draw(m)->Ok_0)->Ok_0.video == m.video,
        (spec_draw(spec_draw(m)->Ok_0)->Ok_0.registers[15] == 1) <==> (exists|p: int|
            0 <= p < 2048 && !m.video[p] && #[trigger] spec_draw(m)->Ok_0.video[p]),
{
    let m1 = spec_draw(m)->Ok_0;
    let m2 = spec_draw(m1)->Ok_0;
    let x0 = (reg(m, op_x(m.opcode)) % 64) as int;
    let y0 = (reg(m, op_y(m.opcode)) % 32) as int;
    let n = op_n(m.opcode) as int;
    lemma_fields_small(m.opcode);
    assert(reg(m1, op_x(m.opcode)) == reg(m, op_x(m.opcode)));
    assert(reg(m1, op_y(m.opcode)) == reg(m, op_y(m.opcode)));
    assert(m1.ram == m.ram && m1.i == m.i && m1.opcode == m.opcode);
    assert forall|p: int| 0 <= p < 2048 implies #[trigger] hits(m1, x0, y0, n, p) == hits(m, x0, y0, n, p) by {}
    assert forall|p: int| 0 <= p < 2048 implies #[trigger] m2.video[p] == m.video[p] by {
        assert(m1.video[p] == (m.video[p] != hits(m, x0, y0, n, p)));
        assert(m2.video[p] == (m1.video[p] != hits(m1, x0, y0, n, p)));
    }
    assert(m2.video =~= m.video);
    if m2.registers[15] == 1 {
        let p = choose|p: int| 0 <= p < 2048 && #[trigger] hits(m1, x0, y0, n, p) && m1.video[p];
        assert(!m.video[p] && m1.video[p]);
    }
    if exists|p: int| 0 <= p < 2048 && !m.video[p] && #[trigger] m1.video[p] {
        let p = choose|p: int| 0 <= p < 2048 && !m.video[p] && #[trigger] m1.video[p];
        assert(hits(m1, x0, y0, n, p) && m1.video[p]);
    }
}

/// Storing V0..Vx at I and then loading V0..Vx from I gives back the
/// registers; the store keeps I and the load moves it on by x + 1.
pub proof fn lemma_store_then_load(m: MachineView)
    requires
        m.registers.len() == 16,
        m.ram.len() == 4096,
        spec_store(m) is Ok,
    ensures
        spec_store(m)->Ok_0.i == m.i,
        spec_load(spec_store(m)->Ok_0) is Ok,
        spec_load(spec_store(m)->Ok_0)->Ok_0.registers == m.registers,
        spec_load(spec_store(m)->Ok_0)->Ok_0.i == m.i + op_x(m.opcode) + 1,
{
    let m1 = spec_store(m)->Ok_0;
    let m2 = spec_load(m1)->Ok_0;
    assert(m2.registers =~= m.registers);
}

/// While key x is up, a step on `LD Vx, KEY` leaves `pc` where it was, and the
/// machine then steps to itself again; once key x is down, the step moves `pc`
/// past the instruction.
pub proof fn lemma_wait_key(m: MachineView, rnd: u8)
    requires
        m.pc <= 0xFFE,
        m.ram.len() == 4096,
        op_kind(word_at(m.ram, m.pc as int)) == 0xF,
        op_y(word_at(m.ram, m.pc as int)) == 0,
        op_n(word_at(m.ram, m.pc as int)) == 0xA,
    ensures
        step(m, rnd) is Ok,
        m.keypad[op_x(word_at(m.ram, m.pc as int)) as int] == 0 ==> step(m, rnd)->Ok_0.pc == m.pc
            && step(step(m, rnd)->Ok_0, rnd) == step(m, rnd),
        m.keypad[op_x(word_at(m.ram, m.pc as int)) as int] > 0 ==> step(m, rnd)->Ok_0.pc == m.pc
            + 2,
{
    let m2 = step(m, rnd)->Ok_0;
    assert(m2.ram == m.ram);
}

/// A word with leading digit 5 or 9 and a non-zero last digit names no
/// instruction: the step faults with that word.
pub proof fn lemma_unknown_word_faults(m: MachineView, rnd: u8)
    requires
        m.pc <= 0xFFE,
        op_kind(word_at(m.ram, m.pc as int)) == 5 || op_kind(word_at(m.ram, m.pc as int)) == 9,
        op_n(word_at(m.ram, m.pc as int)) != 0,
    ensures
        step(m, rnd) == Err::<MachineView, Fault>(Fault::IllegalOpcode(word_at(m.ram, m.pc as int))),
{
}

} // verus!
