//! Properties of the instruction set that hold for every machine state.
use vstd::prelude::*;
use crate::instr::{Instr, decode_spec, nib1, nib2, nib3, nib4};
use crate::model::{
    CHIP8_MEM, Machine, SCREEN_CELLS, VF, effect, exec_spec, flag, frame_spec, op_spec,
};

verus! {

/// The opcode `8xyd`.
pub open spec fn alu_op(x: u16, y: u16, d: u16) -> u16 {
    0x8000u16 | (x << 8u16) | (y << 4u16) | d
}

proof fn lemma_alu_fields(x: u16, y: u16, d: u16)
    requires
        x < 16,
        y < 16,
        d < 16,
    ensures
        nib1(alu_op(x, y, d)) == 8,
        nib2(alu_op(x, y, d)) == x,
        nib3(alu_op(x, y, d)) == y,
        nib4(alu_op(x, y, d)) == d,
{
    let op = alu_op(x, y, d);
    assert(op >> 12u16 == 8 && (op >> 8u16) & 0xfu16 == x && (op >> 4u16) & 0xfu16 == y && op
        & 0xfu16 == d) by (bit_vector)
        requires
            op == 0x8000u16 | (x << 8u16) | (y << 4u16) | d,
            x < 16,
            y < 16,
            d < 16,
    ;
}

/// `8xy4` adds with carry: `V[F]` is 1 exactly when `V[x] + V[y]` exceeds
/// 255, `V[x]` is the sum modulo 256, and the program moves on by one
/// instruction. (With `x == F` the flag overwrites the sum.)
pub proof fn lemma_add_carry(m: Machine, x: u16, y: u16, rnd: u8)
    requires
        m.wf(),
        m.pc < CHIP8_MEM,
        x < 15,
        y < 16,
    ensures
        op_spec(m, alu_op(x, y, 4), rnd) matches Ok(m2) && {
            let sum = m.v[x as int] + m.v[y as int];
            &&& m2.v[VF as int] == flag(sum > 255)
            &&& m2.v[x as int] == sum % 256
            &&& m2.pc == m.pc + 2
        },
{
    lemma_alu_fields(x, y, 4);
    assert(decode_spec(alu_op(x, y, 4)) == Some(Instr::AddVy(x as u8, y as u8)));
    reveal(effect);
}

/// `8xy6` and `8xyE` shift `V[y]` into `V[x]`: the old `V[x]` (for
/// `x != y`) has no bearing on the outcome. `V[x]` gets `V[y] >> 1` or
/// `V[y] << 1` and `V[F]` the bit shifted out.
pub proof fn lemma_shifts_read_vy(m: Machine, x: u16, y: u16, b: u8, rnd: u8)
    requires
        m.wf(),
        m.pc < CHIP8_MEM,
        x < 15,
        y < 16,
        x != y,
    ensures
        op_spec(m, alu_op(x, y, 6), rnd) == op_spec(m.set_v(x as int, b), alu_op(x, y, 6), rnd),
        op_spec(m, alu_op(x, y, 0xe), rnd) == op_spec(m.set_v(x as int, b), alu_op(x, y, 0xe), rnd),
        op_spec(m, alu_op(x, y, 6), rnd) matches Ok(m2) && m2.v[x as int] == m.v[y as int] / 2
            && m2.v[VF as int] == m.v[y as int] % 2,
        op_spec(m, alu_op(x, y, 0xe), rnd) matches Ok(m2) && m2.v[x as int] == (m.v[y as int] * 2)
            % 256 && m2.v[VF as int] == m.v[y as int] / 128,
{
    lemma_alu_fields(x, y, 6);
    lemma_alu_fields(x, y, 0xe);
    assert(decode_spec(alu_op(x, y, 6)) == Some(Instr::Shr(x as u8, y as u8)));
    assert(decode_spec(alu_op(x, y, 0xe)) == Some(Instr::Shl(x as u8, y as u8)));
    reveal(effect);
    let m1 = m.set_v(x as int, b);
    assert(m1.v.update(x as int, m.v[y as int] / 2) =~= m.v.update(x as int, m.v[y as int] / 2));
    assert(m1.v.update(x as int, ((m.v[y as int] * 2) % 256) as u8) =~= m.v.update(
        x as int,
        ((m.v[y as int] * 2) % 256) as u8,
    ));
}

/// `00E0` leaves every one of the 2048 display cells at 0.
pub proof fn lemma_cls_clears(m: Machine, rnd: u8)
    requires
        m.wf(),
        m.pc < CHIP8_MEM,
    ensures
        op_spec(m, 0x00e0u16, rnd) matches Ok(m2) && m2.wf() && m2.screen.len() == SCREEN_CELLS
            && forall|p: int| 0 <= p < SCREEN_CELLS ==> #[trigger] m2.screen[p] == 0,
{
    let op = 0x00e0u16;
    assert(op >> 12u16 == 0 && (op >> 8u16) & 0xfu16 == 0 && (op >> 4u16) & 0xfu16 == 0xe && op
        & 0xfu16 == 0) by (bit_vector)
        requires
            op == 0x00e0u16,
    ;
    assert(decode_spec(op) == Some(Instr::Cls));
    reveal(effect);
}

/// `Fx55` followed, with `I` set back, by `Fx65` with the same `x` gives back
/// the registers as they were, and each leaves `I` advanced by `x + 1`.
pub proof fn lemma_store_load_round_trip(m: Machine, x: u8, rnd: u8)
    requires
        m.wf(),
        m.pc + 2 < CHIP8_MEM,
        x < 16,
        m.i + x + 1 <= CHIP8_MEM,
    ensures
        exec_spec(m, Instr::LdIVx(x), rnd) matches Ok(m1) && (m1.i == m.i + x + 1 && (exec_spec(
            Machine { i: m.i, ..m1 },
            Instr::LdVxI(x),
            rnd,
        ) matches Ok(m2) && m2.i == m.i + x + 1 && m2.v == m.v)),
{
    reveal(effect);
    let m1 = exec_spec(m, Instr::LdIVx(x), rnd).unwrap();
    let m2 = exec_spec(Machine { i: m.i, ..m1 }, Instr::LdVxI(x), rnd).unwrap();
    assert(m2.v =~= m.v);
}

/// The machine after `k` frames.
pub open spec fn frames(m: Machine, k: nat) -> Machine
    decreases k,
{
    if k == 0 { m } else { frame_spec(frames(m, (k - 1) as nat)) }
}

/// Over `k` frames each timer counts down by exactly `k`, stopping at 0.
pub proof fn lemma_frames_count_down(m: Machine, k: nat)
    ensures
        frames(m, k).delay == (if m.delay >= k { m.delay - k } else { 0 }),
        frames(m, k).sound == (if m.sound >= k { m.sound - k } else { 0 }),
    decreases k,
{
    if k > 0 {
        lemma_frames_count_down(m, (k - 1) as nat);
    }
}

/// Instructions leave the timers alone, except `Fx15` and `Fx18`, which load
/// them: between frames the timers do not move however many instructions run.
pub proof fn lemma_instructions_keep_timers(m: Machine, ins: Instr, rnd: u8)
    requires
        !(ins is LdDtVx),
        !(ins is LdStVx),
    ensures
        exec_spec(m, ins, rnd) matches Ok(m2) ==> m2.delay == m.delay && m2.sound == m.sound,
{
    reveal(effect);
}

} // verus!
