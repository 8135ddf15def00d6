//! The mathematical model of a CHIP-8 machine and the meaning of each
//! instruction as a transition on it.
use vstd::prelude::*;
use crate::instr::{Instr, decode_spec};

verus! {

/// Display width in pixels.
pub const CHIP8_WIDTH: usize = 64;
/// Display height in pixels.
pub const CHIP8_HEIGHT: usize = 32;
/// Number of display cells.
pub const SCREEN_CELLS: usize = 2048;
/// Size of the address space in bytes.
pub const CHIP8_MEM: usize = 4096;
/// Address at which programs are loaded and execution starts.
pub const PROGRAM_START: usize = 0x200;
/// Number of general-purpose registers, keys and stack slots.
pub const NUM_REGS: usize = 16;
/// Width of one instruction in bytes.
pub const OP_SIZE: usize = 2;
/// Index of the flags register `V[F]`.
pub const VF: usize = 15;

/// Failures of loading or running a program.
#[derive(Clone, Copy, Debug, PartialEq, Eq, Structural)]
pub enum Chip8Error {
    /// The program does not fit between the load address and the end of memory.
    RomTooLarge,
    /// The fetched opcode is not in the instruction table.
    UnsupportedOpcode(u16),
    /// A call with all sixteen stack slots in use.
    StackOverflow,
    /// A return with an empty stack.
    StackUnderflow,
    /// An instruction fetch or a memory access outside the address space.
    AddressOutOfRange,
    /// A key instruction naming a key above `0xF`.
    InvalidKey,
}

/// How the program counter moves after an instruction.
#[derive(Clone, Copy, Debug, PartialEq, Eq, Structural)]
pub enum PcStep {
    /// On to the following instruction (`PC += 2`).
    Next,
    /// Over the following instruction (`PC += 4`).
    Skip,
    /// To an absolute address.
    Jump(usize),
}

/// The abstract state of a machine.
pub struct Machine {
    /// General-purpose registers `V[0..16]`; `V[F]` doubles as the flag.
    pub v: Seq<u8>,
    /// The index register `I`.
    pub i: usize,
    /// The program counter.
    pub pc: usize,
    /// Number of return addresses on the stack.
    pub sp: usize,
    /// Return addresses; `stack[..sp]` are live.
    pub stack: Seq<usize>,
    /// The 4096-byte address space.
    pub mem: Seq<u8>,
    /// Row-major display cells, `screen[row * 64 + col]`, each 0 or 1.
    pub screen: Seq<u8>,
    /// Set when the display changes; cleared by the host.
    pub draw_flag: bool,
    /// Whether the tone sounds, as of the last frame.
    pub beep: bool,
    /// The delay timer.
    pub delay: u8,
    /// The sound timer.
    pub sound: u8,
    /// Which of the sixteen keys are held down.
    pub keypad: Seq<bool>,
    /// A key released while `Fx0A` waits, not yet consumed.
    pub last_key: Option<u8>,
    /// Whether `Fx0A` is waiting for a key release.
    pub waiting_key: bool,
}

impl Machine {
    /// The shape every reachable state has.
    pub open spec fn wf(self) -> bool {
        &&& self.v.len() == NUM_REGS
        &&& self.stack.len() == NUM_REGS
        &&& self.mem.len() == CHIP8_MEM
        &&& self.screen.len() == SCREEN_CELLS
        &&& self.keypad.len() == NUM_REGS
        &&& self.sp <= NUM_REGS
        &&& forall|p: int| 0 <= p < SCREEN_CELLS ==> #[trigger] self.screen[p] <= 1
    }

    /// The same machine with `V[x]` set to `val`.
    pub open spec fn set_v(self, x: int, val: u8) -> Machine {
        Machine { v: self.v.update(x, val), ..self }
    }

    /// The same machine with `V[x]` set to `val` and then `V[F]` to `flag`.
    pub open spec fn set_v_flag(self, x: int, val: u8, flag: u8) -> Machine {
        Machine { v: self.v.update(x, val).update(VF as int, flag), ..self }
    }
}

/// The program counter after `step`, from `pc`.
pub open spec fn next_pc(pc: usize, step: PcStep) -> int {
    match step {
        PcStep::Next => pc + 2,
        PcStep::Skip => pc + 4,
        PcStep::Jump(a) => a as int,
    }
}

/// `Skip` when `cond` holds, `Next` otherwise.
pub open spec fn skip_if(cond: bool) -> PcStep {
    if cond { PcStep::Skip } else { PcStep::Next }
}

/// `a - b` modulo 256.
pub open spec fn wrap_sub(a: u8, b: u8) -> u8 {
    ((a as int - b as int + 256) % 256) as u8
}

/// `a + b` modulo 256.
pub open spec fn wrap_add(a: u8, b: u8) -> u8 {
    ((a as int + b as int) % 256) as u8
}

/// `1` when `c` holds, `0` otherwise.
pub open spec fn flag(c: bool) -> u8 {
    if c { 1 } else { 0 }
}

/// Bit `j` of a sprite row, counted from the most significant bit.
pub open spec fn sprite_bit(row: u8, j: int) -> u8 {
    (row >> ((7 - j) as u8)) & 1u8
}

/// Number of sprite rows that a draw anchored at row `y0` processes: rows
/// from the bottom edge on end the whole draw.
pub open spec fn drawn_rows(y0: int, n: int) -> int {
    if y0 + n <= CHIP8_HEIGHT { n } else { CHIP8_HEIGHT - y0 }
}

/// Whether cell `p` is covered by a sprite of `rows` rows anchored at
/// `(x0, y0)`; columns from the right edge on are dropped.
pub open spec fn in_sprite(p: int, x0: int, y0: int, rows: int) -> bool {
    let (r, c) = (p / 64, p % 64);
    y0 <= r < y0 + rows && x0 <= c < x0 + 8
}

/// Whether a draw of `rows` rows has reached cell `p` once `i` rows and the
/// first `j` columns of row `i` are done.
pub open spec fn drawn_so_far(p: int, x0: int, y0: int, i: int, j: int) -> bool {
    in_sprite(p, x0, y0, i) || (p / 64 == y0 + i && x0 <= p % 64 < x0 + j)
}

/// `V[F]` part way through a draw: the collision of the cell processed last
/// once `i` rows and the first `j` columns of row `i` are done.
pub open spec fn collision_so_far(m: Machine, x0: int, y0: int, i: int, j: int) -> u8 {
    let jj = if x0 + j <= 64 { j } else { 64 - x0 };
    if jj > 0 {
        let p = (y0 + i) * 64 + x0 + jj - 1;
        bit_at(m, p, x0, y0) & m.screen[p]
    } else {
        draw_collision(m, x0, y0, i)
    }
}

/// The sprite bit that lands on cell `p`.
pub open spec fn bit_at(m: Machine, p: int, x0: int, y0: int) -> u8 {
    sprite_bit(m.mem[m.i + (p / 64 - y0)], p % 64 - x0)
}

/// The cell processed last by a draw: the right-most column still on screen
/// in the last processed row.
pub open spec fn last_cell(x0: int, y0: int, rows: int) -> int {
    let c = if x0 + 7 < 64 { x0 + 7 } else { 63 };
    (y0 + rows - 1) * 64 + c
}

/// The display after an XOR-blit of `rows` rows.
pub open spec fn blit(m: Machine, x0: int, y0: int, rows: int) -> Seq<u8> {
    Seq::new(
        SCREEN_CELLS as nat,
        |p: int|
            if in_sprite(p, x0, y0, rows) {
                m.screen[p] ^ bit_at(m, p, x0, y0)
            } else {
                m.screen[p]
            },
    )
}

/// `V[F]` after a draw: the collision of the last processed cell only.
pub open spec fn draw_collision(m: Machine, x0: int, y0: int, rows: int) -> u8 {
    if rows == 0 {
        0
    } else {
        let p = last_cell(x0, y0, rows);
        bit_at(m, p, x0, y0) & m.screen[p]
    }
}

/// `Dxyn`.
pub open spec fn draw_effect(m: Machine, x: int, y: int, n: int) -> Result<(Machine, PcStep), Chip8Error> {
    let x0 = m.v[x] as int % 64;
    let y0 = m.v[y] as int % 32;
    let rows = drawn_rows(y0, n);
    if m.i + rows > CHIP8_MEM {
        Err(Chip8Error::AddressOutOfRange)
    } else {
        Ok((Machine {
            screen: blit(m, x0, y0, rows),
            v: m.v.update(VF as int, draw_collision(m, x0, y0, rows)),
            draw_flag: true,
            ..m
        }, PcStep::Next))
    }
}

/// The digits of `b`: hundreds, tens, units.
pub open spec fn bcd(b: u8) -> Seq<u8> {
    seq![b / 100, (b / 10) % 10, b % 10]
}

/// What an instruction does to the machine, and where the program counter
/// goes, before the counter is moved.
#[verifier::opaque]
pub open spec fn effect(m: Machine, ins: Instr, rnd: u8) -> Result<(Machine, PcStep), Chip8Error> {
    match ins {
        Instr::Cls => Ok((Machine {
            screen: Seq::new(SCREEN_CELLS as nat, |p: int| 0u8),
            draw_flag: true,
            ..m
        }, PcStep::Next)),
        Instr::Ret => if m.sp == 0 {
            Err(Chip8Error::StackUnderflow)
        } else {
            Ok((Machine { sp: (m.sp - 1) as usize, ..m }, PcStep::Jump(m.stack[m.sp - 1])))
        },
        Instr::Jp(a) => Ok((m, PcStep::Jump(a as usize))),
        Instr::Call(a) => if m.sp >= NUM_REGS {
            Err(Chip8Error::StackOverflow)
        } else {
            Ok((Machine {
                stack: m.stack.update(m.sp as int, (m.pc + 2) as usize),
                sp: (m.sp + 1) as usize,
                ..m
            }, PcStep::Jump(a as usize)))
        },
        Instr::SeKk(x, kk) => Ok((m, skip_if(m.v[x as int] == kk))),
        Instr::SneKk(x, kk) => Ok((m, skip_if(m.v[x as int] != kk))),
        Instr::SeVy(x, y) => Ok((m, skip_if(m.v[x as int] == m.v[y as int]))),
        Instr::SneVy(x, y) => Ok((m, skip_if(m.v[x as int] != m.v[y as int]))),
        Instr::LdKk(x, kk) => Ok((m.set_v(x as int, kk), PcStep::Next)),
        Instr::AddKk(x, kk) => Ok((m.set_v(x as int, wrap_add(m.v[x as int], kk)), PcStep::Next)),
        Instr::LdVy(x, y) => Ok((m.set_v(x as int, m.v[y as int]), PcStep::Next)),
        Instr::Or(x, y) => Ok((m.set_v_flag(x as int, m.v[x as int] | m.v[y as int], 0), PcStep::Next)),
        Instr::And(x, y) => Ok((m.set_v_flag(x as int, m.v[x as int] & m.v[y as int], 0), PcStep::Next)),
        Instr::Xor(x, y) => Ok((m.set_v_flag(x as int, m.v[x as int] ^ m.v[y as int], 0), PcStep::Next)),
        Instr::AddVy(x, y) => {
            let (a, b) = (m.v[x as int], m.v[y as int]);
            Ok((m.set_v_flag(x as int, wrap_add(a, b), flag(a as int + b as int > 255)), PcStep::Next))
        },
        Instr::Sub(x, y) => {
            let (a, b) = (m.v[x as int], m.v[y as int]);
            Ok((m.set_v_flag(x as int, wrap_sub(a, b), flag(a >= b)), PcStep::Next))
        },
        Instr::Subn(x, y) => {
            let (a, b) = (m.v[x as int], m.v[y as int]);
            Ok((m.set_v_flag(x as int, wrap_sub(b, a), flag(b >= a)), PcStep::Next))
        },
        Instr::Shr(x, y) => {
            let b = m.v[y as int];
            Ok((m.set_v_flag(x as int, b / 2, b % 2), PcStep::Next))
        },
        Instr::Shl(x, y) => {
            let b = m.v[y as int];
            Ok((m.set_v_flag(x as int, ((b as int * 2) % 256) as u8, b / 128), PcStep::Next))
        },
        Instr::LdI(a) => Ok((Machine { i: a as usize, ..m }, PcStep::Next)),
        Instr::JpV0(a) => Ok((m, PcStep::Jump((a as int + m.v[0] as int) as usize))),
        Instr::Rnd(x, kk) => Ok((m.set_v(x as int, rnd & kk), PcStep::Next)),
        Instr::Drw(x, y, n) => draw_effect(m, x as int, y as int, n as int),
        Instr::Skp(x) => if m.v[x as int] >= 16 {
            Err(Chip8Error::InvalidKey)
        } else {
            Ok((m, skip_if(m.keypad[m.v[x as int] as int])))
        },
        Instr::Sknp(x) => if m.v[x as int] >= 16 {
            Err(Chip8Error::InvalidKey)
        } else {
            Ok((m, skip_if(!m.keypad[m.v[x as int] as int])))
        },
        Instr::LdVxDt(x) => Ok((m.set_v(x as int, m.delay), PcStep::Next)),
        Instr::LdVxK(x) => match m.last_key {
            None => Ok((Machine { waiting_key: true, ..m }, PcStep::Jump(m.pc))),
            Some(k) => Ok((Machine {
                waiting_key: false,
                last_key: None,
                ..m.set_v(x as int, k)
            }, PcStep::Next)),
        },
        Instr::LdDtVx(x) => Ok((Machine { delay: m.v[x as int], ..m }, PcStep::Next)),
        Instr::LdStVx(x) => Ok((Machine { sound: m.v[x as int], ..m }, PcStep::Next)),
        Instr::AddI(x) => Ok((Machine {
            i: (if m.i + m.v[x as int] <= usize::MAX {
                m.i + m.v[x as int]
            } else {
                m.i + m.v[x as int] - usize::MAX - 1
            }) as usize,
            ..m
        }, PcStep::Next)),
        Instr::LdF(x) => Ok((Machine { i: (m.v[x as int] * 5) as usize, ..m }, PcStep::Next)),
        Instr::LdB(x) => if m.i + 3 > CHIP8_MEM {
            Err(Chip8Error::AddressOutOfRange)
        } else {
            let d = bcd(m.v[x as int]);
            Ok((Machine {
                mem: m.mem.update(m.i as int, d[0]).update(m.i + 1, d[1]).update(m.i + 2, d[2]),
                ..m
            }, PcStep::Next))
        },
        Instr::LdIVx(x) => if m.i + x + 1 > CHIP8_MEM {
            Err(Chip8Error::AddressOutOfRange)
        } else {
            Ok((Machine {
                mem: Seq::new(
                    CHIP8_MEM as nat,
                    |a: int| if m.i <= a <= m.i + x { m.v[a - m.i] } else { m.mem[a] },
                ),
                i: (m.i + x + 1) as usize,
                ..m
            }, PcStep::Next))
        },
        Instr::LdVxI(x) => if m.i + x + 1 > CHIP8_MEM {
            Err(Chip8Error::AddressOutOfRange)
        } else {
            Ok((Machine {
                v: Seq::new(NUM_REGS as nat, |r: int| if r <= x { m.mem[m.i + r] } else { m.v[r] }),
                i: (m.i + x + 1) as usize,
                ..m
            }, PcStep::Next))
        },
    }
}

/// The random byte is read by `Cxkk` alone.
pub proof fn lemma_effect_ignores_rnd(m: Machine, ins: Instr, rnd: u8)
    requires
        !(ins is Rnd),
    ensures
        effect(m, ins, rnd) == effect(m, ins, 0),
{
    reveal(effect);
}

/// An instruction moves the program counter only through its `PcStep`.
pub proof fn lemma_effect_keeps_pc(m: Machine, ins: Instr, rnd: u8)
    ensures
        effect(m, ins, rnd) matches Ok((m2, _)) ==> m2.pc == m.pc,
{
    reveal(effect);
}

/// The machine after executing `ins` with random byte `rnd`, the program
/// counter moved. An instruction is only executed from inside memory.
pub open spec fn exec_spec(m: Machine, ins: Instr, rnd: u8) -> Result<Machine, Chip8Error> {
    if m.pc >= CHIP8_MEM {
        Err(Chip8Error::AddressOutOfRange)
    } else {
        match effect(m, ins, rnd) {
            Ok((m2, s)) => Ok(Machine { pc: next_pc(m2.pc, s) as usize, ..m2 }),
            Err(e) => Err(e),
        }
    }
}

/// The machine after executing opcode `op` with random byte `rnd`.
pub open spec fn op_spec(m: Machine, op: u16, rnd: u8) -> Result<Machine, Chip8Error> {
    match decode_spec(op) {
        None => Err(Chip8Error::UnsupportedOpcode(op)),
        Some(ins) => exec_spec(m, ins, rnd),
    }
}

/// The opcode at the program counter, high byte first.
pub open spec fn fetch_spec(m: Machine) -> u16 {
    (m.mem[m.pc as int] as int * 256 + m.mem[m.pc + 1] as int) as u16
}

/// One fetch-decode-execute step with random byte `rnd`.
pub open spec fn step_spec(m: Machine, rnd: u8) -> Result<Machine, Chip8Error> {
    if m.pc + 1 >= CHIP8_MEM {
        Err(Chip8Error::AddressOutOfRange)
    } else {
        op_spec(m, fetch_spec(m), rnd)
    }
}

/// `n - 1`, but not below zero.
pub open spec fn count_down(n: u8) -> u8 {
    if n > 0 { (n - 1) as u8 } else { 0 }
}

/// One 60 Hz frame: both timers count down and the beep follows the sound timer.
pub open spec fn frame_spec(m: Machine) -> Machine {
    Machine {
        delay: count_down(m.delay),
        sound: count_down(m.sound),
        beep: count_down(m.sound) > 0,
        ..m
    }
}

} // verus!
