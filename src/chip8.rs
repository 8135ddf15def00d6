//! The executable CHIP-8 machine.
use vstd::prelude::*;
use crate::instr::{Instr, decode};
use crate::model::{
    CHIP8_HEIGHT, CHIP8_MEM, CHIP8_WIDTH, Chip8Error, Machine, NUM_REGS, OP_SIZE, PROGRAM_START,
    PcStep, SCREEN_CELLS, VF, bit_at, blit, collision_so_far, draw_collision, drawn_rows,
    drawn_so_far, effect, exec_spec, fetch_spec, frame_spec, in_sprite, lemma_effect_ignores_rnd,
    lemma_effect_keeps_pc, op_spec, step_spec,
};
use crate::rng::random_byte;
use crate::timer::{CLOCK_PERIOD_NANOS, FRAME_PERIOD_NANOS, Timer, restarted};

verus! {

/// The hexadecimal digit glyphs `0`..`F`, five rows of eight pixels each.
pub open spec fn font_spec() -> Seq<u8> {
    seq![
        0xF0u8, 0x90, 0x90, 0x90, 0xF0, 0x20, 0x60, 0x20, 0x20, 0x70,
        0xF0, 0x10, 0xF0, 0x80, 0xF0, 0xF0, 0x10, 0xF0, 0x10, 0xF0,
        0x90, 0x90, 0xF0, 0x10, 0x10, 0xF0, 0x80, 0xF0, 0x10, 0xF0,
        0xF0, 0x80, 0xF0, 0x90, 0xF0, 0xF0, 0x10, 0x20, 0x40, 0x40,
        0xF0, 0x90, 0xF0, 0x90, 0xF0, 0xF0, 0x90, 0xF0, 0x10, 0xF0,
        0xF0, 0x90, 0xF0, 0x90, 0x90, 0xE0, 0x90, 0xE0, 0x90, 0xE0,
        0xF0, 0x80, 0x80, 0x80, 0xF0, 0xE0, 0x90, 0x90, 0x90, 0xE0,
        0xF0, 0x80, 0xF0, 0x80, 0xF0, 0xF0, 0x80, 0xF0, 0x80, 0x80
    ]
}

fn fontset() -> (r: Vec<u8>)
    ensures
        r@ == font_spec(),
{
    let r: Vec<u8> = vec![
        0xF0u8, 0x90, 0x90, 0x90, 0xF0, 0x20, 0x60, 0x20, 0x20, 0x70,
        0xF0, 0x10, 0xF0, 0x80, 0xF0, 0xF0, 0x10, 0xF0, 0x10, 0xF0,
        0x90, 0x90, 0xF0, 0x10, 0x10, 0xF0, 0x80, 0xF0, 0x10, 0xF0,
        0xF0, 0x80, 0xF0, 0x90, 0xF0, 0xF0, 0x10, 0x20, 0x40, 0x40,
        0xF0, 0x90, 0xF0, 0x90, 0xF0, 0xF0, 0x90, 0xF0, 0x10, 0xF0,
        0xF0, 0x90, 0xF0, 0x90, 0x90, 0xE0, 0x90, 0xE0, 0x90, 0xE0,
        0xF0, 0x80, 0x80, 0x80, 0xF0, 0xE0, 0x90, 0x90, 0x90, 0xE0,
        0xF0, 0x80, 0xF0, 0x80, 0xF0, 0xF0, 0x80, 0xF0, 0x80, 0x80
    ];
    assert(r@ =~= font_spec());
    r
}

/// Memory right after loading `rom`: the font at the bottom, the program at
/// `0x200`, zero elsewhere.
pub open spec fn loaded_mem(rom: Seq<u8>) -> Seq<u8> {
    Seq::new(
        CHIP8_MEM as nat,
        |a: int|
            if a < 80 {
                font_spec()[a]
            } else if PROGRAM_START <= a < PROGRAM_START + rom.len() {
                rom[a - PROGRAM_START]
            } else {
                0u8
            },
    )
}

/// The state of a machine that has just loaded `rom`.
pub open spec fn initial(rom: Seq<u8>) -> Machine {
    Machine {
        v: Seq::new(NUM_REGS as nat, |r: int| 0u8),
        i: 0,
        pc: PROGRAM_START,
        sp: 0,
        stack: Seq::new(NUM_REGS as nat, |r: int| 0usize),
        mem: loaded_mem(rom),
        screen: Seq::new(SCREEN_CELLS as nat, |p: int| 0u8),
        draw_flag: false,
        beep: false,
        delay: 0,
        sound: 0,
        keypad: Seq::new(NUM_REGS as nat, |r: int| false),
        last_key: None,
        waiting_key: false,
    }
}

/// The outcome `r` of a fallible handler run from `pre` to `post` agrees
/// with `expected`: on success the new state and the counter move, on
/// failure the error and an untouched state.
pub open spec fn handler_outcome(
    pre: Machine,
    post: Machine,
    r: Result<PcStep, Chip8Error>,
    expected: Result<(Machine, PcStep), Chip8Error>,
) -> bool {
    match expected {
        Ok((m, s)) => r == Ok::<PcStep, Chip8Error>(s) && post == m,
        Err(e) => r == Err::<PcStep, Chip8Error>(e) && post == pre,
    }
}

/// The outcome `r` of running from `pre` to `post` agrees with `expected`;
/// a failure leaves the state untouched.
pub open spec fn run_outcome(
    pre: Machine,
    post: Machine,
    r: Result<(), Chip8Error>,
    expected: Result<Machine, Chip8Error>,
) -> bool {
    match expected {
        Ok(m) => r == Ok::<(), Chip8Error>(()) && post == m,
        Err(e) => r == Err::<(), Chip8Error>(e) && post == pre,
    }
}

/// A CHIP-8 machine: registers, memory, stack, timers, keypad and display.
#[derive(Debug)]
pub struct Chip8 {
    v: Vec<u8>,
    i: usize,
    pc: usize,
    sp: usize,
    stack: Vec<usize>,
    mem: Vec<u8>,
    screen: Vec<u8>,
    draw_flag: bool,
    beep: bool,
    delay: u8,
    sound: u8,
    keypad: Vec<bool>,
    last_key: Option<u8>,
    waiting_key: bool,
}

impl View for Chip8 {
    type V = Machine;

    closed spec fn view(&self) -> Machine {
        Machine {
            v: self.v@,
            i: self.i,
            pc: self.pc,
            sp: self.sp,
            stack: self.stack@,
            mem: self.mem@,
            screen: self.screen@,
            draw_flag: self.draw_flag,
            beep: self.beep,
            delay: self.delay,
            sound: self.sound,
            keypad: self.keypad@,
            last_key: self.last_key,
            waiting_key: self.waiting_key,
        }
    }
}

impl Chip8 {
    /// Well-formedness: the model's shape.
    pub open spec fn wf(&self) -> bool {
        self@.wf()
    }

    /// A machine with `content` loaded at `0x200` and the font at `0x000`.
    pub fn new(content: Vec<u8>) -> (r: Chip8)
        requires
            content@.len() <= CHIP8_MEM - PROGRAM_START,
        ensures
            r.wf(),
            r@ == initial(content@),
    {
        let mut mem: Vec<u8> = vec![0u8; CHIP8_MEM];
        let font = fontset();
        let mut k: usize = 0;
        while k < font.len()
            invariant
                font@ == font_spec(),
                k <= font@.len(),
                mem@.len() == CHIP8_MEM,
                forall|a: int| 0 <= a < k ==> mem@[a] == font_spec()[a],
                forall|a: int| k <= a < CHIP8_MEM ==> mem@[a] == 0,
            decreases font@.len() - k,
        {
            mem.set(k, font[k]);
            k = k + 1;
        }
        let mut k: usize = 0;
        while k < content.len()
            invariant
                content@.len() <= CHIP8_MEM - PROGRAM_START,
                k <= content@.len(),
                mem@.len() == CHIP8_MEM,
                forall|a: int| 0 <= a < 80 ==> mem@[a] == font_spec()[a],
                forall|a: int|
                    PROGRAM_START <= a < PROGRAM_START + k ==> mem@[a] == content@[a - PROGRAM_START],
                forall|a: int|
                    (80 <= a < PROGRAM_START || PROGRAM_START + k <= a < CHIP8_MEM) ==> mem@[a] == 0,
            decreases content@.len() - k,
        {
            mem.set(PROGRAM_START + k, content[k]);
            k = k + 1;
        }
        let r = Chip8 {
            v: vec![0u8; NUM_REGS],
            i: 0,
            pc: PROGRAM_START,
            sp: 0,
            stack: vec![0usize; NUM_REGS],
            mem,
            screen: vec![0u8; SCREEN_CELLS],
            draw_flag: false,
            beep: false,
            delay: 0,
            sound: 0,
            keypad: vec![false; NUM_REGS],
            last_key: None,
            waiting_key: false,
        };
        assert(r@.mem =~= loaded_mem(content@));
        assert(r@.v =~= initial(content@).v);
        assert(r@.stack =~= initial(content@).stack);
        assert(r@.screen =~= initial(content@).screen);
        assert(r@.keypad =~= initial(content@).keypad);
        r
    }

    /// Loads a program, refusing one that does not fit in memory above `0x200`.
    pub fn load(rom: Vec<u8>) -> (r: Result<Chip8, Chip8Error>)
        ensures
            rom@.len() <= CHIP8_MEM - PROGRAM_START <==> r is Ok,
            r matches Ok(c) ==> c.wf() && c@ == initial(rom@),
            r matches Err(e) ==> e == Chip8Error::RomTooLarge,
    {
        if rom.len() > CHIP8_MEM - PROGRAM_START {
            Err(Chip8Error::RomTooLarge)
        } else {
            Ok(Chip8::new(rom))
        }
    }

    /// Records a key transition. A release while `Fx0A` waits is kept for it.
    pub fn update_keypad(&mut self, code: u8, pressed: bool)
        requires
            old(self).wf(),
            code < 16,
        ensures
            final(self).wf(),
            final(self)@ == (Machine {
                keypad: old(self)@.keypad.update(code as int, pressed),
                last_key: if old(self)@.waiting_key && !pressed {
                    Some(code)
                } else {
                    old(self)@.last_key
                },
                ..old(self)@
            }),
    {
        if self.waiting_key && !pressed {
            self.last_key = Some(code);
        }
        self.keypad.set(code as usize, pressed);
    }

    /// `V[x]`.
    pub fn register(&self, x: usize) -> (r: u8)
        requires
            self.wf(),
            x < NUM_REGS,
        ensures
            r == self@.v[x as int],
    {
        self.v[x]
    }

    /// The index register `I`.
    pub fn index(&self) -> (r: usize)
        ensures
            r == self@.i,
    {
        self.i
    }

    /// The program counter.
    pub fn pc(&self) -> (r: usize)
        ensures
            r == self@.pc,
    {
        self.pc
    }

    /// The stack pointer: the number of pending returns.
    pub fn sp(&self) -> (r: usize)
        ensures
            r == self@.sp,
    {
        self.sp
    }

    /// The byte at `addr`.
    pub fn memory(&self, addr: usize) -> (r: u8)
        requires
            self.wf(),
            addr < CHIP8_MEM,
        ensures
            r == self@.mem[addr as int],
    {
        self.mem[addr]
    }

    /// The display cell at column `x`, row `y`: 0 or 1.
    pub fn pixel(&self, x: usize, y: usize) -> (r: u8)
        requires
            self.wf(),
            x < CHIP8_WIDTH,
            y < CHIP8_HEIGHT,
        ensures
            r == self@.screen[y * 64 + x],
            r <= 1,
    {
        assert(y * 64 + x < 2048) by (nonlinear_arith)
            requires
                x < 64,
                y < 32,
        ;
        self.screen[y * CHIP8_WIDTH + x]
    }

    /// The delay timer.
    pub fn delay_timer(&self) -> (r: u8)
        ensures
            r == self@.delay,
    {
        self.delay
    }

    /// The sound timer.
    pub fn sound_timer(&self) -> (r: u8)
        ensures
            r == self@.sound,
    {
        self.sound
    }

    /// Whether the tone should sound: set at each frame tick to `sound > 0`.
    pub fn beep(&self) -> (r: bool)
        ensures
            r == self@.beep,
    {
        self.beep
    }

    /// Whether the display changed since the flag was last cleared.
    pub fn draw_flag(&self) -> (r: bool)
        ensures
            r == self@.draw_flag,
    {
        self.draw_flag
    }

    /// Clears the redraw flag once the display has been consumed.
    pub fn clear_draw_flag(&mut self)
        requires
            old(self).wf(),
        ensures
            final(self).wf(),
            final(self)@ == (Machine { draw_flag: false, ..old(self)@ }),
    {
        self.draw_flag = false;
    }

    /// Whether key `k` is held down.
    pub fn key_pressed(&self, k: usize) -> (r: bool)
        requires
            self.wf(),
            k < NUM_REGS,
        ensures
            r == self@.keypad[k as int],
    {
        self.keypad[k]
    }

    /// Whether `Fx0A` is waiting for a key release.
    pub fn is_waiting_for_key(&self) -> (r: bool)
        ensures
            r == self@.waiting_key,
    {
        self.waiting_key
    }

    fn clear_display(&mut self) -> (r: PcStep)
        requires
            old(self).wf(),
        ensures
            final(self).wf(),
            handler_outcome(old(self)@, final(self)@, Ok(r), effect(old(self)@, Instr::Cls, 0)),
    {
        proof {
            reveal(effect);
        }
        self.screen = vec![0u8; SCREEN_CELLS];
        self.draw_flag = true;
        assert(self@.screen =~= Seq::new(SCREEN_CELLS as nat, |p: int| 0u8));
        PcStep::Next
    }

    fn ret(&mut self) -> (r: Result<PcStep, Chip8Error>)
        requires
            old(self).wf(),
        ensures
            final(self).wf(),
            handler_outcome(old(self)@, final(self)@, r, effect(old(self)@, Instr::Ret, 0)),
    {
        proof {
            reveal(effect);
        }
        if self.sp == 0 {
            return Err(Chip8Error::StackUnderflow);
        }
        self.sp = self.sp - 1;
        Ok(PcStep::Jump(self.stack[self.sp]))
    }

    fn jmp(&mut self, nnn: usize) -> (r: PcStep)
        requires
            old(self).wf(),
            nnn < 0x1000,
        ensures
            final(self).wf(),
            handler_outcome(old(self)@, final(self)@, Ok(r), effect(old(self)@, Instr::Jp(nnn as u16), 0)),
    {
        proof {
            reveal(effect);
        }
        PcStep::Jump(nnn)
    }

    fn jmp_v0(&mut self, nnn: usize) -> (r: PcStep)
        requires
            old(self).wf(),
            nnn < 0x1000,
        ensures
            final(self).wf(),
            handler_outcome(old(self)@, final(self)@, Ok(r), effect(old(self)@, Instr::JpV0(nnn as u16), 0)),
    {
        proof {
            reveal(effect);
        }
        PcStep::Jump(nnn + self.v[0] as usize)
    }

    fn call(&mut self, nnn: usize) -> (r: Result<PcStep, Chip8Error>)
        requires
            old(self).wf(),
            old(self).pc < CHIP8_MEM,
            nnn < 0x1000,
        ensures
            final(self).wf(),
            handler_outcome(old(self)@, final(self)@, r, effect(old(self)@, Instr::Call(nnn as u16), 0)),
    {
        proof {
            reveal(effect);
        }
        if self.sp >= NUM_REGS {
            return Err(Chip8Error::StackOverflow);
        }
        self.stack.set(self.sp, self.pc + OP_SIZE);
        self.sp = self.sp + 1;
        Ok(PcStep::Jump(nnn))
    }

    fn skip_kk_eq(&mut self, x: usize, kk: u8) -> (r: PcStep)
        requires
            old(self).wf(),
            x < 16,
        ensures
            final(self).wf(),
            handler_outcome(old(self)@, final(self)@, Ok(r), effect(old(self)@, Instr::SeKk(x as u8, kk), 0)),
    {
        proof {
            reveal(effect);
        }
        if self.v[x] == kk {
            return PcStep::Skip;
        }
        PcStep::Next
    }

    fn skip_kk_ne(&mut self, x: usize, kk: u8) -> (r: PcStep)
        requires
            old(self).wf(),
            x < 16,
        ensures
            final(self).wf(),
            handler_outcome(old(self)@, final(self)@, Ok(r), effect(old(self)@, Instr::SneKk(x as u8, kk), 0)),
    {
        proof {
            reveal(effect);
        }
        if self.v[x] != kk {
            return PcStep::Skip;
        }
        PcStep::Next
    }

    fn skip_vy_eq(&mut self, x: usize, y: usize) -> (r: PcStep)
        requires
            old(self).wf(),
            x < 16,
            y < 16,
        ensures
            final(self).wf(),
            handler_outcome(old(self)@, final(self)@, Ok(r), effect(old(self)@, Instr::SeVy(x as u8, y as u8), 0)),
    {
        proof {
            reveal(effect);
        }
        if self.v[x] == self.v[y] {
            return PcStep::Skip;
        }
        PcStep::Next
    }

    fn skip_vy_ne(&mut self, x: usize, y: usize) -> (r: PcStep)
        requires
            old(self).wf(),
            x < 16,
            y < 16,
        ensures
            final(self).wf(),
            handler_outcome(old(self)@, final(self)@, Ok(r), effect(old(self)@, Instr::SneVy(x as u8, y as u8), 0)),
    {
        proof {
            reveal(effect);
        }
        if self.v[x] != self.v[y] {
            return PcStep::Skip;
        }
        PcStep::Next
    }

    fn load_kk(&mut self, x: usize, kk: u8) -> (r: PcStep)
        requires
            old(self).wf(),
            x < 16,
        ensures
            final(self).wf(),
            handler_outcome(old(self)@, final(self)@, Ok(r), effect(old(self)@, Instr::LdKk(x as u8, kk), 0)),
    {
        proof {
            reveal(effect);
        }
        self.v.set(x, kk);
        PcStep::Next
    }

    fn add_kk(&mut self, x: usize, kk: u8) -> (r: PcStep)
        requires
            old(self).wf(),
            x < 16,
        ensures
            final(self).wf(),
            handler_outcome(old(self)@, final(self)@, Ok(r), effect(old(self)@, Instr::AddKk(x as u8, kk), 0)),
    {
        proof {
            reveal(effect);
        }
        let sum = self.v[x] as u16 + kk as u16;
        self.v.set(x, (sum % 256) as u8);
        PcStep::Next
    }

    fn load_vy(&mut self, x: usize, y: usize) -> (r: PcStep)
        requires
            old(self).wf(),
            x < 16,
            y < 16,
        ensures
            final(self).wf(),
            handler_outcome(old(self)@, final(self)@, Ok(r), effect(old(self)@, Instr::LdVy(x as u8, y as u8), 0)),
    {
        proof {
            reveal(effect);
        }
        let b = self.v[y];
        self.v.set(x, b);
        PcStep::Next
    }

    fn or(&mut self, x: usize, y: usize) -> (r: PcStep)
        requires
            old(self).wf(),
            x < 16,
            y < 16,
        ensures
            final(self).wf(),
            handler_outcome(old(self)@, final(self)@, Ok(r), effect(old(self)@, Instr::Or(x as u8, y as u8), 0)),
    {
        proof {
            reveal(effect);
        }
        let val = self.v[x] | self.v[y];
        self.v.set(x, val);
        self.v.set(VF, 0);
        PcStep::Next
    }

    fn and(&mut self, x: usize, y: usize) -> (r: PcStep)
        requires
            old(self).wf(),
            x < 16,
            y < 16,
        ensures
            final(self).wf(),
            handler_outcome(old(self)@, final(self)@, Ok(r), effect(old(self)@, Instr::And(x as u8, y as u8), 0)),
    {
        proof {
            reveal(effect);
        }
        let val = self.v[x] & self.v[y];
        self.v.set(x, val);
        self.v.set(VF, 0);
        PcStep::Next
    }

    fn xor(&mut self, x: usize, y: usize) -> (r: PcStep)
        requires
            old(self).wf(),
            x < 16,
            y < 16,
        ensures
            final(self).wf(),
            handler_outcome(old(self)@, final(self)@, Ok(r), effect(old(self)@, Instr::Xor(x as u8, y as u8), 0)),
    {
        proof {
            reveal(effect);
        }
        let val = self.v[x] ^ self.v[y];
        self.v.set(x, val);
        self.v.set(VF, 0);
        PcStep::Next
    }

    fn add_vy(&mut self, x: usize, y: usize) -> (r: PcStep)
        requires
            old(self).wf(),
            x < 16,
            y < 16,
        ensures
            final(self).wf(),
            handler_outcome(old(self)@, final(self)@, Ok(r), effect(old(self)@, Instr::AddVy(x as u8, y as u8), 0)),
    {
        proof {
            reveal(effect);
        }
        let result = self.v[x] as u16 + self.v[y] as u16;
        self.v.set(x, (result % 256) as u8);
        self.v.set(VF, if result > 0xff { 1 } else { 0 });
        PcStep::Next
    }

    fn sub(&mut self, x: usize, y: usize) -> (r: PcStep)
        requires
            old(self).wf(),
            x < 16,
            y < 16,
        ensures
            final(self).wf(),
            handler_outcome(old(self)@, final(self)@, Ok(r), effect(old(self)@, Instr::Sub(x as u8, y as u8), 0)),
    {
        proof {
            reveal(effect);
        }
        let a = self.v[x];
        let b = self.v[y];
        self.v.set(x, ((a as u16 + 256 - b as u16) % 256) as u8);
        self.v.set(VF, if a >= b { 1 } else { 0 });
        PcStep::Next
    }

    fn shr(&mut self, x: usize, y: usize) -> (r: PcStep)
        requires
            old(self).wf(),
            x < 16,
            y < 16,
        ensures
            final(self).wf(),
            handler_outcome(old(self)@, final(self)@, Ok(r), effect(old(self)@, Instr::Shr(x as u8, y as u8), 0)),
    {
        proof {
            reveal(effect);
        }
        let original = self.v[y];
        self.v.set(x, original / 2);
        self.v.set(VF, original % 2);
        PcStep::Next
    }

    fn subn(&mut self, x: usize, y: usize) -> (r: PcStep)
        requires
            old(self).wf(),
            x < 16,
            y < 16,
        ensures
            final(self).wf(),
            handler_outcome(old(self)@, final(self)@, Ok(r), effect(old(self)@, Instr::Subn(x as u8, y as u8), 0)),
    {
        proof {
            reveal(effect);
        }
        let a = self.v[x];
        let b = self.v[y];
        self.v.set(x, ((b as u16 + 256 - a as u16) % 256) as u8);
        self.v.set(VF, if b >= a { 1 } else { 0 });
        PcStep::Next
    }

    fn shl(&mut self, x: usize, y: usize) -> (r: PcStep)
        requires
            old(self).wf(),
            x < 16,
            y < 16,
        ensures
            final(self).wf(),
            handler_outcome(old(self)@, final(self)@, Ok(r), effect(old(self)@, Instr::Shl(x as u8, y as u8), 0)),
    {
        proof {
            reveal(effect);
        }
        let original = self.v[y];
        self.v.set(x, ((original as u16 * 2) % 256) as u8);
        self.v.set(VF, original / 128);
        PcStep::Next
    }

    fn load_addr(&mut self, nnn: usize) -> (r: PcStep)
        requires
            old(self).wf(),
            nnn < 0x1000,
        ensures
            final(self).wf(),
            handler_outcome(old(self)@, final(self)@, Ok(r), effect(old(self)@, Instr::LdI(nnn as u16), 0)),
    {
        proof {
            reveal(effect);
        }
        self.i = nnn;
        PcStep::Next
    }

    fn rand(&mut self, x: usize, kk: u8, rnd: u8) -> (r: PcStep)
        requires
            old(self).wf(),
            x < 16,
        ensures
            final(self).wf(),
            handler_outcome(old(self)@, final(self)@, Ok(r), effect(old(self)@, Instr::Rnd(x as u8, kk), rnd)),
    {
        proof {
            reveal(effect);
        }
        self.v.set(x, rnd & kk);
        PcStep::Next
    }

    fn skip_key_eq(&mut self, x: usize) -> (r: Result<PcStep, Chip8Error>)
        requires
            old(self).wf(),
            x < 16,
        ensures
            final(self).wf(),
            handler_outcome(old(self)@, final(self)@, r, effect(old(self)@, Instr::Skp(x as u8), 0)),
    {
        proof {
            reveal(effect);
        }
        let k = self.v[x] as usize;
        if k >= NUM_REGS {
            return Err(Chip8Error::InvalidKey);
        }
        if self.keypad[k] {
            return Ok(PcStep::Skip);
        }
        Ok(PcStep::Next)
    }

    fn skip_key_ne(&mut self, x: usize) -> (r: Result<PcStep, Chip8Error>)
        requires
            old(self).wf(),
            x < 16,
        ensures
            final(self).wf(),
            handler_outcome(old(self)@, final(self)@, r, effect(old(self)@, Instr::Sknp(x as u8), 0)),
    {
        proof {
            reveal(effect);
        }
        let k = self.v[x] as usize;
        if k >= NUM_REGS {
            return Err(Chip8Error::InvalidKey);
        }
        if !self.keypad[k] {
            return Ok(PcStep::Skip);
        }
        Ok(PcStep::Next)
    }

    fn load_delay(&mut self, x: usize) -> (r: PcStep)
        requires
            old(self).wf(),
            x < 16,
        ensures
            final(self).wf(),
            handler_outcome(old(self)@, final(self)@, Ok(r), effect(old(self)@, Instr::LdVxDt(x as u8), 0)),
    {
        proof {
            reveal(effect);
        }
        self.v.set(x, self.delay);
        PcStep::Next
    }

    fn load_key(&mut self, x: usize) -> (r: PcStep)
        requires
            old(self).wf(),
            x < 16,
        ensures
            final(self).wf(),
            handler_outcome(old(self)@, final(self)@, Ok(r), effect(old(self)@, Instr::LdVxK(x as u8), 0)),
    {
        proof {
            reveal(effect);
        }
        match self.last_key {
            None => {
                // Run this instruction again on the next step.
                self.waiting_key = true;
                PcStep::Jump(self.pc)
            },
            Some(code) => {
                self.waiting_key = false;
                self.last_key = None;
                self.v.set(x, code);
                PcStep::Next
            },
        }
    }

    fn load_vx_delay(&mut self, x: usize) -> (r: PcStep)
        requires
            old(self).wf(),
            x < 16,
        ensures
            final(self).wf(),
            handler_outcome(old(self)@, final(self)@, Ok(r), effect(old(self)@, Instr::LdDtVx(x as u8), 0)),
    {
        proof {
            reveal(effect);
        }
        self.delay = self.v[x];
        PcStep::Next
    }

    fn load_vx_sound(&mut self, x: usize) -> (r: PcStep)
        requires
            old(self).wf(),
            x < 16,
        ensures
            final(self).wf(),
            handler_outcome(old(self)@, final(self)@, Ok(r), effect(old(self)@, Instr::LdStVx(x as u8), 0)),
    {
        proof {
            reveal(effect);
        }
        self.sound = self.v[x];
        PcStep::Next
    }

    fn add_i(&mut self, x: usize) -> (r: PcStep)
        requires
            old(self).wf(),
            x < 16,
        ensures
            final(self).wf(),
            handler_outcome(old(self)@, final(self)@, Ok(r), effect(old(self)@, Instr::AddI(x as u8), 0)),
    {
        proof {
            reveal(effect);
        }
        self.i = self.i.wrapping_add(self.v[x] as usize);
        PcStep::Next
    }

    fn load_sprite(&mut self, x: usize) -> (r: PcStep)
        requires
            old(self).wf(),
            x < 16,
        ensures
            final(self).wf(),
            handler_outcome(old(self)@, final(self)@, Ok(r), effect(old(self)@, Instr::LdF(x as u8), 0)),
    {
        proof {
            reveal(effect);
        }
        self.i = (self.v[x] as usize) * 5;
        PcStep::Next
    }

    fn load_bcd(&mut self, x: usize) -> (r: Result<PcStep, Chip8Error>)
        requires
            old(self).wf(),
            x < 16,
        ensures
            final(self).wf(),
            handler_outcome(old(self)@, final(self)@, r, effect(old(self)@, Instr::LdB(x as u8), 0)),
    {
        proof {
            reveal(effect);
        }
        if self.i > CHIP8_MEM - 3 {
            return Err(Chip8Error::AddressOutOfRange);
        }
        let num = self.v[x];
        let i = self.i;
        self.mem.set(i, num / 100);
        self.mem.set(i + 1, (num / 10) % 10);
        self.mem.set(i + 2, num % 10);
        Ok(PcStep::Next)
    }

    fn store_v0_vx(&mut self, x: usize) -> (r: Result<PcStep, Chip8Error>)
        requires
            old(self).wf(),
            x < 16,
        ensures
            final(self).wf(),
            handler_outcome(old(self)@, final(self)@, r, effect(old(self)@, Instr::LdIVx(x as u8), 0)),
    {
        proof {
            reveal(effect);
        }
        if self.i > CHIP8_MEM - (x + 1) {
            return Err(Chip8Error::AddressOutOfRange);
        }
        let base = self.i;
        let mut k: usize = 0;
        while k <= x
            invariant
                self.wf(),
                k <= x + 1,
                x < 16,
                base + x + 1 <= CHIP8_MEM,
                base == old(self)@.i,
                self@ == (Machine { mem: self@.mem, ..old(self)@ }),
                forall|a: int| 0 <= a < CHIP8_MEM ==> #[trigger] self@.mem[a] == (
                    if base <= a < base + k { old(self)@.v[a - base] } else { old(self)@.mem[a] }),
            decreases x + 1 - k,
        {
            let val = self.v[k];
            self.mem.set(base + k, val);
            k = k + 1;
        }
        self.i = base + x + 1;
        let ghost expected = effect(old(self)@, Instr::LdIVx(x as u8), 0);
        assert(self@.mem =~= expected.unwrap().0.mem);
        Ok(PcStep::Next)
    }

    fn load_v0_vx(&mut self, x: usize) -> (r: Result<PcStep, Chip8Error>)
        requires
            old(self).wf(),
            x < 16,
        ensures
            final(self).wf(),
            handler_outcome(old(self)@, final(self)@, r, effect(old(self)@, Instr::LdVxI(x as u8), 0)),
    {
        proof {
            reveal(effect);
        }
        if self.i > CHIP8_MEM - (x + 1) {
            return Err(Chip8Error::AddressOutOfRange);
        }
        let base = self.i;
        let mut k: usize = 0;
        while k <= x
            invariant
                self.wf(),
                k <= x + 1,
                x < 16,
                base + x + 1 <= CHIP8_MEM,
                base == old(self)@.i,
                self@ == (Machine { v: self@.v, ..old(self)@ }),
                forall|r: int| 0 <= r < NUM_REGS ==> #[trigger] self@.v[r] == (
                    if r < k { old(self)@.mem[base + r] } else { old(self)@.v[r] }),
            decreases x + 1 - k,
        {
            let val = self.mem[base + k];
            self.v.set(k, val);
            k = k + 1;
        }
        self.i = base + x + 1;
        let ghost expected = effect(old(self)@, Instr::LdVxI(x as u8), 0);
        assert(self@.v =~= expected.unwrap().0.v);
        Ok(PcStep::Next)
    }

    fn draw(&mut self, x: usize, y: usize, n: usize) -> (r: Result<PcStep, Chip8Error>)
        requires
            old(self).wf(),
            x < 16,
            y < 16,
            n < 16,
        ensures
            final(self).wf(),
            handler_outcome(old(self)@, final(self)@, r, effect(old(self)@, Instr::Drw(x as u8, y as u8, n as u8), 0)),
    {
        proof {
            reveal(effect);
        }
        let x0 = (self.v[x] as usize) % CHIP8_WIDTH;
        let y0 = (self.v[y] as usize) % CHIP8_HEIGHT;
        let rows = if y0 + n <= CHIP8_HEIGHT { n } else { CHIP8_HEIGHT - y0 };
        assert(rows == drawn_rows(y0 as int, n as int));
        if self.i > CHIP8_MEM - rows {
            return Err(Chip8Error::AddressOutOfRange);
        }
        let ghost pre = self@;
        let base = self.i;
        self.v.set(VF, 0);
        let mut i: usize = 0;
        while i < rows
            invariant
                self.wf(),
                pre.wf(),
                x0 < 64,
                y0 < 32,
                rows <= n,
                y0 + rows <= 32,
                base == pre.i,
                base + rows <= CHIP8_MEM,
                i <= rows,
                self@ == (Machine { screen: self@.screen, v: self@.v, ..pre }),
                self@.v == pre.v.update(VF as int, draw_collision(pre, x0 as int, y0 as int, i as int)),
                forall|p: int| 0 <= p < SCREEN_CELLS ==> #[trigger] self@.screen[p] == (
                    if in_sprite(p, x0 as int, y0 as int, i as int) {
                        pre.screen[p] ^ bit_at(pre, p, x0 as int, y0 as int)
                    } else {
                        pre.screen[p]
                    }),
            decreases rows - i,
        {
            let pixel = self.mem[base + i];
            let mut j: usize = 0;
            while j < 8
                invariant
                    self.wf(),
                    pre.wf(),
                    x0 < 64,
                    y0 < 32,
                    y0 + rows <= 32,
                    base == pre.i,
                    base + rows <= CHIP8_MEM,
                    i < rows,
                    j <= 8,
                    pixel == pre.mem[base + i],
                    self@ == (Machine { screen: self@.screen, v: self@.v, ..pre }),
                    self@.v == pre.v.update(
                        VF as int,
                        collision_so_far(pre, x0 as int, y0 as int, i as int, j as int),
                    ),
                    forall|p: int| 0 <= p < SCREEN_CELLS ==> #[trigger] self@.screen[p] == (
                        if drawn_so_far(p, x0 as int, y0 as int, i as int, j as int) {
                            pre.screen[p] ^ bit_at(pre, p, x0 as int, y0 as int)
                        } else {
                            pre.screen[p]
                        }),
                decreases 8 - j,
            {
                if x0 + j < CHIP8_WIDTH {
                    let row = y0 + i;
                    let col = x0 + j;
                    let idx = row * CHIP8_WIDTH + col;
                    proof {
                        vstd::arithmetic::div_mod::lemma_fundamental_div_mod_converse(
                            idx as int, 64, row as int, col as int);
                    }
                    let val = (pixel >> ((7 - j) as u8)) & 1u8;
                    let cur = self.screen[idx];
                    assert(!drawn_so_far(idx as int, x0 as int, y0 as int, i as int, j as int));
                    assert(val == bit_at(pre, idx as int, x0 as int, y0 as int));
                    assert((cur ^ val) <= 1 && (val & cur) <= 1) by (bit_vector)
                        requires
                            val == (pixel >> ((7 - j) as u8)) & 1u8,
                            cur <= 1,
                    ;
                    self.v.set(VF, val & cur);
                    let ghost before = self@.screen;
                    assert(forall|p: int| 0 <= p < SCREEN_CELLS ==> #[trigger] before[p] <= 1);
                    self.screen.set(idx, cur ^ val);
                    assert forall|p: int| 0 <= p < SCREEN_CELLS implies #[trigger] self@.screen[p] <= 1 by {
                        if p != idx {
                            assert(self@.screen[p] == before[p]);
                        }
                    }
                    assert forall|p: int| 0 <= p < SCREEN_CELLS && p != idx implies
                        drawn_so_far(p, x0 as int, y0 as int, i as int, (j + 1) as int)
                            == drawn_so_far(p, x0 as int, y0 as int, i as int, j as int) by {
                        if p / 64 == row && p % 64 == col {
                            vstd::arithmetic::div_mod::lemma_fundamental_div_mod(p, 64);
                        }
                    }
                } else {
                    assert forall|p: int| 0 <= p < SCREEN_CELLS implies
                        drawn_so_far(p, x0 as int, y0 as int, i as int, (j + 1) as int)
                            == drawn_so_far(p, x0 as int, y0 as int, i as int, j as int) by {}
                }
                j = j + 1;
            }
            i = i + 1;
        }
        self.draw_flag = true;
        assert(self@.screen =~= blit(pre, x0 as int, y0 as int, rows as int));
        Ok(PcStep::Next)
    }

    fn dispatch(&mut self, ins: Instr, rnd: u8) -> (r: Result<PcStep, Chip8Error>)
        requires
            old(self).wf(),
            old(self).pc < CHIP8_MEM,
            ins.wf(),
        ensures
            final(self).wf(),
            handler_outcome(old(self)@, final(self)@, r, effect(old(self)@, ins, rnd)),
    {
        proof {
            if !(ins is Rnd) {
                lemma_effect_ignores_rnd(self@, ins, rnd);
            }
        }
        match ins {
            Instr::Cls => Ok(self.clear_display()),
            Instr::Ret => self.ret(),
            Instr::Jp(a) => Ok(self.jmp(a as usize)),
            Instr::Call(a) => self.call(a as usize),
            Instr::SeKk(x, kk) => Ok(self.skip_kk_eq(x as usize, kk)),
            Instr::SneKk(x, kk) => Ok(self.skip_kk_ne(x as usize, kk)),
            Instr::SeVy(x, y) => Ok(self.skip_vy_eq(x as usize, y as usize)),
            Instr::LdKk(x, kk) => Ok(self.load_kk(x as usize, kk)),
            Instr::AddKk(x, kk) => Ok(self.add_kk(x as usize, kk)),
            Instr::LdVy(x, y) => Ok(self.load_vy(x as usize, y as usize)),
            Instr::Or(x, y) => Ok(self.or(x as usize, y as usize)),
            Instr::And(x, y) => Ok(self.and(x as usize, y as usize)),
            Instr::Xor(x, y) => Ok(self.xor(x as usize, y as usize)),
            Instr::AddVy(x, y) => Ok(self.add_vy(x as usize, y as usize)),
            Instr::Sub(x, y) => Ok(self.sub(x as usize, y as usize)),
            Instr::Shr(x, y) => Ok(self.shr(x as usize, y as usize)),
            Instr::Subn(x, y) => Ok(self.subn(x as usize, y as usize)),
            Instr::Shl(x, y) => Ok(self.shl(x as usize, y as usize)),
            Instr::SneVy(x, y) => Ok(self.skip_vy_ne(x as usize, y as usize)),
            Instr::LdI(a) => Ok(self.load_addr(a as usize)),
            Instr::JpV0(a) => Ok(self.jmp_v0(a as usize)),
            Instr::Rnd(x, kk) => Ok(self.rand(x as usize, kk, rnd)),
            Instr::Drw(x, y, n) => self.draw(x as usize, y as usize, n as usize),
            Instr::Skp(x) => self.skip_key_eq(x as usize),
            Instr::Sknp(x) => self.skip_key_ne(x as usize),
            Instr::LdVxDt(x) => Ok(self.load_delay(x as usize)),
            Instr::LdVxK(x) => Ok(self.load_key(x as usize)),
            Instr::LdDtVx(x) => Ok(self.load_vx_delay(x as usize)),
            Instr::LdStVx(x) => Ok(self.load_vx_sound(x as usize)),
            Instr::AddI(x) => Ok(self.add_i(x as usize)),
            Instr::LdF(x) => Ok(self.load_sprite(x as usize)),
            Instr::LdB(x) => self.load_bcd(x as usize),
            Instr::LdIVx(x) => self.store_v0_vx(x as usize),
            Instr::LdVxI(x) => self.load_v0_vx(x as usize),
        }
    }

    /// Executes one decoded instruction, `rnd` standing for the random byte
    /// that `Cxkk` draws. A failure leaves the machine as it was.
    pub fn execute(&mut self, ins: Instr, rnd: u8) -> (r: Result<(), Chip8Error>)
        requires
            old(self).wf(),
            ins.wf(),
        ensures
            final(self).wf(),
            run_outcome(old(self)@, final(self)@, r, exec_spec(old(self)@, ins, rnd)),
    {
        if self.pc >= CHIP8_MEM {
            return Err(Chip8Error::AddressOutOfRange);
        }
        proof {
            lemma_effect_keeps_pc(self@, ins, rnd);
        }
        let step = self.dispatch(ins, rnd)?;
        match step {
            PcStep::Next => self.pc = self.pc + OP_SIZE,
            PcStep::Skip => self.pc = self.pc + 2 * OP_SIZE,
            PcStep::Jump(addr) => self.pc = addr,
        }
        Ok(())
    }

    /// Decodes and executes one opcode; `Cxkk` draws its byte at random.
    /// An opcode outside the instruction table fails with
    /// `UnsupportedOpcode`. A failure leaves the machine as it was.
    pub fn exec_op(&mut self, op: u16) -> (r: Result<(), Chip8Error>)
        requires
            old(self).wf(),
        ensures
            final(self).wf(),
            exists|rnd: u8| run_outcome(old(self)@, final(self)@, r, #[trigger] op_spec(old(self)@, op, rnd)),
    {
        match decode(op) {
            None => {
                assert(run_outcome(self@, self@, Err(Chip8Error::UnsupportedOpcode(op)), op_spec(self@, op, 0)));
                Err(Chip8Error::UnsupportedOpcode(op))
            },
            Some(ins) => {
                let rnd = match ins {
                    Instr::Rnd(_, _) => random_byte(),
                    _ => 0,
                };
                let r = self.execute(ins, rnd);
                assert(run_outcome(old(self)@, self@, r, op_spec(old(self)@, op, rnd)));
                r
            },
        }
    }

    /// The opcode at the program counter, high byte first; fails when the
    /// counter leaves no room for two bytes.
    pub fn get_op(&self) -> (r: Result<u16, Chip8Error>)
        requires
            self.wf(),
        ensures
            self@.pc + 1 < CHIP8_MEM <==> r is Ok,
            r matches Ok(op) ==> op == fetch_spec(self@),
            r matches Err(e) ==> e == Chip8Error::AddressOutOfRange,
    {
        if self.pc >= CHIP8_MEM - 1 {
            return Err(Chip8Error::AddressOutOfRange);
        }
        let hi = self.mem[self.pc];
        let lo = self.mem[self.pc + 1];
        let op = (hi as u16) << 8u16 | (lo as u16);
        assert(op == (hi as u16) * 256 + (lo as u16)) by (bit_vector)
            requires
                op == (hi as u16) << 8u16 | (lo as u16),
        ;
        Ok(op)
    }

    /// One fetch-decode-execute step. A failure leaves the machine as it was.
    pub fn step(&mut self) -> (r: Result<(), Chip8Error>)
        requires
            old(self).wf(),
        ensures
            final(self).wf(),
            exists|rnd: u8| run_outcome(old(self)@, final(self)@, r, #[trigger] step_spec(old(self)@, rnd)),
    {
        match self.get_op() {
            Err(e) => {
                assert(run_outcome(self@, self@, Err(e), step_spec(self@, 0)));
                Err(e)
            },
            Ok(op) => {
                let r = self.exec_op(op);
                let ghost rnd = choose|rnd: u8| run_outcome(old(self)@, self@, r, #[trigger] op_spec(old(self)@, op, rnd));
                assert(run_outcome(old(self)@, self@, r, step_spec(old(self)@, rnd)));
                r
            },
        }
    }

    /// One 60 Hz frame: the delay and sound timers count down by one unless
    /// already zero, and the beep follows the sound timer.
    pub fn frame(&mut self)
        requires
            old(self).wf(),
        ensures
            final(self).wf(),
            final(self)@ == frame_spec(old(self)@),
    {
        if self.sound > 0 {
            self.sound = self.sound - 1;
        }
        if self.delay > 0 {
            self.delay = self.delay - 1;
        }
        self.beep = self.sound > 0;
    }

    /// One host tick at time `now`: one instruction if the instruction clock
    /// is due, then one frame if the frame clock is due; each clock that
    /// fired restarts at `now`. A failing instruction is reported at once and
    /// changes nothing.
    pub fn tick(&mut self, timer: &mut Timer, clock_timer: &mut Timer, now: u64) -> (r: Result<(), Chip8Error>)
        requires
            old(self).wf(),
        ensures
            final(self).wf(),
            tick_outcome(
                old(self)@, final(self)@, r, *old(timer), *final(timer), *old(clock_timer),
                *final(clock_timer), now,
            ),
    {
        let ghost pre = self@;
        let ghost mut rnd: u8 = 0;
        if clock_timer.is_ready(CLOCK_PERIOD_NANOS) {
            let r = self.step();
            proof {
                rnd = choose|rnd: u8| run_outcome(pre, self@, r, #[trigger] step_spec(pre, rnd));
            }
            if r.is_err() {
                assert(tick_after_step(step_spec(pre, rnd), pre, self@, r, *old(timer), *timer,
                    *old(clock_timer), *clock_timer, now));
                return r;
            }
            clock_timer.reset(now);
        }
        let ghost mid = self@;
        if timer.is_ready(FRAME_PERIOD_NANOS) {
            self.frame();
            timer.reset(now);
        }
        assert(tick_frame(mid, self@, *old(timer), *timer, now));
        proof {
            if old(clock_timer).acc >= CLOCK_PERIOD_NANOS {
                assert(tick_after_step(step_spec(pre, rnd), pre, self@, Ok(()), *old(timer), *timer,
                    *old(clock_timer), *clock_timer, now));
            }
        }
        Ok(())
    }
}

/// The frame part of a tick, from `mid` to `post`.
pub open spec fn tick_frame(mid: Machine, post: Machine, timer: Timer, timer2: Timer, now: u64) -> bool {
    if timer.acc >= FRAME_PERIOD_NANOS {
        post == frame_spec(mid) && timer2 == restarted(now)
    } else {
        post == mid && timer2 == timer
    }
}

/// The rest of a tick once its step gave `stepped`.
pub open spec fn tick_after_step(
    stepped: Result<Machine, Chip8Error>,
    pre: Machine,
    post: Machine,
    r: Result<(), Chip8Error>,
    timer: Timer,
    timer2: Timer,
    clock: Timer,
    clock2: Timer,
    now: u64,
) -> bool {
    match stepped {
        Err(e) => r == Err::<(), Chip8Error>(e) && post == pre && timer2 == timer && clock2 == clock,
        Ok(mid) => r == Ok::<(), Chip8Error>(()) && clock2 == restarted(now) && tick_frame(
            mid,
            post,
            timer,
            timer2,
            now,
        ),
    }
}

/// What a tick does: with the instruction clock due, one step (which, on
/// failure, ends the tick with nothing changed); then the frame part.
pub open spec fn tick_outcome(
    pre: Machine,
    post: Machine,
    r: Result<(), Chip8Error>,
    timer: Timer,
    timer2: Timer,
    clock: Timer,
    clock2: Timer,
    now: u64,
) -> bool {
    if clock.acc >= CLOCK_PERIOD_NANOS {
        exists|rnd: u8| tick_after_step(#[trigger] step_spec(pre, rnd), pre, post, r, timer, timer2, clock, clock2, now)
    } else {
        r == Ok::<(), Chip8Error>(()) && clock2 == clock && tick_frame(pre, post, timer, timer2, now)
    }
}

} // verus!
