//! The CHIP-8 machine and its fetch-decode-execute cycle.
//!
//! [`Chip8`] owns all mutable machine state; the host drives it with two
//! independently scheduled calls: [`Chip8::tick`] at the configurable
//! instruction rate and [`Chip8::decrement_counters`] at a fixed 60 Hz.
//! Every method's effect is stated against the abstract state
//! [`AbsState`] and the specification interpreter
//! [`spec_step`](crate::semantics::spec_step).

use rand::Rng;
use vstd::prelude::*;

verus! {

use vstd::pervasive::VecAdditionalExecFns;

use crate::screen::NUM_PIXELS;
use crate::screen::SCREEN_HEIGHT;
use crate::screen::SCREEN_WIDTH;
use crate::screen::Screen;
use crate::semantics::AbsState;
use crate::semantics::FONT_BYTES;
use crate::semantics::MAX_ROM_SIZE;
use crate::semantics::MEMORY_SIZE;
use crate::semantics::NUM_KEYS;
use crate::semantics::NUM_REGISTERS;
use crate::semantics::PC_INITIAL;
use crate::semantics::STACK_SIZE;
use crate::semantics::dec_timer;
use crate::semantics::draw_origin_col;
use crate::semantics::draw_origin_row;
use crate::semantics::draw_rows_read;
use crate::semantics::draw_visited;
use crate::semantics::lemma_first_key_edge_from;
use crate::semantics::op_category;
use crate::semantics::op_n;
use crate::semantics::op_nn;
use crate::semantics::op_nnn;
use crate::semantics::op_x;
use crate::semantics::op_y;
use crate::semantics::spec_add_imm;
use crate::semantics::spec_alu;
use crate::semantics::spec_call;
use crate::semantics::spec_draw;
use crate::semantics::spec_font;
use crate::semantics::spec_jump;
use crate::semantics::spec_key_skip;
use crate::semantics::spec_misc;
use crate::semantics::spec_opcode;
use crate::semantics::spec_set_reg;
use crate::semantics::spec_skip_if;
use crate::semantics::spec_step;
use crate::semantics::spec_sys;
use crate::semantics::spec_wait;
use crate::semantics::sprite_bit;
use crate::semantics::sprite_covers;
use crate::semantics::with_keys;

/// Whether the machine is executing instructions, waiting for a fresh key
/// press to land in register `target`, or stopped for good.
#[derive(Clone, Copy, PartialEq, Eq, Structural, Debug)]
pub enum CpuStatus {
    Running,
    AwaitingKeyPress { target: u8 },
    Halted,
}

/// Everything that can go wrong while executing a CHIP-8 program.  The
/// machine reports these instead of panicking or silently corrupting state.
#[derive(Clone, Copy, PartialEq, Eq, Structural, Debug)]
pub enum Chip8Error {
    /// The fetched opcode matches no defined instruction form.
    UnknownOpcode,
    /// A return was executed with an empty call stack.
    StackUnderflow,
    /// A call was executed with all 16 stack slots in use.
    StackOverflow,
    /// A fetch, sprite row, BCD store or bulk transfer fell outside the
    /// 4096 bytes of memory.
    MemoryOutOfBounds,
    /// A key-skip instruction named a key above 0xF.
    KeyOutOfRange,
    /// A ROM image larger than the 3584 bytes of loadable memory.
    RomTooLarge,
}

/// The CHIP-8 virtual machine.
pub struct Chip8 {
    mem: Vec<u8>,
    regs: Vec<u8>,
    pc: u16,
    idx: u16,
    stack: Vec<u16>,
    sp: i8,
    sound: u8,
    delay: u8,
    keyboard: Vec<bool>,
    /// The 64x32 framebuffer, read by the display adapter.
    pub screen: Screen,
    redraw: bool,
    status: CpuStatus,
}

impl View for Chip8 {
    type V = AbsState;

    closed spec fn view(&self) -> AbsState {
        AbsState {
            mem: self.mem@,
            regs: self.regs@,
            pc: self.pc,
            idx: self.idx,
            stack: self.stack@,
            sp: self.sp as int,
            sound: self.sound,
            delay: self.delay,
            keys: self.keyboard@,
            screen: self.screen@,
            redraw: self.redraw,
            status: self.status,
        }
    }
}

impl Chip8 {
    /// The concrete machine is well-formed exactly when its abstraction is.
    pub open spec fn wf(&self) -> bool {
        self@.wf()
    }

    /// Boot a machine with the given ROM image: font at address 0, ROM at
    /// 0x200, everything else zeroed, execution about to start at 0x200.
    /// A ROM that does not fit in memory is rejected.
    pub fn new(rom: &Vec<u8>) -> (r: Result<Chip8, Chip8Error>)
        ensures
            match r {
                Ok(c) => rom@.len() <= MAX_ROM_SIZE && c.wf() && c@ == spec_boot(rom@),
                Err(e) => rom@.len() > MAX_ROM_SIZE && e == Chip8Error::RomTooLarge,
            },
    {
        if rom.len() > MAX_ROM_SIZE {
            return Err(Chip8Error::RomTooLarge);
        }
        let font = font_sprites();
        let mut mem: Vec<u8> = Vec::new();
        let mut i: usize = 0;
        while i < FONT_BYTES
            invariant
                i <= FONT_BYTES,
                font@ == spec_font(),
                mem@.len() == i,
                forall|a: int| 0 <= a < i ==> mem@[a] == spec_font()[a],
            decreases FONT_BYTES - i,
        {
            mem.push(font[i]);
            i = i + 1;
        }
        while mem.len() < MEMORY_SIZE
            invariant
                FONT_BYTES <= mem@.len() <= MEMORY_SIZE,
                forall|a: int| 0 <= a < FONT_BYTES ==> mem@[a] == spec_font()[a],
                forall|a: int| FONT_BYTES <= a < mem@.len() ==> mem@[a] == 0,
            decreases MEMORY_SIZE - mem@.len(),
        {
            mem.push(0);
        }
        let mut p: usize = 0;
        while p < rom.len()
            invariant
                p <= rom@.len(),
                rom@.len() <= MAX_ROM_SIZE,
                mem@.len() == MEMORY_SIZE,
                forall|a: int| 0 <= a < FONT_BYTES ==> mem@[a] == spec_font()[a],
                forall|a: int|
                    FONT_BYTES <= a < MEMORY_SIZE && !(PC_INITIAL <= a < PC_INITIAL + p)
                        ==> mem@[a] == 0,
                forall|a: int|
                    PC_INITIAL <= a < PC_INITIAL + p ==> mem@[a] == rom@[a - PC_INITIAL],
            decreases rom@.len() - p,
        {
            mem.set(PC_INITIAL as usize + p, rom[p]);
            p = p + 1;
        }
        let mut regs: Vec<u8> = Vec::new();
        while regs.len() < NUM_REGISTERS
            invariant
                regs@.len() <= NUM_REGISTERS,
                forall|j: int| 0 <= j < regs@.len() ==> regs@[j] == 0,
            decreases NUM_REGISTERS - regs@.len(),
        {
            regs.push(0);
        }
        let mut stack: Vec<u16> = Vec::new();
        while stack.len() < STACK_SIZE
            invariant
                stack@.len() <= STACK_SIZE,
                forall|j: int| 0 <= j < stack@.len() ==> stack@[j] == 0,
            decreases STACK_SIZE - stack@.len(),
        {
            stack.push(0);
        }
        let mut keyboard: Vec<bool> = Vec::new();
        while keyboard.len() < NUM_KEYS
            invariant
                keyboard@.len() <= NUM_KEYS,
                forall|j: int| 0 <= j < keyboard@.len() ==> !keyboard@[j],
            decreases NUM_KEYS - keyboard@.len(),
        {
            keyboard.push(false);
        }
        let c = Chip8 {
            mem,
            regs,
            pc: PC_INITIAL,
            idx: 0,
            stack,
            sp: -1,
            sound: 0,
            delay: 0,
            keyboard,
            screen: Screen::new(),
            redraw: false,
            status: CpuStatus::Running,
        };
        proof {
            assert(c@.mem =~= spec_boot(rom@).mem);
            assert(c@.regs =~= spec_boot(rom@).regs);
            assert(c@.stack =~= spec_boot(rom@).stack);
            assert(c@.keys =~= spec_boot(rom@).keys);
            assert(c@ =~= spec_boot(rom@));
        }
        Ok(c)
    }

    /// Stop the machine; a halted machine ignores every later tick.
    pub fn halt(&mut self)
        ensures
            final(self)@ == (AbsState { status: CpuStatus::Halted, ..old(self)@ }),
    {
        self.status = CpuStatus::Halted;
    }

    /// One 60 Hz timer tick: each counter decrements toward zero and stops
    /// there.  This is scheduled independently of the instruction clock, so
    /// the decrement rate never follows the instruction rate.
    pub fn decrement_counters(&mut self)
        ensures
            final(self)@ == (AbsState {
                delay: dec_timer(old(self)@.delay),
                sound: dec_timer(old(self)@.sound),
                ..old(self)@
            }),
    {
        if self.delay > 0 {
            self.delay = self.delay - 1;
        }
        if self.sound > 0 {
            self.sound = self.sound - 1;
        }
    }

    /// The current delay timer value.
    pub fn delay(&self) -> (r: u8)
        ensures
            r == self@.delay,
    {
        self.delay
    }

    /// The current sound timer value; the tone plays while it is non-zero.
    pub fn sound(&self) -> (r: u8)
        ensures
            r == self@.sound,
    {
        self.sound
    }

    /// Whether the framebuffer changed since the flag was last cleared.
    pub fn redraw(&self) -> (r: bool)
        ensures
            r == self@.redraw,
    {
        self.redraw
    }

    /// The display adapter acknowledges a redraw.
    pub fn clear_redraw(&mut self)
        ensures
            final(self)@ == (AbsState { redraw: false, ..old(self)@ }),
    {
        self.redraw = false;
    }

    /// The machine's execution status.
    pub fn status(&self) -> (r: CpuStatus)
        ensures
            r == self@.status,
    {
        self.status
    }

    /// Read register `Vi`.
    pub fn reg(&self, i: usize) -> (r: u8)
        requires
            self.wf(),
            i < NUM_REGISTERS,
        ensures
            r == self@.regs[i as int],
    {
        self.regs[i]
    }

    /// The program counter.
    pub fn pc(&self) -> (r: u16)
        ensures
            r == self@.pc,
    {
        self.pc
    }

    /// The index register `I`.
    pub fn idx(&self) -> (r: u16)
        ensures
            r == self@.idx,
    {
        self.idx
    }

    /// The stack pointer; -1 means the call stack is empty.
    pub fn sp(&self) -> (r: i8)
        ensures
            r == self@.sp,
    {
        self.sp
    }

    /// Read one byte of memory.
    pub fn read_mem(&self, addr: usize) -> (r: u8)
        requires
            self.wf(),
            addr < MEMORY_SIZE,
        ensures
            r == self@.mem[addr as int],
    {
        self.mem[addr]
    }

    /// Advance the machine by one step, consuming this tick's 16-key
    /// snapshot: execute exactly one instruction while running, watch for a
    /// fresh key press while waiting, do nothing while halted.  The snapshot
    /// is always recorded for the next step's edge detection.
    ///
    /// On success the new state is `spec_step` of the old one, for the byte
    /// the entropy source supplied.  On an error nothing but the recorded
    /// snapshot changes — in particular the program counter does not move —
    /// and the error is what `spec_step` reports whatever byte the entropy
    /// source might have supplied.  After the step, [`Chip8::redraw`] says
    /// whether the framebuffer changed and [`Chip8::sound`] whether the tone
    /// should play.
    pub fn tick(&mut self, kb: Vec<bool>) -> (r: Result<(), Chip8Error>)
        requires
            old(self).wf(),
            kb@.len() == NUM_KEYS,
        ensures
            final(self).wf(),
            match r {
                Ok(()) => exists|rnd: u8|
                    spec_step(old(self)@, kb@, rnd) == Ok::<AbsState, Chip8Error>(final(self)@),
                Err(e) => final(self)@ == with_keys(old(self)@, kb@) && forall|rnd: u8|
                    spec_step(old(self)@, kb@, rnd) == Err::<AbsState, Chip8Error>(e),
            },
    {
        let ghost pre = self@;
        let st = self.status;
        match st {
            CpuStatus::Halted => {
                self.keyboard = kb;
                proof {
                    assert(self@ =~= with_keys(pre, kb@));
                    assert(spec_step(pre, kb@, 0u8) == Ok::<AbsState, Chip8Error>(self@));
                }
                Ok(())
            },
            CpuStatus::AwaitingKeyPress { target } => {
                let mut k: usize = 0;
                let mut found: usize = NUM_KEYS;
                while k < NUM_KEYS
                    invariant
                        self@ == pre,
                        pre.wf(),
                        kb@.len() == NUM_KEYS,
                        k <= NUM_KEYS,
                        found == NUM_KEYS || (found < k && kb@[found as int]
                            && !pre.keys[found as int]),
                        forall|j: int|
                            0 <= j < (if found == NUM_KEYS {
                                k as int
                            } else {
                                found as int
                            }) ==> !(kb@[j] && !pre.keys[j]),
                    decreases NUM_KEYS - k,
                {
                    if found == NUM_KEYS && kb[k] && !self.keyboard[k] {
                        found = k;
                    }
                    k = k + 1;
                }
                proof {
                    if found < NUM_KEYS {
                        lemma_first_key_edge_from(pre.keys, kb@, 0, found as int);
                    } else {
                        lemma_first_key_edge_from(pre.keys, kb@, 0, NUM_KEYS as int);
                    }
                }
                self.keyboard = kb;
                if found < NUM_KEYS {
                    self.regs.set(target as usize, found as u8);
                    self.status = CpuStatus::Running;
                }
                proof {
                    assert(self@ =~= spec_wait(pre, kb@, target));
                    assert(spec_step(pre, kb@, 0u8) == Ok::<AbsState, Chip8Error>(self@));
                }
                Ok(())
            },
            CpuStatus::Running => {
                self.keyboard = kb;
                if self.pc as usize + 1 >= MEMORY_SIZE {
                    proof {
                        assert(self@ =~= with_keys(pre, kb@));
                    }
                    return Err(Chip8Error::MemoryOutOfBounds);
                }
                let op = self.fetch();
                let (category, x, y, n, nn, nnn) = self.decode(op);
                let ghost mid = self@;
                proof {
                    assert(mid == (AbsState { pc: (pre.pc + 2) as u16, keys: kb@, ..pre }));
                    assert(op == spec_opcode(pre));
                }
                let step: Result<(), Chip8Error> = if category == 0x0 {
                    self.category_0(op)
                } else if category == 0x1 {
                    self.category_1(nnn);
                    Ok(())
                } else if category == 0x2 {
                    self.category_2(nnn)
                } else if category == 0x3 {
                    self.category_3(x, nn);
                    Ok(())
                } else if category == 0x4 {
                    self.category_4(x, nn);
                    Ok(())
                } else if category == 0x5 {
                    if n == 0 {
                        self.category_5(x, y);
                        Ok(())
                    } else {
                        Err(Chip8Error::UnknownOpcode)
                    }
                } else if category == 0x6 {
                    self.category_6(x, nn);
                    Ok(())
                } else if category == 0x7 {
                    self.category_7(x, nn);
                    Ok(())
                } else if category == 0x8 {
                    self.category_8(x, y, n)
                } else if category == 0x9 {
                    if n == 0 {
                        self.category_9(x, y);
                        Ok(())
                    } else {
                        Err(Chip8Error::UnknownOpcode)
                    }
                } else if category == 0xA {
                    self.category_a(nnn);
                    Ok(())
                } else if category == 0xB {
                    self.category_b(nnn);
                    Ok(())
                } else if category == 0xC {
                    self.category_c(x, nn);
                    Ok(())
                } else if category == 0xD {
                    self.category_d(x, y, n)
                } else if category == 0xE {
                    self.category_e(x, nn)
                } else {
                    self.category_f(x, nn)
                };
                match step {
                    Ok(()) => {
                        proof {
                            if category == 0xC {
                                let rnd = choose|rnd: u8|
                                    self@ == (AbsState {
                                        regs: mid.regs.update(x as int, #[trigger] (rnd & nn)),
                                        ..mid
                                    });
                                assert(spec_step(pre, kb@, rnd) == Ok::<AbsState, Chip8Error>(
                                self@));
                            } else {
                                assert(spec_step(pre, kb@, 0u8) == Ok::<AbsState, Chip8Error>(
                                self@));
                            }
                        }
                        Ok(())
                    },
                    Err(e) => {
                        self.pc = self.pc - 2;
                        proof {
                            assert(self@ =~= with_keys(pre, kb@));
                            assert forall|rnd: u8|
                                spec_step(pre, kb@, rnd) == Err::<AbsState, Chip8Error>(
                                    e,
                                ) by {}
                        }
                        Err(e)
                    },
                }
            },
        }
    }

    /// Read the two bytes at `pc` big-endian into one opcode and advance
    /// `pc` past them, so jump and call targets are absolute.
    fn fetch(&mut self) -> (op: u16)
        requires
            old(self).wf(),
            old(self)@.pc + 1 < MEMORY_SIZE,
        ensures
            final(self).wf(),
            op == spec_opcode(old(self)@),
            final(self)@ == (AbsState { pc: (old(self)@.pc + 2) as u16, ..old(self)@ }),
    {
        let hi = self.mem[self.pc as usize];
        let lo = self.mem[self.pc as usize + 1];
        proof {
            let h = hi as u16;
            assert(h << 8 == h * 256) by (bit_vector)
                requires
                    h < 256,
            ;
        }
        let op: u16 = ((hi as u16) << 8) + (lo as u16);
        self.pc = self.pc + 2;
        op
    }

    /// Split an opcode into its fixed fields: category nibble, the two
    /// register indices, and the 4-, 8- and 12-bit immediates.
    fn decode(&self, instruction: u16) -> (r: (u8, u8, u8, u8, u8, u16))
        ensures
            r.0 == op_category(instruction),
            r.1 == op_x(instruction),
            r.2 == op_y(instruction),
            r.3 == op_n(instruction),
            r.4 == op_nn(instruction),
            r.5 == op_nnn(instruction),
            r.0 < 16,
            r.1 < 16,
            r.2 < 16,
            r.3 < 16,
            r.5 <= 0xFFF,
    {
        let category: u8 = (instruction >> 12) as u8;
        let x: u8 = ((instruction & 0x0F00) >> 8) as u8;
        let y: u8 = ((instruction & 0x00F0) >> 4) as u8;
        let n: u8 = (instruction & 0x000F) as u8;
        let nn: u8 = (instruction & 0x00FF) as u8;
        let nnn: u16 = instruction & 0x0FFF;
        proof {
            let op = instruction;
            assert((op >> 12) < 16 && ((op & 0x0F00) >> 8) < 16 && ((op & 0x00F0) >> 4) < 16 && (
            op & 0x000F) < 16 && (op & 0x0FFF) <= 0xFFF) by (bit_vector);
        }
        (category, x, y, n, nn, nnn)
    }

    /// `0x00E0` / `0x00EE`: clear the screen, or return from a call.
    fn category_0(&mut self, op: u16) -> (r: Result<(), Chip8Error>)
        requires
            old(self).wf(),
        ensures
            final(self).wf(),
            match r {
                Ok(()) => spec_sys(old(self)@, op) == Ok::<AbsState, Chip8Error>(final(self)@),
                Err(e) => final(self)@ == old(self)@ && spec_sys(old(self)@, op) == Err::<
                    AbsState,
                    Chip8Error,
                >(e),
            },
    {
        if op == 0x00E0 {
            self.screen.clear_screen();
            self.redraw = true;
            Ok(())
        } else if op == 0x00EE {
            if self.sp < 0 {
                return Err(Chip8Error::StackUnderflow);
            }
            self.pc = self.stack[self.sp as usize];
            self.sp = self.sp - 1;
            Ok(())
        } else {
            Err(Chip8Error::UnknownOpcode)
        }
    }

    /// `0x1nnn`: jump.
    fn category_1(&mut self, nnn: u16)
        requires
            old(self).wf(),
        ensures
            final(self).wf(),
            final(self)@ == spec_jump(old(self)@, nnn),
    {
        self.pc = nnn;
    }

    /// `0x2nnn`: call a subroutine.
    fn category_2(&mut self, nnn: u16) -> (r: Result<(), Chip8Error>)
        requires
            old(self).wf(),
        ensures
            final(self).wf(),
            match r {
                Ok(()) => spec_call(old(self)@, nnn) == Ok::<AbsState, Chip8Error>(final(self)@),
                Err(e) => final(self)@ == old(self)@ && spec_call(old(self)@, nnn) == Err::<
                    AbsState,
                    Chip8Error,
                >(e),
            },
    {
        if self.sp >= STACK_SIZE as i8 - 1 {
            return Err(Chip8Error::StackOverflow);
        }
        self.sp = self.sp + 1;
        self.stack.set(self.sp as usize, self.pc);
        self.pc = nnn;
        Ok(())
    }

    /// Skip the next instruction when `cond` holds; shared by the four
    /// conditional-skip categories.
    fn skip_if(&mut self, cond: bool)
        requires
            old(self).wf(),
            old(self)@.pc + 2 <= u16::MAX,
        ensures
            final(self).wf(),
            final(self)@ == spec_skip_if(old(self)@, cond),
    {
        if cond {
            self.pc = self.pc + 2;
        }
    }

    /// `0x3xnn`: skip if `Vx == nn`.
    fn category_3(&mut self, x: u8, nn: u8)
        requires
            old(self).wf(),
            x < NUM_REGISTERS,
            old(self)@.pc + 2 <= u16::MAX,
        ensures
            final(self).wf(),
            final(self)@ == spec_skip_if(old(self)@, old(self)@.regs[x as int] == nn),
    {
        let xval: u8 = self.regs[x as usize];
        self.skip_if(xval == nn);
    }

    /// `0x4xnn`: skip if `Vx != nn`.
    fn category_4(&mut self, x: u8, nn: u8)
        requires
            old(self).wf(),
            x < NUM_REGISTERS,
            old(self)@.pc + 2 <= u16::MAX,
        ensures
            final(self).wf(),
            final(self)@ == spec_skip_if(old(self)@, old(self)@.regs[x as int] != nn),
    {
        let xval: u8 = self.regs[x as usize];
        self.skip_if(xval != nn);
    }

    /// `0x5xy0`: skip if `Vx == Vy`.
    fn category_5(&mut self, x: u8, y: u8)
        requires
            old(self).wf(),
            x < NUM_REGISTERS,
            y < NUM_REGISTERS,
            old(self)@.pc + 2 <= u16::MAX,
        ensures
            final(self).wf(),
            final(self)@ == spec_skip_if(
                old(self)@,
                old(self)@.regs[x as int] == old(self)@.regs[y as int],
            ),
    {
        let xval: u8 = self.regs[x as usize];
        let yval: u8 = self.regs[y as usize];
        self.skip_if(xval == yval);
    }

    /// `0x6xnn`: load an immediate into `Vx`.
    fn category_6(&mut self, x: u8, nn: u8)
        requires
            old(self).wf(),
            x < NUM_REGISTERS,
        ensures
            final(self).wf(),
            final(self)@ == spec_set_reg(old(self)@, x, nn),
    {
        self.regs.set(x as usize, nn);
    }

    /// `0x7xnn`: add an immediate to `Vx`, wrapping, without touching `VF`.
    fn category_7(&mut self, x: u8, nn: u8)
        requires
            old(self).wf(),
            x < NUM_REGISTERS,
        ensures
            final(self).wf(),
            final(self)@ == spec_add_imm(old(self)@, x, nn),
    {
        let sum: u16 = self.regs[x as usize] as u16 + nn as u16;
        self.regs.set(x as usize, (sum % 256) as u8);
    }

    /// `0x9xy0`: skip if `Vx != Vy`.
    fn category_9(&mut self, x: u8, y: u8)
        requires
            old(self).wf(),
            x < NUM_REGISTERS,
            y < NUM_REGISTERS,
            old(self)@.pc + 2 <= u16::MAX,
        ensures
            final(self).wf(),
            final(self)@ == spec_skip_if(
                old(self)@,
                old(self)@.regs[x as int] != old(self)@.regs[y as int],
            ),
    {
        let xval: u8 = self.regs[x as usize];
        let yval: u8 = self.regs[y as usize];
        self.skip_if(xval != yval);
    }

    /// `0xAnnn`: load the index register.
    fn category_a(&mut self, nnn: u16)
        requires
            old(self).wf(),
        ensures
            final(self).wf(),
            final(self)@ == (AbsState { idx: nnn, ..old(self)@ }),
    {
        self.idx = nnn;
    }

    /// `0xBnnn`: jump to `V0 + nnn`.
    fn category_b(&mut self, nnn: u16)
        requires
            old(self).wf(),
            nnn <= 0xFFF,
        ensures
            final(self).wf(),
            final(self)@ == (AbsState { pc: (old(self)@.regs[0] + nnn) as u16, ..old(self)@ }),
    {
        self.pc = (self.regs[0] as u16) + nnn;
    }

    /// `0xCxnn`: a random byte masked by `nn`.
    fn category_c(&mut self, x: u8, nn: u8)
        requires
            old(self).wf(),
            x < NUM_REGISTERS,
        ensures
            final(self).wf(),
            exists|rnd: u8|
                final(self)@ == (AbsState {
                    regs: old(self)@.regs.update(x as int, #[trigger] (rnd & nn)),
                    ..old(self)@
                }),
    {
        let rnum: u8 = random_byte();
        self.regs.set(x as usize, rnum & nn);
        proof {
            assert(self@ == (AbsState {
                regs: old(self)@.regs.update(x as int, rnum & nn),
                ..old(self)@
            }));
        }
    }

    /// `0x8xyn`: the register-register ALU operations.
    fn category_8(&mut self, x: u8, y: u8, n: u8) -> (r: Result<(), Chip8Error>)
        requires
            old(self).wf(),
            x < NUM_REGISTERS,
            y < NUM_REGISTERS,
        ensures
            final(self).wf(),
            match r {
                Ok(()) => spec_alu(old(self)@, x, y, n) == Ok::<AbsState, Chip8Error>(
                    final(self)@,
                ),
                Err(e) => final(self)@ == old(self)@ && spec_alu(old(self)@, x, y, n) == Err::<
                    AbsState,
                    Chip8Error,
                >(e),
            },
    {
        if n == 0x0 {
            let yval = self.regs[y as usize];
            self.regs.set(x as usize, yval);
            Ok(())
        } else if n == 0x1 {
            let v = self.regs[x as usize] | self.regs[y as usize];
            self.regs.set(x as usize, v);
            Ok(())
        } else if n == 0x2 {
            let v = self.regs[x as usize] & self.regs[y as usize];
            self.regs.set(x as usize, v);
            Ok(())
        } else if n == 0x3 {
            let v = self.regs[x as usize] ^ self.regs[y as usize];
            self.regs.set(x as usize, v);
            Ok(())
        } else if n == 0x4 {
            let sum: u16 = self.regs[x as usize] as u16 + self.regs[y as usize] as u16;
            self.regs.set(x as usize, (sum % 256) as u8);
            if sum > 255 {
                self.regs.set(0xF, 1);
            } else {
                self.regs.set(0xF, 0);
            }
            Ok(())
        } else if n == 0x5 {
            let xval = self.regs[x as usize];
            let yval = self.regs[y as usize];
            if xval > yval {
                self.regs.set(0xF, 1);
            } else {
                self.regs.set(0xF, 0);
            }
            let diff: u16 = (xval as u16 + 256) - yval as u16;
            self.regs.set(x as usize, (diff % 256) as u8);
            Ok(())
        } else if n == 0x6 {
            let flag = self.regs[x as usize] & 0x1;
            self.regs.set(0xF, flag);
            let v = self.regs[x as usize] >> 1u8;
            self.regs.set(x as usize, v);
            Ok(())
        } else if n == 0x7 {
            let xval = self.regs[x as usize];
            let yval = self.regs[y as usize];
            if yval > xval {
                self.regs.set(0xF, 1);
            } else {
                self.regs.set(0xF, 0);
            }
            let diff: u16 = (yval as u16 + 256) - xval as u16;
            self.regs.set(x as usize, (diff % 256) as u8);
            Ok(())
        } else if n == 0xE {
            let flag = (self.regs[x as usize] & 0xA0) >> 7u8;
            self.regs.set(0xF, flag);
            let v = self.regs[x as usize] << 1u8;
            self.regs.set(x as usize, v);
            Ok(())
        } else {
            Err(Chip8Error::UnknownOpcode)
        }
    }

    /// `0xDxyn`: XOR an 8-wide, `n`-tall sprite onto the screen at
    /// `(Vx mod 64, Vy mod 32)`, clipping at the right and bottom edges, and
    /// set `VF` to 1 exactly when some pixel flips from on to off.
    fn category_d(&mut self, x: u8, y: u8, n: u8) -> (r: Result<(), Chip8Error>)
        requires
            old(self).wf(),
            x < NUM_REGISTERS,
            y < NUM_REGISTERS,
            n < 16,
        ensures
            final(self).wf(),
            match r {
                Ok(()) => spec_draw(old(self)@, x, y, n) == Ok::<AbsState, Chip8Error>(
                    final(self)@,
                ),
                Err(e) => final(self)@ == old(self)@ && spec_draw(old(self)@, x, y, n) == Err::<
                    AbsState,
                    Chip8Error,
                >(e),
            },
    {
        let xc: usize = (self.regs[x as usize] as usize) % SCREEN_WIDTH;
        let yc: usize = (self.regs[y as usize] as usize) % SCREEN_HEIGHT;
        let rows: usize = if (n as usize) < SCREEN_HEIGHT - yc {
            n as usize
        } else {
            SCREEN_HEIGHT - yc
        };
        if rows > 0 && self.idx as usize + rows > MEMORY_SIZE {
            return Err(Chip8Error::MemoryOutOfBounds);
        }
        let ghost pre = self@;
        let ghost xci = xc as int;
        let ghost yci = yc as int;
        proof {
            assert(xci == draw_origin_col(pre, x));
            assert(yci == draw_origin_row(pre, y));
            assert(rows == draw_rows_read(n, yci));
        }
        let mut collision: bool = false;
        let mut row_i: usize = 0;
        while row_i < rows
            invariant
                pre.wf(),
                self@ == (AbsState { screen: self@.screen, ..pre }),
                self@.screen.len() == NUM_PIXELS,
                x < NUM_REGISTERS,
                y < NUM_REGISTERS,
                n < 16,
                xci == xc as int,
                yci == yc as int,
                0 <= xci < SCREEN_WIDTH,
                0 <= yci < SCREEN_HEIGHT,
                xci == draw_origin_col(pre, x),
                yci == draw_origin_row(pre, y),
                rows == draw_rows_read(n, yci),
                rows <= SCREEN_HEIGHT - yc,
                rows > 0 ==> pre.idx + rows <= MEMORY_SIZE,
                row_i <= rows,
                forall|p: int|
                    0 <= p < NUM_PIXELS ==> self@.screen[p] == (if draw_visited(
                        xci,
                        yci,
                        n,
                        row_i as int,
                        0,
                        p,
                    ) && sprite_bit(pre.mem, pre.idx, xci, yci, p) {
                        !pre.screen[p]
                    } else {
                        pre.screen[p]
                    }),
                collision == exists|p: int|
                    0 <= p < NUM_PIXELS && #[trigger] draw_visited(xci, yci, n, row_i as int, 0, p)
                        && sprite_bit(pre.mem, pre.idx, xci, yci, p) && pre.screen[p],
            decreases rows - row_i,
        {
            let line: u8 = self.mem[self.idx as usize + row_i];
            let mut c: usize = 0;
            while c < 8
                invariant
                    pre.wf(),
                    self@ == (AbsState { screen: self@.screen, ..pre }),
                    self@.screen.len() == NUM_PIXELS,
                    xci == xc as int,
                    yci == yc as int,
                    0 <= xci < SCREEN_WIDTH,
                    0 <= yci < SCREEN_HEIGHT,
                    rows == draw_rows_read(n, yci),
                    rows <= SCREEN_HEIGHT - yc,
                    n < 16,
                    rows > 0 ==> pre.idx + rows <= MEMORY_SIZE,
                    row_i < rows,
                    line == pre.mem[pre.idx + row_i],
                    c <= 8,
                    forall|p: int|
                        0 <= p < NUM_PIXELS ==> self@.screen[p] == (if draw_visited(
                            xci,
                            yci,
                            n,
                            row_i as int,
                            c as int,
                            p,
                        ) && sprite_bit(pre.mem, pre.idx, xci, yci, p) {
                            !pre.screen[p]
                        } else {
                            pre.screen[p]
                        }),
                    collision == exists|p: int|
                        0 <= p < NUM_PIXELS && #[trigger] draw_visited(
                            xci,
                            yci,
                            n,
                            row_i as int,
                            c as int,
                            p,
                        ) && sprite_bit(pre.mem, pre.idx, xci, yci, p) && pre.screen[p],
                decreases 8 - c,
            {
                if xc + c < SCREEN_WIDTH {
                    let p: usize = xc + c + (yc + row_i) * SCREEN_WIDTH;
                    proof {
                        assert((xci + c + (yci + row_i) * 64) / 64 == yci + row_i && (xci + c + (
                        yci + row_i) * 64) % 64 == xci + c) by (nonlinear_arith)
                            requires
                                0 <= xci + c < 64,
                                0 <= yci + row_i,
                        ;
                        assert(sprite_covers(xci, yci, n, p as int));
                    }
                    let bit: bool = ((line >> ((7 - c) as u8)) & 1) == 1;
                    let cur: bool = self.screen.get_pixel(p);
                    let newpix: bool = cur != bit;
                    proof {
                        assert(bit == sprite_bit(pre.mem, pre.idx, xci, yci, p as int));
                        assert(!draw_visited(xci, yci, n, row_i as int, c as int, p as int));
                        assert(cur == pre.screen[p as int]);
                    }
                    if cur && bit {
                        collision = true;
                    }
                    self.screen.set_pixel(p, newpix);
                    proof {
                        assert forall|q: int| 0 <= q < NUM_PIXELS && q != p implies
                            draw_visited(xci, yci, n, row_i as int, c as int + 1, q)
                                == draw_visited(xci, yci, n, row_i as int, c as int, q) by {
                            if q / 64 == yci + row_i && q % 64 == xci + c {
                                assert(q == 64 * (q / 64) + q % 64);
                                assert(q == p);
                            }
                        }
                        assert(draw_visited(xci, yci, n, row_i as int, c as int + 1, p as int));
                    }
                } else {
                    proof {
                        assert forall|q: int| 0 <= q < NUM_PIXELS implies
                            draw_visited(xci, yci, n, row_i as int, c as int + 1, q)
                                == draw_visited(xci, yci, n, row_i as int, c as int, q) by {
                            assert(q % 64 < 64);
                        }
                    }
                }
                c = c + 1;
            }
            proof {
                assert forall|q: int| 0 <= q < NUM_PIXELS implies
                    draw_visited(xci, yci, n, row_i as int + 1, 0, q)
                        == draw_visited(xci, yci, n, row_i as int, 8, q) by {}
            }
            row_i = row_i + 1;
        }
        proof {
            assert forall|q: int| 0 <= q < NUM_PIXELS implies
                draw_visited(xci, yci, n, rows as int, 0, q)
                    == sprite_covers(xci, yci, n, q) by {
                assert(0 <= q / 64 < 32);
            }
        }
        if collision {
            self.regs.set(0xF, 1);
        } else {
            self.regs.set(0xF, 0);
        }
        self.redraw = true;
        proof {
            let target = spec_draw(pre, x, y, n)->Ok_0;
            assert(self@.screen =~= target.screen);
            assert(self@.regs =~= target.regs);
            assert(self@ =~= target);
        }
        Ok(())
    }

    /// `0xEx9E` / `0xExA1`: skip on the state of key `Vx` in the snapshot
    /// recorded by this tick.
    fn category_e(&mut self, x: u8, nn: u8) -> (r: Result<(), Chip8Error>)
        requires
            old(self).wf(),
            x < NUM_REGISTERS,
            old(self)@.pc + 2 <= u16::MAX,
        ensures
            final(self).wf(),
            match r {
                Ok(()) => spec_key_skip(old(self)@, x, nn) == Ok::<AbsState, Chip8Error>(
                    final(self)@,
                ),
                Err(e) => final(self)@ == old(self)@ && spec_key_skip(old(self)@, x, nn)
                    == Err::<AbsState, Chip8Error>(e),
            },
    {
        if nn != 0x9E && nn != 0xA1 {
            return Err(Chip8Error::UnknownOpcode);
        }
        let xval = self.regs[x as usize];
        if xval >= NUM_KEYS as u8 {
            return Err(Chip8Error::KeyOutOfRange);
        }
        let held = self.keyboard[xval as usize];
        if nn == 0x9E {
            self.skip_if(held);
        } else {
            self.skip_if(!held);
        }
        Ok(())
    }

    /// `0xFxnn`: timers, index arithmetic, key wait, font addressing, BCD,
    /// and the bulk register transfers.
    fn category_f(&mut self, x: u8, nn: u8) -> (r: Result<(), Chip8Error>)
        requires
            old(self).wf(),
            x < NUM_REGISTERS,
        ensures
            final(self).wf(),
            match r {
                Ok(()) => spec_misc(old(self)@, x, nn) == Ok::<AbsState, Chip8Error>(
                    final(self)@,
                ),
                Err(e) => final(self)@ == old(self)@ && spec_misc(old(self)@, x, nn) == Err::<
                    AbsState,
                    Chip8Error,
                >(e),
            },
    {
        if nn == 0x07 {
            let d = self.delay;
            self.regs.set(x as usize, d);
            Ok(())
        } else if nn == 0x15 {
            self.delay = self.regs[x as usize];
            Ok(())
        } else if nn == 0x18 {
            self.sound = self.regs[x as usize];
            Ok(())
        } else if nn == 0x1E {
            let sum: u32 = self.idx as u32 + self.regs[x as usize] as u32;
            self.idx = (sum % 0x10000) as u16;
            Ok(())
        } else if nn == 0x0A {
            self.status = CpuStatus::AwaitingKeyPress { target: x };
            Ok(())
        } else if nn == 0x29 {
            self.idx = (self.regs[x as usize] as u16) * 5;
            Ok(())
        } else if nn == 0x33 {
            if self.idx as usize + 2 >= MEMORY_SIZE {
                return Err(Chip8Error::MemoryOutOfBounds);
            }
            let xval = self.regs[x as usize];
            let ones = xval % 10;
            let tens = (xval / 10) % 10;
            let hundreds = xval / 100;
            self.mem.set(self.idx as usize, hundreds);
            self.mem.set(self.idx as usize + 1, tens);
            self.mem.set(self.idx as usize + 2, ones);
            Ok(())
        } else if nn == 0x55 {
            if self.idx as usize + x as usize >= MEMORY_SIZE {
                return Err(Chip8Error::MemoryOutOfBounds);
            }
            let ghost pre = self@;
            let mut i: usize = 0;
            while i <= x as usize
                invariant
                    self@ == (AbsState { mem: self@.mem, ..pre }),
                    pre.wf(),
                    self@.mem.len() == MEMORY_SIZE,
                    x < NUM_REGISTERS,
                    i <= x as usize + 1,
                    pre.idx + x < MEMORY_SIZE,
                    forall|a: int|
                        0 <= a < MEMORY_SIZE && !(pre.idx <= a < pre.idx + i) ==> self@.mem[a]
                            == pre.mem[a],
                    forall|a: int|
                        pre.idx <= a < pre.idx + i ==> self@.mem[a] == pre.regs[a - pre.idx],
                decreases x as usize + 1 - i,
            {
                let v = self.regs[i];
                self.mem.set(self.idx as usize + i, v);
                i = i + 1;
            }
            proof {
                let target = spec_misc(pre, x, nn)->Ok_0;
                assert(self@.mem =~= target.mem);
                assert(self@ =~= target);
            }
            Ok(())
        } else if nn == 0x65 {
            if self.idx as usize + x as usize >= MEMORY_SIZE {
                return Err(Chip8Error::MemoryOutOfBounds);
            }
            let ghost pre = self@;
            let mut i: usize = 0;
            while i <= x as usize
                invariant
                    self@ == (AbsState { regs: self@.regs, ..pre }),
                    pre.wf(),
                    self@.regs.len() == NUM_REGISTERS,
                    x < NUM_REGISTERS,
                    i <= x as usize + 1,
                    pre.idx + x < MEMORY_SIZE,
                    forall|j: int| i <= j < NUM_REGISTERS ==> self@.regs[j] == pre.regs[j],
                    forall|j: int| 0 <= j < i ==> self@.regs[j] == pre.mem[pre.idx + j],
                decreases x as usize + 1 - i,
            {
                let v = self.mem[self.idx as usize + i];
                self.regs.set(i, v);
                i = i + 1;
            }
            proof {
                let target = spec_misc(pre, x, nn)->Ok_0;
                assert(self@.regs =~= target.regs);
                assert(self@ =~= target);
            }
            Ok(())
        } else {
            Err(Chip8Error::UnknownOpcode)
        }
    }
}

/// Relies on `rand::Rng::gen_range` over `rand::thread_rng`: a draw from the
/// uniform integer range `[0, 256)`, cast losslessly to a byte.  Nothing is
/// assumed about the value.
#[verifier::external_body]
fn random_byte() -> u8 {
    rand::thread_rng().gen_range(0, 256) as u8
}

/// The memory image right after boot: font, then zeroes, then the ROM at
/// 0x200, then zeroes.
pub open spec fn spec_boot_mem(rom: Seq<u8>) -> Seq<u8> {
    Seq::new(
        MEMORY_SIZE as nat,
        |a: int|
            if a < FONT_BYTES {
                spec_font()[a]
            } else if PC_INITIAL <= a < PC_INITIAL + rom.len() {
                rom[a - PC_INITIAL]
            } else {
                0
            },
    )
}

/// The whole machine right after boot.
pub open spec fn spec_boot(rom: Seq<u8>) -> AbsState {
    AbsState {
        mem: spec_boot_mem(rom),
        regs: Seq::new(NUM_REGISTERS as nat, |i: int| 0u8),
        pc: PC_INITIAL,
        idx: 0,
        stack: Seq::new(STACK_SIZE as nat, |i: int| 0u16),
        sp: -1,
        sound: 0,
        delay: 0,
        keys: Seq::new(NUM_KEYS as nat, |i: int| false),
        screen: Seq::new(NUM_PIXELS as nat, |p: int| false),
        redraw: false,
        status: CpuStatus::Running,
    }
}

/// The built-in font: one 8x5 glyph for each hex digit, packed 5 bytes per
/// glyph, living at addresses 0x000..0x050.
fn font_sprites() -> (f: Vec<u8>)
    ensures
        f@ == spec_font(),
{
    let mut f: Vec<u8> = Vec::new();
    f.push(0xF0);
    f.push(0x90);
    f.push(0x90);
    f.push(0x90);
    f.push(0xF0);
    f.push(0x20);
    f.push(0x60);
    f.push(0x20);
    f.push(0x20);
    f.push(0x70);
    f.push(0xF0);
    f.push(0x10);
    f.push(0xF0);
    f.push(0x80);
    f.push(0xF0);
    f.push(0xF0);
    f.push(0x10);
    f.push(0xF0);
    f.push(0x10);
    f.push(0xF0);
    f.push(0x90);
    f.push(0x90);
    f.push(0xF0);
    f.push(0x10);
    f.push(0x10);
    f.push(0xF0);
    f.push(0x80);
    f.push(0xF0);
    f.push(0x10);
    f.push(0xF0);
    f.push(0xF0);
    f.push(0x80);
    f.push(0xF0);
    f.push(0x90);
    f.push(0xF0);
    f.push(0xF0);
    f.push(0x10);
    f.push(0x20);
    f.push(0x40);
    f.push(0x40);
    f.push(0xF0);
    f.push(0x90);
    f.push(0xF0);
    f.push(0x90);
    f.push(0xF0);
    f.push(0xF0);
    f.push(0x90);
    f.push(0xF0);
    f.push(0x10);
    f.push(0xF0);
    f.push(0xF0);
    f.push(0x90);
    f.push(0xF0);
    f.push(0x90);
    f.push(0x90);
    f.push(0xE0);
    f.push(0x90);
    f.push(0xE0);
    f.push(0x90);
    f.push(0xE0);
    f.push(0xF0);
    f.push(0x80);
    f.push(0x80);
    f.push(0x80);
    f.push(0xF0);
    f.push(0xE0);
    f.push(0x90);
    f.push(0x90);
    f.push(0x90);
    f.push(0xE0);
    f.push(0xF0);
    f.push(0x80);
    f.push(0xF0);
    f.push(0x80);
    f.push(0xF0);
    f.push(0xF0);
    f.push(0x80);
    f.push(0xF0);
    f.push(0x80);
    f.push(0x80);
    proof {
        assert(f@ =~= spec_font());
    }
    f
}

} // verus!
