//! The mathematical model of the CHIP-8 machine.
//!
//! [`AbsState`] is the abstract machine state; [`spec_step`] is the
//! specification-level interpreter: it maps one abstract state, one keypad
//! snapshot and the byte drawn by the random-number instruction to either the
//! next abstract state or the error that the concrete machine reports.  The
//! executable machine in [`crate::chip8`] is proved to follow `spec_step`
//! exactly, and the theorems in [`crate::laws`] are stated over it.
//!
//! Opcode forms that the instruction set does not define (a `0x0nnn` other
//! than `0x00E0`/`0x00EE`, a `0x5xyn`/`0x9xyn` with `n != 0`, an unassigned
//! `0x8xyn`, `0xExnn` or `0xFxnn`) are decode errors: the machine reports
//! them instead of guessing.  Stack overflow, stack underflow and every
//! out-of-range memory or keypad access are likewise reported as typed
//! errors rather than left undefined.

use vstd::prelude::*;

verus! {

use crate::chip8::{Chip8Error, CpuStatus};
use crate::screen::NUM_PIXELS;
use crate::screen::SCREEN_HEIGHT;
use crate::screen::SCREEN_WIDTH;

/// Bytes of addressable memory.
pub const MEMORY_SIZE: usize = 4096;

/// Number of general-purpose 8-bit registers.
pub const NUM_REGISTERS: usize = 16;

/// Depth of the call stack.
pub const STACK_SIZE: usize = 16;

/// Number of logical keypad keys.
pub const NUM_KEYS: usize = 16;

/// Address at which execution starts and ROM images are loaded.
pub const PC_INITIAL: u16 = 0x200;

/// Largest ROM image that fits between `PC_INITIAL` and the end of memory.
pub const MAX_ROM_SIZE: usize = 3584;

/// Size of the built-in font: 16 glyphs of 5 bytes each.
pub const FONT_BYTES: usize = 80;

/// The built-in font sprites: 16 glyphs of 5 bytes, one per hex digit.
pub open spec fn spec_font() -> Seq<u8> {
    seq![
        0xF0u8, 0x90, 0x90, 0x90, 0xF0,  // 0
        0x20, 0x60, 0x20, 0x20, 0x70,  // 1
        0xF0, 0x10, 0xF0, 0x80, 0xF0,  // 2
        0xF0, 0x10, 0xF0, 0x10, 0xF0,  // 3
        0x90, 0x90, 0xF0, 0x10, 0x10,  // 4
        0xF0, 0x80, 0xF0, 0x10, 0xF0,  // 5
        0xF0, 0x80, 0xF0, 0x90, 0xF0,  // 6
        0xF0, 0x10, 0x20, 0x40, 0x40,  // 7
        0xF0, 0x90, 0xF0, 0x90, 0xF0,  // 8
        0xF0, 0x90, 0xF0, 0x10, 0xF0,  // 9
        0xF0, 0x90, 0xF0, 0x90, 0x90,  // A
        0xE0, 0x90, 0xE0, 0x90, 0xE0,  // B
        0xF0, 0x80, 0x80, 0x80, 0xF0,  // C
        0xE0, 0x90, 0x90, 0x90, 0xE0,  // D
        0xF0, 0x80, 0xF0, 0x80, 0xF0,  // E
        0xF0, 0x80, 0xF0, 0x80, 0x80,  // F
    ]
}

/// The abstract state of the machine: what a CHIP-8 program can observe.
///
/// `keys` is the keypad snapshot seen by the most recent step; the engine
/// keeps it so that the wait-for-key instruction can compare consecutive
/// snapshots and react only to a fresh key press.
#[verifier::ext_equal]
pub ghost struct AbsState {
    pub mem: Seq<u8>,
    pub regs: Seq<u8>,
    pub pc: u16,
    pub idx: u16,
    pub stack: Seq<u16>,
    pub sp: int,
    pub sound: u8,
    pub delay: u8,
    pub keys: Seq<bool>,
    pub screen: Seq<bool>,
    pub redraw: bool,
    pub status: CpuStatus,
}

impl AbsState {
    /// Well-formedness: the sizes of every component, the stack pointer's
    /// range (-1 marks an empty stack), and a register index for a pending
    /// key wait.
    pub open spec fn wf(self) -> bool {
        &&& self.mem.len() == MEMORY_SIZE
        &&& self.regs.len() == NUM_REGISTERS
        &&& self.stack.len() == STACK_SIZE
        &&& self.keys.len() == NUM_KEYS
        &&& self.screen.len() == NUM_PIXELS
        &&& -1 <= self.sp < STACK_SIZE
        &&& (self.status matches CpuStatus::AwaitingKeyPress { target } ==> target
            < NUM_REGISTERS)
    }
}

/// The same state with a new keypad snapshot recorded.
pub open spec fn with_keys(s: AbsState, keys: Seq<bool>) -> AbsState {
    AbsState { keys, ..s }
}

/// Top nibble of an opcode: selects the instruction category.
pub open spec fn op_category(op: u16) -> u8 {
    (op >> 12) as u8
}

/// Second nibble: the first register index.
pub open spec fn op_x(op: u16) -> u8 {
    ((op & 0x0F00) >> 8) as u8
}

/// Third nibble: the second register index.
pub open spec fn op_y(op: u16) -> u8 {
    ((op & 0x00F0) >> 4) as u8
}

/// Low nibble: a 4-bit immediate or secondary discriminant.
pub open spec fn op_n(op: u16) -> u8 {
    (op & 0x000F) as u8
}

/// Low byte: an 8-bit immediate or secondary discriminant.
pub open spec fn op_nn(op: u16) -> u8 {
    (op & 0x00FF) as u8
}

/// Low 12 bits: an address.
pub open spec fn op_nnn(op: u16) -> u16 {
    op & 0x0FFF
}

/// The big-endian 16-bit opcode stored at the program counter.
pub open spec fn spec_opcode(s: AbsState) -> u16 {
    (s.mem[s.pc as int] * 256 + s.mem[s.pc as int + 1]) as u16
}

/// The opcode assembled from its two bytes, high byte first.
pub open spec fn opcode_of(hi: u8, lo: u8) -> u16 {
    ((hi as u16) << 8) | (lo as u16)
}

/// One 60 Hz timer tick: a counter decrements toward zero and stops there.
pub open spec fn dec_timer(t: u8) -> u8 {
    if t > 0 {
        (t - 1) as u8
    } else {
        0
    }
}

/// `0x00E0`: clear the framebuffer.  The frame is marked dirty so the
/// display adapter redraws the now-blank screen.
pub open spec fn spec_clear(s: AbsState) -> AbsState {
    AbsState { screen: Seq::new(NUM_PIXELS as nat, |p: int| false), redraw: true, ..s }
}

/// `0x00EE`: return from a subroutine, popping the saved program counter.
pub open spec fn spec_return(s: AbsState) -> Result<AbsState, Chip8Error> {
    if s.sp < 0 {
        Err(Chip8Error::StackUnderflow)
    } else {
        Ok(AbsState { pc: s.stack[s.sp], sp: s.sp - 1, ..s })
    }
}

/// Category 0: only the two concrete forms `0x00E0` and `0x00EE` exist.
pub open spec fn spec_sys(s: AbsState, op: u16) -> Result<AbsState, Chip8Error> {
    if op == 0x00E0 {
        Ok(spec_clear(s))
    } else if op == 0x00EE {
        spec_return(s)
    } else {
        Err(Chip8Error::UnknownOpcode)
    }
}

/// `0x1nnn`: unconditional jump.
pub open spec fn spec_jump(s: AbsState, nnn: u16) -> AbsState {
    AbsState { pc: nnn, ..s }
}

/// `0x2nnn`: call a subroutine, pushing the address of the next instruction.
pub open spec fn spec_call(s: AbsState, nnn: u16) -> Result<AbsState, Chip8Error> {
    if s.sp >= STACK_SIZE - 1 {
        Err(Chip8Error::StackOverflow)
    } else {
        Ok(AbsState { sp: s.sp + 1, stack: s.stack.update(s.sp + 1, s.pc), pc: nnn, ..s })
    }
}

/// Skip the next 2-byte instruction when `cond` holds.
pub open spec fn spec_skip_if(s: AbsState, cond: bool) -> AbsState {
    if cond {
        AbsState { pc: (s.pc + 2) as u16, ..s }
    } else {
        s
    }
}

/// `0x6xnn`: load an immediate into `Vx`.
pub open spec fn spec_set_reg(s: AbsState, x: u8, nn: u8) -> AbsState {
    AbsState { regs: s.regs.update(x as int, nn), ..s }
}

/// `0x7xnn`: add an immediate to `Vx`, wrapping modulo 256; no flag output.
pub open spec fn spec_add_imm(s: AbsState, x: u8, nn: u8) -> AbsState {
    AbsState { regs: s.regs.update(x as int, ((s.regs[x as int] + nn) % 256) as u8), ..s }
}

/// Category 8: the register-register ALU operations.
///
/// The updates are written in the exact order the machine performs them, so
/// the (degenerate but legal) cases `x == 0xF` or `y == 0xF` mean precisely
/// what the code does: for add-with-carry the flag write lands last; for the
/// subtractions the flag is written first and then overwritten by the
/// difference; for the shifts the shifted value is read *after* the flag
/// write.
///
/// The shift-left flag takes the top bit of `Vx`.  (A historical
/// implementation masked with `0xA0` before shifting right by 7; since bit 5
/// vanishes in that shift, the result is the top bit either way.)
pub open spec fn spec_alu(s: AbsState, x: u8, y: u8, n: u8) -> Result<AbsState, Chip8Error> {
    let vx = s.regs[x as int];
    let vy = s.regs[y as int];
    if n == 0x0 {
        Ok(AbsState { regs: s.regs.update(x as int, vy), ..s })
    } else if n == 0x1 {
        Ok(AbsState { regs: s.regs.update(x as int, vx | vy), ..s })
    } else if n == 0x2 {
        Ok(AbsState { regs: s.regs.update(x as int, vx & vy), ..s })
    } else if n == 0x3 {
        Ok(AbsState { regs: s.regs.update(x as int, vx ^ vy), ..s })
    } else if n == 0x4 {
        let carry: u8 = if vx + vy > 255 {
            1
        } else {
            0
        };
        Ok(
            AbsState {
                regs: s.regs.update(x as int, ((vx + vy) % 256) as u8).update(15, carry),
                ..s
            },
        )
    } else if n == 0x5 {
        let borrow: u8 = if vx > vy {
            1
        } else {
            0
        };
        Ok(
            AbsState {
                regs: s.regs.update(15, borrow).update(x as int, ((vx - vy + 256) % 256) as u8),
                ..s
            },
        )
    } else if n == 0x6 {
        let regs1 = s.regs.update(15, vx & 1);
        Ok(AbsState { regs: regs1.update(x as int, regs1[x as int] >> 1), ..s })
    } else if n == 0x7 {
        let borrow: u8 = if vy > vx {
            1
        } else {
            0
        };
        Ok(
            AbsState {
                regs: s.regs.update(15, borrow).update(x as int, ((vy - vx + 256) % 256) as u8),
                ..s
            },
        )
    } else if n == 0xE {
        let regs1 = s.regs.update(15, (vx & 0xA0) >> 7);
        Ok(AbsState { regs: regs1.update(x as int, regs1[x as int] << 1), ..s })
    } else {
        Err(Chip8Error::UnknownOpcode)
    }
}

/// Column of the sprite origin: `Vx` wrapped onto the screen width.
pub open spec fn draw_origin_col(s: AbsState, x: u8) -> int {
    s.regs[x as int] as int % SCREEN_WIDTH as int
}

/// Row of the sprite origin: `Vy` wrapped onto the screen height.
pub open spec fn draw_origin_row(s: AbsState, y: u8) -> int {
    s.regs[y as int] as int % SCREEN_HEIGHT as int
}

/// Does the sprite with origin `(xc, yc)` and `n` rows cover pixel `p`?
///
/// Sprites clip at the screen edges: a pixel is covered only if it lies in
/// the rectangle `[xc, xc+8) x [yc, yc+n)`, and pixels beyond column 63 or
/// row 31 do not exist, so nothing wraps around.
pub open spec fn sprite_covers(xc: int, yc: int, n: u8, p: int) -> bool {
    let row = p / SCREEN_WIDTH as int;
    let col = p % SCREEN_WIDTH as int;
    yc <= row < yc + n && xc <= col < xc + 8
}

/// The sprite bit that lands on pixel `p`: bit `7 - (col - xc)` of the
/// sprite row fetched from memory at `idx + (row - yc)`.
pub open spec fn sprite_bit(mem: Seq<u8>, idx: u16, xc: int, yc: int, p: int) -> bool {
    let row = p / SCREEN_WIDTH as int;
    let col = p % SCREEN_WIDTH as int;
    (mem[idx + (row - yc)] >> ((7 - (col - xc)) as u8)) & 1 == 1
}

/// Has pixel `p` already been visited by a sprite draw that has finished
/// `rlim` whole rows and, within the next row, the first `clim` columns?
/// Used to state the draw loop's progress; with `rlim == n`'s clipped row
/// count and `clim == 0` it coincides with [`sprite_covers`].
pub open spec fn draw_visited(xc: int, yc: int, n: u8, rlim: int, clim: int, p: int) -> bool {
    let row = p / SCREEN_WIDTH as int;
    let col = p % SCREEN_WIDTH as int;
    sprite_covers(xc, yc, n, p) && (row < yc + rlim || (row == yc + rlim && col < xc + clim))
}

/// How many sprite rows are actually read from memory: rows that fall below
/// the bottom edge are clipped before their bytes are fetched.
pub open spec fn draw_rows_read(n: u8, yc: int) -> int {
    if n <= SCREEN_HEIGHT as int - yc {
        n as int
    } else {
        SCREEN_HEIGHT as int - yc
    }
}

/// `0xDxyn`: XOR an 8-wide, `n`-tall sprite onto the screen at
/// `(Vx mod 64, Vy mod 32)`; `VF` reports whether any pixel was turned off.
pub open spec fn spec_draw(s: AbsState, x: u8, y: u8, n: u8) -> Result<AbsState, Chip8Error> {
    let xc = draw_origin_col(s, x);
    let yc = draw_origin_row(s, y);
    let rows = draw_rows_read(n, yc);
    if rows > 0 && s.idx + rows > MEMORY_SIZE {
        Err(Chip8Error::MemoryOutOfBounds)
    } else {
        let hit = exists|p: int|
            0 <= p < NUM_PIXELS && sprite_covers(xc, yc, n, p) && sprite_bit(
                s.mem,
                s.idx,
                xc,
                yc,
                p,
            ) && s.screen[p];
        Ok(
            AbsState {
                screen: Seq::new(
                    NUM_PIXELS as nat,
                    |p: int|
                        if sprite_covers(xc, yc, n, p) && sprite_bit(s.mem, s.idx, xc, yc, p) {
                            !s.screen[p]
                        } else {
                            s.screen[p]
                        },
                ),
                regs: s.regs.update(
                    15,
                    if hit {
                        1u8
                    } else {
                        0u8
                    },
                ),
                redraw: true,
                ..s
            },
        )
    }
}

/// Category E: skip on the state of the key named by `Vx` in the snapshot
/// supplied with this step.
pub open spec fn spec_key_skip(s: AbsState, x: u8, nn: u8) -> Result<AbsState, Chip8Error> {
    let vx = s.regs[x as int];
    if nn != 0x9E && nn != 0xA1 {
        Err(Chip8Error::UnknownOpcode)
    } else if vx >= NUM_KEYS {
        Err(Chip8Error::KeyOutOfRange)
    } else if nn == 0x9E {
        Ok(spec_skip_if(s, s.keys[vx as int]))
    } else {
        Ok(spec_skip_if(s, !s.keys[vx as int]))
    }
}

/// Category F: timers, the index register, key waiting, font addressing,
/// binary-coded decimal, and the bulk register transfers.
pub open spec fn spec_misc(s: AbsState, x: u8, nn: u8) -> Result<AbsState, Chip8Error> {
    let vx = s.regs[x as int];
    if nn == 0x07 {
        Ok(AbsState { regs: s.regs.update(x as int, s.delay), ..s })
    } else if nn == 0x15 {
        Ok(AbsState { delay: vx, ..s })
    } else if nn == 0x18 {
        Ok(AbsState { sound: vx, ..s })
    } else if nn == 0x1E {
        Ok(AbsState { idx: ((s.idx + vx) % 0x10000) as u16, ..s })
    } else if nn == 0x0A {
        Ok(AbsState { status: CpuStatus::AwaitingKeyPress { target: x }, ..s })
    } else if nn == 0x29 {
        Ok(AbsState { idx: (vx * 5) as u16, ..s })
    } else if nn == 0x33 {
        if s.idx + 2 >= MEMORY_SIZE {
            Err(Chip8Error::MemoryOutOfBounds)
        } else {
            Ok(
                AbsState {
                    mem: s.mem.update(s.idx as int, (vx as int / 100) as u8).update(
                        s.idx as int + 1,
                        ((vx as int / 10) % 10) as u8,
                    ).update(s.idx as int + 2, (vx as int % 10) as u8),
                    ..s
                },
            )
        }
    } else if nn == 0x55 {
        if s.idx + x >= MEMORY_SIZE {
            Err(Chip8Error::MemoryOutOfBounds)
        } else {
            Ok(
                AbsState {
                    mem: Seq::new(
                        MEMORY_SIZE as nat,
                        |a: int|
                            if s.idx <= a <= s.idx + x {
                                s.regs[a - s.idx]
                            } else {
                                s.mem[a]
                            },
                    ),
                    ..s
                },
            )
        }
    } else if nn == 0x65 {
        if s.idx + x >= MEMORY_SIZE {
            Err(Chip8Error::MemoryOutOfBounds)
        } else {
            Ok(
                AbsState {
                    regs: Seq::new(
                        NUM_REGISTERS as nat,
                        |i: int|
                            if i <= x {
                                s.mem[s.idx + i]
                            } else {
                                s.regs[i]
                            },
                    ),
                    ..s
                },
            )
        }
    } else {
        Err(Chip8Error::UnknownOpcode)
    }
}

/// The smallest key index at or above `k` that is pressed in `cur` but was
/// not pressed in `prev`; 16 when there is none.
pub open spec fn first_key_edge_from(prev: Seq<bool>, cur: Seq<bool>, k: int) -> int
    decreases NUM_KEYS - k,
{
    if k < 0 || k >= NUM_KEYS {
        NUM_KEYS as int
    } else if cur[k] && !prev[k] {
        k
    } else {
        first_key_edge_from(prev, cur, k + 1)
    }
}

/// The smallest key showing a fresh press between the snapshot the machine
/// kept and the snapshot supplied now; 16 when no key shows one.
pub open spec fn first_key_edge(prev: Seq<bool>, cur: Seq<bool>) -> int {
    first_key_edge_from(prev, cur, 0)
}

/// A scan that saw no fresh press below `j`, and one at `j` if `j` is a key,
/// pins down `first_key_edge_from`: it is `j`, or 16 when `j` is past the
/// last key.
pub proof fn lemma_first_key_edge_from(prev: Seq<bool>, cur: Seq<bool>, a: int, j: int)
    requires
        0 <= a <= j <= NUM_KEYS,
        forall|i: int| a <= i < j ==> !(cur[i] && !prev[i]),
        j < NUM_KEYS ==> cur[j] && !prev[j],
    ensures
        first_key_edge_from(prev, cur, a) == if j < NUM_KEYS {
            j
        } else {
            NUM_KEYS as int
        },
    decreases j - a,
{
    if a < j {
        lemma_first_key_edge_from(prev, cur, a + 1, j);
    }
}

/// A step taken while the machine waits for a key (`0xFx0A`): no instruction
/// is fetched and the program counter stays put.  Only a key that goes from
/// released in the kept snapshot to pressed in the new one wakes the
/// machine; a key merely held since before the wait began does not.  On the
/// first such edge (lowest key index) the key lands in the target register
/// and execution resumes with the instruction after the wait.
pub open spec fn spec_wait(s: AbsState, cur: Seq<bool>, target: u8) -> AbsState {
    let k = first_key_edge(s.keys, cur);
    if k < NUM_KEYS {
        AbsState {
            keys: cur,
            regs: s.regs.update(target as int, k as u8),
            status: CpuStatus::Running,
            ..s
        }
    } else {
        AbsState { keys: cur, ..s }
    }
}

/// One whole machine step.
///
/// `kb` is the keypad snapshot for this tick and is always recorded in the
/// resulting state.  `rnd` is the byte an external entropy source supplies to
/// the `0xCxnn` instruction; every other instruction ignores it.  A halted
/// machine does nothing; a waiting machine runs [`spec_wait`]; a running
/// machine fetches the opcode at `pc` (big-endian), advances `pc` by 2, and
/// executes.  On an error the machine's observable state is unchanged apart
/// from the recorded snapshot: the program counter is *not* advanced.
pub open spec fn spec_step(pre: AbsState, kb: Seq<bool>, rnd: u8) -> Result<
    AbsState,
    Chip8Error,
> {
    match pre.status {
        CpuStatus::Halted => Ok(with_keys(pre, kb)),
        CpuStatus::AwaitingKeyPress { target } => Ok(spec_wait(pre, kb, target)),
        CpuStatus::Running => {
            if pre.pc + 1 >= MEMORY_SIZE {
                Err(Chip8Error::MemoryOutOfBounds)
            } else {
                let op = spec_opcode(pre);
                let s = AbsState { pc: (pre.pc + 2) as u16, keys: kb, ..pre };
                let cat = op_category(op);
                let x = op_x(op);
                let y = op_y(op);
                let n = op_n(op);
                let nn = op_nn(op);
                let nnn = op_nnn(op);
                if cat == 0x0 {
                    spec_sys(s, op)
                } else if cat == 0x1 {
                    Ok(spec_jump(s, nnn))
                } else if cat == 0x2 {
                    spec_call(s, nnn)
                } else if cat == 0x3 {
                    Ok(spec_skip_if(s, s.regs[x as int] == nn))
                } else if cat == 0x4 {
                    Ok(spec_skip_if(s, s.regs[x as int] != nn))
                } else if cat == 0x5 {
                    if n == 0 {
                        Ok(spec_skip_if(s, s.regs[x as int] == s.regs[y as int]))
                    } else {
                        Err(Chip8Error::UnknownOpcode)
                    }
                } else if cat == 0x6 {
                    Ok(spec_set_reg(s, x, nn))
                } else if cat == 0x7 {
                    Ok(spec_add_imm(s, x, nn))
                } else if cat == 0x8 {
                    spec_alu(s, x, y, n)
                } else if cat == 0x9 {
                    if n == 0 {
                        Ok(spec_skip_if(s, s.regs[x as int] != s.regs[y as int]))
                    } else {
                        Err(Chip8Error::UnknownOpcode)
                    }
                } else if cat == 0xA {
                    Ok(AbsState { idx: nnn, ..s })
                } else if cat == 0xB {
                    Ok(AbsState { pc: (s.regs[0] + nnn) as u16, ..s })
                } else if cat == 0xC {
                    Ok(AbsState { regs: s.regs.update(x as int, rnd & nn), ..s })
                } else if cat == 0xD {
                    spec_draw(s, x, y, n)
                } else if cat == 0xE {
                    spec_key_skip(s, x, nn)
                } else {
                    spec_misc(s, x, nn)
                }
            }
        },
    }
}

} // verus!
