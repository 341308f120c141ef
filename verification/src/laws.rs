//! Machine-wide theorems about the CHIP-8 semantics.
//!
//! Each law is stated over the specification interpreter
//! [`spec_step`](crate::semantics::spec_step) (or, for the sprite laws, over
//! [`spec_draw`](crate::semantics::spec_draw)), so by [`Chip8::tick`]'s
//! contract it holds of the executable machine as well.
//!
//! [`Chip8::tick`]: crate::chip8::Chip8::tick

use vstd::prelude::*;

verus! {

use crate::chip8::{Chip8Error, CpuStatus};
use crate::screen::NUM_PIXELS;
use crate::screen::SCREEN_WIDTH;
use crate::semantics::AbsState;
use crate::semantics::MEMORY_SIZE;
use crate::semantics::NUM_KEYS;
use crate::semantics::NUM_REGISTERS;
use crate::semantics::STACK_SIZE;
use crate::semantics::draw_origin_col;
use crate::semantics::draw_origin_row;
use crate::semantics::lemma_first_key_edge_from;
use crate::semantics::op_category;
use crate::semantics::op_n;
use crate::semantics::op_nn;
use crate::semantics::op_nnn;
use crate::semantics::op_x;
use crate::semantics::op_y;
use crate::semantics::opcode_of;
use crate::semantics::spec_alu;
use crate::semantics::spec_draw;
use crate::semantics::spec_key_skip;
use crate::semantics::spec_misc;
use crate::semantics::spec_opcode;
use crate::semantics::spec_sys;
use crate::semantics::spec_step;
use crate::semantics::sprite_bit;
use crate::semantics::sprite_covers;
use crate::semantics::with_keys;

/// A running, well-formed machine whose next instruction is the two bytes
/// `hi`, `lo`.
pub open spec fn about_to_execute(s: AbsState, hi: u8, lo: u8) -> bool {
    &&& s.wf()
    &&& s.status is Running
    &&& s.pc + 1 < MEMORY_SIZE
    &&& s.mem[s.pc as int] == hi
    &&& s.mem[s.pc as int + 1] == lo
}

/// How a big-endian opcode assembled from bytes `hi`, `lo` splits into its
/// fields.
proof fn lemma_opcode_fields(hi: u8, lo: u8)
    by (bit_vector)
    ensures
        op_category(opcode_of(hi, lo)) == hi >> 4,
        op_x(opcode_of(hi, lo)) == hi & 0x0F,
        op_y(opcode_of(hi, lo)) == lo >> 4,
        op_n(opcode_of(hi, lo)) == lo & 0x0F,
        op_nn(opcode_of(hi, lo)) == lo,
        op_nnn(opcode_of(hi, lo)) == ((hi & 0x0F) as u16) << 8 | (lo as u16),
{
}

/// The fetched opcode is the one assembled from the two bytes at `pc`.
proof fn lemma_opcode_bytes(s: AbsState)
    requires
        s.wf(),
        s.pc + 1 < MEMORY_SIZE,
    ensures
        spec_opcode(s) == opcode_of(s.mem[s.pc as int], s.mem[s.pc as int + 1]),
{
    let hi = s.mem[s.pc as int];
    let lo = s.mem[s.pc as int + 1];
    assert(((hi as u16) << 8) | (lo as u16) == ((hi as u16) * 256 + (lo as u16)) as u16)
        by (bit_vector);
}

/// Loading an immediate: after `0x6xnn`, register `Vx` reads exactly `nn`,
/// for every register and every immediate.
pub proof fn law_load_immediate(s: AbsState, kb: Seq<bool>, rnd: u8, x: u8, nn: u8)
    requires
        x < NUM_REGISTERS,
        about_to_execute(s, (0x60 + x) as u8, nn),
        kb.len() == NUM_KEYS,
    ensures
        spec_step(s, kb, rnd) matches Ok(s2) && s2.regs[x as int] == nn,
{
    let hi = (0x60 + x) as u8;
    lemma_opcode_bytes(s);
    lemma_opcode_fields(hi, nn);
    assert(hi >> 4 == 6 && (hi & 0x0F) == x) by (bit_vector)
        requires
            hi == (0x60 + x) as u8,
            x < 16,
    ;
}

/// Immediate addition wraps modulo 256 and touches no other register: after
/// `0x7xnn`, `Vx` holds `(Vx + nn) mod 256` and every other register — the
/// flag register `VF` included — is unchanged.
pub proof fn law_add_immediate_wraps(s: AbsState, kb: Seq<bool>, rnd: u8, x: u8, nn: u8)
    requires
        x < NUM_REGISTERS,
        about_to_execute(s, (0x70 + x) as u8, nn),
        kb.len() == NUM_KEYS,
    ensures
        spec_step(s, kb, rnd) matches Ok(s2) && s2.regs[x as int] == (s.regs[x as int] + nn) % 256
            && (forall|j: int| 0 <= j < NUM_REGISTERS && j != x ==> s2.regs[j] == s.regs[j]),
{
    let hi = (0x70 + x) as u8;
    lemma_opcode_bytes(s);
    lemma_opcode_fields(hi, nn);
    assert(hi >> 4 == 7 && (hi & 0x0F) == x) by (bit_vector)
        requires
            hi == (0x70 + x) as u8,
            x < 16,
    ;
}

/// Add with carry: after `0x8xy4`, `VF` is 1 exactly when `Vx + Vy`
/// overflows a byte, `Vx` (when it is not `VF` itself) holds the wrapped
/// sum, and the other registers are unchanged.
pub proof fn law_add_with_carry(s: AbsState, kb: Seq<bool>, rnd: u8, x: u8, y: u8)
    requires
        x < NUM_REGISTERS,
        y < NUM_REGISTERS,
        about_to_execute(s, (0x80 + x) as u8, (y * 16 + 4) as u8),
        kb.len() == NUM_KEYS,
    ensures
        spec_step(s, kb, rnd) matches Ok(s2) && s2.regs[15] == (if s.regs[x as int] + s.regs[y as int]
            > 255 {
            1u8
        } else {
            0u8
        }) && (x != 15 ==> s2.regs[x as int] == (s.regs[x as int] + s.regs[y as int]) % 256) && (
        forall|j: int| 0 <= j < NUM_REGISTERS && j != x && j != 15 ==> s2.regs[j] == s.regs[j]),
{
    let hi = (0x80 + x) as u8;
    let lo = (y * 16 + 4) as u8;
    lemma_opcode_bytes(s);
    lemma_opcode_fields(hi, lo);
    assert(hi >> 4 == 8 && (hi & 0x0F) == x && lo >> 4 == y && (lo & 0x0F) == 4) by (bit_vector)
        requires
            hi == (0x80 + x) as u8,
            lo == (y * 16 + 4) as u8,
            x < 16,
            y < 16,
    ;
}

/// Subtract with borrow flag: after `0x8xy5`, `Vx` holds `Vx - Vy` wrapped
/// modulo 256, `VF` (when it is not the target itself) is 1 exactly when
/// `Vx > Vy`, and the other registers are unchanged.
pub proof fn law_sub_with_borrow(s: AbsState, kb: Seq<bool>, rnd: u8, x: u8, y: u8)
    requires
        x < NUM_REGISTERS,
        y < NUM_REGISTERS,
        about_to_execute(s, (0x80 + x) as u8, (y * 16 + 5) as u8),
        kb.len() == NUM_KEYS,
    ensures
        spec_step(s, kb, rnd) matches Ok(s2) && s2.regs[x as int] == (s.regs[x as int]
            - s.regs[y as int] + 256) % 256 && (x != 15 ==> s2.regs[15] == (if s.regs[x as int]
            > s.regs[y as int] {
            1u8
        } else {
            0u8
        })) && (forall|j: int| 0 <= j < NUM_REGISTERS && j != x && j != 15 ==> s2.regs[j]
            == s.regs[j]),
{
    let hi = (0x80 + x) as u8;
    let lo = (y * 16 + 5) as u8;
    lemma_opcode_bytes(s);
    lemma_opcode_fields(hi, lo);
    assert(hi >> 4 == 8 && (hi & 0x0F) == x && lo >> 4 == y && (lo & 0x0F) == 5) by (bit_vector)
        requires
            hi == (0x80 + x) as u8,
            lo == (y * 16 + 5) as u8,
            x < 16,
            y < 16,
    ;
}

/// Drawing the same sprite twice at the same spot undoes it: the second
/// draw toggles every affected pixel back, restoring the whole screen; and
/// if the first draw reported no collision and the sprite shows at least one
/// visible bit, the second draw reports a collision, because every bit it
/// draws lands on a pixel the first draw turned on.
///
/// `x` and `y` must name registers other than `VF`, since the first draw
/// overwrites `VF` with its collision flag.
pub proof fn law_draw_twice_restores(s: AbsState, x: u8, y: u8, n: u8)
    requires
        s.wf(),
        x < NUM_REGISTERS,
        y < NUM_REGISTERS,
        n < 16,
        x != 15,
        y != 15,
        spec_draw(s, x, y, n) is Ok,
    ensures
        ({
            let s1 = spec_draw(s, x, y, n)->Ok_0;
            let xc = draw_origin_col(s, x);
            let yc = draw_origin_row(s, y);
            &&& spec_draw(s1, x, y, n) is Ok
            &&& spec_draw(s1, x, y, n)->Ok_0.screen == s.screen
            &&& ((s1.regs[15] == 0 && exists|p: int|
                0 <= p < NUM_PIXELS && #[trigger] sprite_covers(xc, yc, n, p) && sprite_bit(
                    s.mem,
                    s.idx,
                    xc,
                    yc,
                    p,
                )) ==> spec_draw(s1, x, y, n)->Ok_0.regs[15] == 1)
        }),
{
    let s1 = spec_draw(s, x, y, n)->Ok_0;
    let xc = draw_origin_col(s, x);
    let yc = draw_origin_row(s, y);
    assert(draw_origin_col(s1, x) == xc);
    assert(draw_origin_row(s1, y) == yc);
    let s2 = spec_draw(s1, x, y, n)->Ok_0;
    assert(s2.screen =~= s.screen);
    if s1.regs[15] == 0 && exists|p: int|
        0 <= p < NUM_PIXELS && #[trigger] sprite_covers(xc, yc, n, p) && sprite_bit(
            s.mem,
            s.idx,
            xc,
            yc,
            p,
        ) {
        let p = choose|p: int|
            0 <= p < NUM_PIXELS && #[trigger] sprite_covers(xc, yc, n, p) && sprite_bit(
                s.mem,
                s.idx,
                xc,
                yc,
                p,
            );
        assert(!s.screen[p]);
        assert(s1.screen[p]);
        assert(s2.regs[15] == 1);
    }
}

/// Sprites clip, they do not wrap: a draw changes a pixel only inside the
/// rectangle `[xc, xc+8) x [yc, yc+n)` at the sprite's origin.  A sprite
/// whose origin sits near the right edge therefore shows only the columns
/// that still fit on the screen; none spill over to column 0.
pub proof fn law_draw_clips(s: AbsState, x: u8, y: u8, n: u8)
    requires
        s.wf(),
        x < NUM_REGISTERS,
        y < NUM_REGISTERS,
        n < 16,
        spec_draw(s, x, y, n) is Ok,
    ensures
        ({
            let s1 = spec_draw(s, x, y, n)->Ok_0;
            let xc = draw_origin_col(s, x);
            let yc = draw_origin_row(s, y);
            forall|p: int|
                0 <= p < NUM_PIXELS && s1.screen[p] != s.screen[p] ==> xc <= p % (
                SCREEN_WIDTH as int) < xc + 8 && yc <= p / (SCREEN_WIDTH as int) < yc + n
        }),
{
}

/// A call followed by its return comes back: if `pc` holds `0x2nnn` and
/// `nnn` holds `0x00EE`, stepping twice lands on the instruction just after
/// the call, with the stack pointer, registers and memory as they were.
#[verifier::rlimit(100)]
pub proof fn law_call_return_round_trip(
    s: AbsState,
    kb1: Seq<bool>,
    kb2: Seq<bool>,
    rnd1: u8,
    rnd2: u8,
    nnn: u16,
)
    requires
        s.wf(),
        s.status is Running,
        kb1.len() == NUM_KEYS,
        kb2.len() == NUM_KEYS,
        s.pc + 1 < MEMORY_SIZE,
        s.sp < STACK_SIZE - 1,
        nnn <= 0xFFF,
        nnn + 1 < MEMORY_SIZE,
        spec_opcode(s) == 0x2000 + nnn,
        s.mem[nnn as int] == 0x00,
        s.mem[nnn as int + 1] == 0xEE,
    ensures
        spec_step(s, kb1, rnd1) matches Ok(s1) && spec_step(s1, kb2, rnd2) matches Ok(s2)
            && s2.pc == s.pc + 2 && s2.sp == s.sp && s2.regs == s.regs && s2.mem == s.mem
            && s2.screen == s.screen,
{
    let op = spec_opcode(s);
    assert(op_category(op) == 2 && op_nnn(op) == nnn) by (bit_vector)
        requires
            op == 0x2000 + nnn,
            nnn <= 0xFFF,
    ;
    assert(spec_step(s, kb1, rnd1) is Ok);
    let s1 = spec_step(s, kb1, rnd1)->Ok_0;
    assert(s1.pc == nnn && s1.sp == s.sp + 1 && s1.stack[s1.sp] == s.pc + 2 && s1.mem == s.mem);
    assert(s1.wf());
    lemma_opcode_bytes(s1);
    let op2 = spec_opcode(s1);
    assert(op2 == opcode_of(0x00, 0xEE));
    assert(opcode_of(0x00, 0xEE) == 0x00EE && op_category(0x00EE) == 0) by (bit_vector);
    assert(spec_step(s1, kb2, rnd2) is Ok);
}

/// Instruction execution never decrements a timer: a step whose instruction
/// is neither `0xFx15` (set delay) nor `0xFx18` (set sound) leaves both
/// timers exactly as they were, however many such steps run between two
/// 60 Hz timer ticks.  Only `Chip8::decrement_counters` moves a timer down,
/// and by its contract it moves each non-zero timer down by exactly 1.
pub proof fn law_step_preserves_timers(s: AbsState, kb: Seq<bool>, rnd: u8)
    requires
        s.wf(),
        kb.len() == NUM_KEYS,
        s.status is Running && s.pc + 1 < MEMORY_SIZE ==> !(op_category(spec_opcode(s)) == 0xF && (
        op_nn(spec_opcode(s)) == 0x15 || op_nn(spec_opcode(s)) == 0x18)),
    ensures
        spec_step(s, kb, rnd) matches Ok(s2) ==> s2.delay == s.delay && s2.sound == s.sound,
{
    if s.status is Running && s.pc + 1 < MEMORY_SIZE {
        let op = spec_opcode(s);
        let cat = op_category(op);
        assert(op >> 12 <= 15) by (bit_vector);
        let smid = AbsState { pc: (s.pc + 2) as u16, keys: kb, ..s };
        let x = op_x(op);
        let y = op_y(op);
        let n = op_n(op);
        let nn = op_nn(op);
        if cat == 0x0 {
            assert(spec_sys(smid, op) matches Ok(s2) ==> s2.delay == s.delay && s2.sound
                == s.sound);
        } else if cat == 0x8 {
            assert(spec_alu(smid, x, y, n) matches Ok(s2) ==> s2.delay == s.delay && s2.sound
                == s.sound);
        } else if cat == 0xD {
            assert(spec_draw(smid, x, y, n) matches Ok(s2) ==> s2.delay == s.delay && s2.sound
                == s.sound);
        } else if cat == 0xE {
            assert(spec_key_skip(smid, x, nn) matches Ok(s2) ==> s2.delay == s.delay && s2.sound
                == s.sound);
        } else if cat == 0xF {
            assert(spec_misc(smid, x, nn) matches Ok(s2) ==> s2.delay == s.delay && s2.sound
                == s.sound);
        }
    }
}

/// A key held since before the wait began does not wake the machine: while
/// it awaits a key, a snapshot showing only keys that the machine's kept
/// snapshot already showed pressed leaves it waiting, with the program
/// counter, registers and everything else unchanged apart from the newly
/// kept snapshot.
pub proof fn law_wait_ignores_held_keys(s: AbsState, kb: Seq<bool>, rnd: u8, target: u8)
    requires
        s.wf(),
        kb.len() == NUM_KEYS,
        s.status == (CpuStatus::AwaitingKeyPress { target }),
        forall|k: int| 0 <= k < NUM_KEYS ==> (kb[k] ==> s.keys[k]),
    ensures
        spec_step(s, kb, rnd) == Ok::<AbsState, Chip8Error>(with_keys(s, kb)),
{
    lemma_first_key_edge_from(s.keys, kb, 0, NUM_KEYS as int);
    assert(spec_step(s, kb, rnd)->Ok_0 =~= with_keys(s, kb));
}

/// A fresh press wakes the machine: while it awaits a key, a snapshot
/// showing key `k` pressed where the kept snapshot showed it released — and
/// no smaller key doing the same — resumes execution with `k` stored in the
/// wait's target register and the program counter unmoved, so the next step
/// runs the instruction after the wait.
pub proof fn law_wait_resumes_on_edge(s: AbsState, kb: Seq<bool>, rnd: u8, target: u8, k: int)
    requires
        s.wf(),
        kb.len() == NUM_KEYS,
        s.status == (CpuStatus::AwaitingKeyPress { target }),
        0 <= k < NUM_KEYS,
        kb[k],
        !s.keys[k],
        forall|j: int| 0 <= j < k ==> !(kb[j] && !s.keys[j]),
    ensures
        spec_step(s, kb, rnd) == Ok::<AbsState, Chip8Error>(
            AbsState {
                keys: kb,
                regs: s.regs.update(target as int, k as u8),
                status: CpuStatus::Running,
                ..s
            },
        ),
{
    lemma_first_key_edge_from(s.keys, kb, 0, k);
}

/// Binary-coded decimal: after `0xFx33`, memory at `I`, `I+1`, `I+2` holds
/// the hundreds, tens and ones digits of `Vx`, and nothing else in memory
/// moves.
pub proof fn law_bcd_digits(s: AbsState, kb: Seq<bool>, rnd: u8, x: u8)
    requires
        x < NUM_REGISTERS,
        about_to_execute(s, (0xF0 + x) as u8, 0x33),
        kb.len() == NUM_KEYS,
        s.idx + 2 < MEMORY_SIZE,
    ensures
        spec_step(s, kb, rnd) matches Ok(s2) && s2.mem[s.idx as int] == s.regs[x as int] as int
            / 100 && s2.mem[s.idx as int + 1] == (s.regs[x as int] as int / 10) % 10
            && s2.mem[s.idx as int + 2] == s.regs[x as int] as int % 10 && (forall|a: int|
            0 <= a < MEMORY_SIZE && !(s.idx <= a <= s.idx + 2) ==> s2.mem[a] == s.mem[a]),
{
    let hi = (0xF0 + x) as u8;
    lemma_opcode_bytes(s);
    lemma_opcode_fields(hi, 0x33);
    assert(hi >> 4 == 0xF && (hi & 0x0F) == x) by (bit_vector)
        requires
            hi == (0xF0 + x) as u8,
            x < 16,
    ;
}

} // verus!
