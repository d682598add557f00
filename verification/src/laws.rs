use vstd::prelude::*;

use crate::decode::spec_decode;
use crate::semantics::{
    first_pressed, lemma_first_pressed_none_from, lemma_first_pressed_props,
    lemma_flip_involutive, spec_add_reg, spec_add_val, spec_and, spec_draw, spec_fetch, spec_load,
    spec_or, spec_save, spec_se_reg, spec_se_val, spec_shift_l, spec_shift_r, spec_sne_reg,
    spec_sne_val, spec_step, spec_sub_regxy, spec_tick_timers, spec_wait_key, spec_xor, step_ok,
    wrap_add8, wrap_sub8,
};
use crate::state::Ch8View;

verus! {

/// Wrapped byte addition is addition modulo 256.
pub proof fn lemma_wrap_add8_mod(a: u8, b: u8)
    ensures
        wrap_add8(a, b) == (a + b) % 256,
{
    if a + b > 255 {
        vstd::arithmetic::div_mod::lemma_mod_multiples_vanish(1, a + b - 256, 256);
        vstd::arithmetic::div_mod::lemma_small_mod((a + b - 256) as nat, 256);
    } else {
        vstd::arithmetic::div_mod::lemma_small_mod((a + b) as nat, 256);
    }
}

/// Wrapped byte subtraction is subtraction modulo 256 (with the minuend
/// lifted by 256 to stay nonnegative).
pub proof fn lemma_wrap_sub8_mod(a: u8, b: u8)
    ensures
        wrap_sub8(a, b) == (a - b + 256) % 256,
{
    if a - b < 0 {
        vstd::arithmetic::div_mod::lemma_small_mod((a - b + 256) as nat, 256);
    } else {
        vstd::arithmetic::div_mod::lemma_mod_multiples_vanish(1, a - b, 256);
        vstd::arithmetic::div_mod::lemma_small_mod((a - b) as nat, 256);
    }
}

/// add-immediate wraps modulo 256 for every register and addend, and
/// leaves the flag register alone when it is not itself the target.
pub proof fn lemma_add_immediate_wraps(v: Ch8View, x: u8, kk: u8)
    requires
        v.wf(),
        x < 16,
    ensures
        spec_add_val(v, x, kk).regs[x as int] == (v.regs[x as int] + kk) % 256,
        x != 15 ==> spec_add_val(v, x, kk).regs[15] == v.regs[15],
{
    lemma_wrap_add8_mod(v.regs[x as int], kk);
}

/// add-registers wraps modulo 256, and sets the flag register to 1
/// exactly when the unsigned sum exceeds 255 (for operands other than the
/// flag register itself).
pub proof fn lemma_add_registers_flag(v: Ch8View, x: u8, y: u8)
    requires
        v.wf(),
        x < 15,
        y < 15,
    ensures
        spec_add_reg(v, x, y).regs[x as int] == (v.regs[x as int] + v.regs[y as int]) % 256,
        spec_add_reg(v, x, y).regs[15] == if v.regs[x as int] + v.regs[y as int] > 255 {
            1u8
        } else {
            0u8
        },
{
    lemma_wrap_add8_mod(v.regs[x as int], v.regs[y as int]);
}

/// sub (x-y) wraps modulo 256; the flag register reports the borrow as
/// this machine documents it: 1 exactly when Vx < Vy (for operands other
/// than the flag register itself).
pub proof fn lemma_sub_registers_flag(v: Ch8View, x: u8, y: u8)
    requires
        v.wf(),
        x < 15,
        y < 15,
    ensures
        spec_sub_regxy(v, x, y).regs[x as int] == (v.regs[x as int] - v.regs[y as int] + 256)
            % 256,
        spec_sub_regxy(v, x, y).regs[15] == if v.regs[x as int] < v.regs[y as int] {
            1u8
        } else {
            0u8
        },
{
    lemma_wrap_sub8_mod(v.regs[x as int], v.regs[y as int]);
}

/// or, and and xor always leave the flag register at 0, whatever it held
/// before.
pub proof fn lemma_logic_ops_clear_flag(v: Ch8View, x: u8, y: u8)
    requires
        v.wf(),
        x < 16,
        y < 16,
    ensures
        spec_or(v, x, y).regs[15] == 0,
        spec_and(v, x, y).regs[15] == 0,
        spec_xor(v, x, y).regs[15] == 0,
{
}

/// The shifts capture the bit pushed out into the flag register before
/// mutating the register (for a register other than the flag register
/// itself).
pub proof fn lemma_shift_captures_bit(v: Ch8View, x: u8)
    requires
        v.wf(),
        x < 15,
    ensures
        spec_shift_r(v, x).regs[15] == v.regs[x as int] & 1,
        spec_shift_r(v, x).regs[x as int] == v.regs[x as int] >> 1,
        spec_shift_l(v, x).regs[15] == v.regs[x as int] >> 7,
        spec_shift_l(v, x).regs[x as int] == v.regs[x as int] << 1,
{
}

/// Every skip instruction advances the program counter by 4 from its
/// pre-instruction value when the condition holds, and by 2 when it does
/// not.
pub proof fn lemma_skip_pc(v: Ch8View, x: u8, y: u8, kk: u8)
    requires
        v.wf(),
        x < 16,
        y < 16,
    ensures
        spec_se_val(v, x, kk).pc == v.pc + if v.regs[x as int] == kk {
            4int
        } else {
            2int
        },
        spec_sne_val(v, x, kk).pc == v.pc + if v.regs[x as int] != kk {
            4int
        } else {
            2int
        },
        spec_se_reg(v, x, y).pc == v.pc + if v.regs[x as int] == v.regs[y as int] {
            4int
        } else {
            2int
        },
        spec_sne_reg(v, x, y).pc == v.pc + if v.regs[x as int] != v.regs[y as int] {
            4int
        } else {
            2int
        },
{
}

/// Drawing the same sprite at the same location twice, with nothing drawn
/// in between, restores every display cell to its value before the first
/// draw, and raises the redraw flag both times. When a coordinate
/// register is the flag register itself, its zeroing after the first draw
/// would move the second sprite, so the flag register must then already
/// be 0.
pub proof fn lemma_draw_twice_restores(v: Ch8View, x: u8, y: u8, n: u8)
    requires
        v.wf(),
        x < 16,
        y < 16,
        n < 16,
        (x != 15 && y != 15) || v.regs[15] == 0,
    ensures
        spec_draw(spec_draw(v, x, y, n), x, y, n).display == v.display,
        spec_draw(v, x, y, n).draw,
        spec_draw(spec_draw(v, x, y, n), x, y, n).draw,
{
    let d1 = spec_draw(v, x, y, n);
    let d2 = spec_draw(d1, x, y, n);
    assert(d1.regs[x as int] == v.regs[x as int]);
    assert(d1.regs[y as int] == v.regs[y as int]);
    assert forall|c: int| 0 <= c < 2048 implies d2.display[c] == v.display[c] by {
        lemma_flip_involutive(v.display[c]);
    }
    assert(d2.display =~= v.display);
}

/// store-registers and load-registers move exactly x + 1 bytes and
/// advance the index by exactly x + 1; loading with the same index into
/// any register bank reproduces the stored values, and leaves the
/// registers above x alone.
pub proof fn lemma_save_load_round_trip(v: Ch8View, x: u8, regs2: Seq<u8>)
    requires
        v.wf(),
        x < 16,
        v.index + x < 4096,
        regs2.len() == 16,
    ensures
        ({
            let s = spec_save(v, x);
            let w = Ch8View { index: v.index, regs: regs2, ..s };
            let l = spec_load(w, x);
            &&& s.index == v.index + x + 1
            &&& (forall|a: int|
                0 <= a < 4096 && !(v.index <= a <= v.index + x) ==> s.mem[a] == v.mem[a])
            &&& (forall|a: int| v.index <= a <= v.index + x ==> s.mem[a] == v.regs[a - v.index])
            &&& l.index == v.index + x + 1
            &&& (forall|i: int| 0 <= i <= x ==> l.regs[i] == v.regs[i])
            &&& (forall|i: int| x < i < 16 ==> l.regs[i] == regs2[i])
        }),
{
}

/// A deterministic run: `n` steps in a row, none of which draws on the
/// random source.
pub open spec fn run_steps(v: Ch8View, n: nat) -> Ch8View
    decreases n,
{
    if n == 0 {
        v
    } else {
        spec_step(run_steps(v, (n - 1) as nat), 0)
    }
}

/// While no key-state cell is nonzero, wait-for-key leaves the program
/// counter (and everything but the timers) unchanged across any number of
/// repeated steps: the instruction re-executes each step, and each step
/// stays defined.
pub proof fn lemma_wait_key_blocks(v: Ch8View, n: nat)
    requires
        step_ok(v),
        spec_decode(spec_fetch(v)) is WaitKey,
        forall|k: int| 0 <= k < 16 ==> v.keys[k] == 0,
    ensures
        run_steps(v, n).pc == v.pc,
        run_steps(v, n).regs == v.regs,
        run_steps(v, n).mem == v.mem,
        run_steps(v, n).keys == v.keys,
        step_ok(run_steps(v, n)),
    decreases n,
{
    if n > 0 {
        lemma_wait_key_blocks(v, (n - 1) as nat);
        let w = run_steps(v, (n - 1) as nat);
        assert(spec_fetch(w) == spec_fetch(v));
        lemma_first_pressed_none_from(w.keys, 0);
    }
}

/// When at least one key is pressed, wait-for-key stores the lowest
/// pressed key's index and advances the program counter by exactly 2.
pub proof fn lemma_wait_key_press(v: Ch8View, x: u8)
    requires
        v.wf(),
        x < 16,
        exists|k: int| 0 <= k < 16 && v.keys[k] != 0,
    ensures
        ({
            let p = first_pressed(v.keys, 0);
            &&& 0 <= p < 16
            &&& v.keys[p] != 0
            &&& (forall|j: int| 0 <= j < p ==> v.keys[j] == 0)
            &&& spec_wait_key(v, x).pc == v.pc + 2
            &&& spec_wait_key(v, x).regs == v.regs.update(x as int, p as u8)
        }),
{
    lemma_first_pressed_props(v.keys, 0);
    if first_pressed(v.keys, 0) == 16 {
        let k = choose|k: int| 0 <= k < 16 && v.keys[k] != 0;
        assert(v.keys[k] == 0);
    }
}

/// Timers floor at zero: a step taken with the delay timer already 0, by
/// any instruction that does not itself set the delay timer, leaves it 0.
pub proof fn lemma_delay_timer_floors(v: Ch8View, b: u8)
    requires
        v.delay == 0,
        !(spec_decode(spec_fetch(v)) is SetDelay),
    ensures
        spec_step(v, b).delay == 0,
{
}

/// The timer decrement itself never goes below zero.
pub proof fn lemma_tick_timers_floor(v: Ch8View)
    ensures
        spec_tick_timers(v).delay == if v.delay > 0 {
            (v.delay - 1) as u8
        } else {
            0u8
        },
        spec_tick_timers(v).sound == if v.sound > 0 {
            (v.sound - 1) as u8
        } else {
            0u8
        },
{
}

} // verus!
