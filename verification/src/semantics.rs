use vstd::prelude::*;

use crate::decode::{spec_decode, Instruction};
use crate::state::Ch8View;

verus! {

/// Byte addition with 8-bit wraparound.
pub open spec fn wrap_add8(a: u8, b: u8) -> u8 {
    if a + b > 255 {
        (a + b - 256) as u8
    } else {
        (a + b) as u8
    }
}

/// Byte subtraction with 8-bit wraparound.
pub open spec fn wrap_sub8(a: u8, b: u8) -> u8 {
    if a - b < 0 {
        (a - b + 256) as u8
    } else {
        (a - b) as u8
    }
}

/// The 16-bit opcode at the program counter: two consecutive memory bytes,
/// combined big-endian.
pub open spec fn spec_fetch(v: Ch8View) -> u16 {
    (((v.mem[v.pc] as u16) << 8) | (v.mem[v.pc + 1] as u16))
}

/// clear-display: zero every display cell, raise the redraw flag.
pub open spec fn spec_cls(v: Ch8View) -> Ch8View {
    Ch8View { display: Seq::new(2048, |i: int| 0u32), draw: true, pc: v.pc + 2, ..v }
}

/// return: pop the stack, restore the program counter from the popped
/// value, then advance past the call instruction.
pub open spec fn spec_ret(v: Ch8View) -> Ch8View {
    Ch8View { sp: v.sp - 1, pc: v.stack[v.sp - 1] + 2, ..v }
}

/// jump: set the program counter to the absolute address.
pub open spec fn spec_jmp(v: Ch8View, addr: u16) -> Ch8View {
    Ch8View { pc: addr as int, ..v }
}

/// call: push the current program counter, then jump.
pub open spec fn spec_call(v: Ch8View, addr: u16) -> Ch8View {
    Ch8View {
        stack: v.stack.update(v.sp, ((v.pc % 0x10000) as u16)),
        sp: v.sp + 1,
        pc: addr as int,
        ..v
    }
}

/// skip-if-equal (register vs immediate): advance 4 when equal, else 2.
pub open spec fn spec_se_val(v: Ch8View, x: u8, kk: u8) -> Ch8View {
    Ch8View { pc: v.pc + if v.regs[x as int] == kk { 4int } else { 2int }, ..v }
}

/// skip-if-not-equal (register vs immediate): advance 4 when different,
/// else 2.
pub open spec fn spec_sne_val(v: Ch8View, x: u8, kk: u8) -> Ch8View {
    Ch8View { pc: v.pc + if v.regs[x as int] != kk { 4int } else { 2int }, ..v }
}

/// skip-if-reg-equal: advance 4 when the registers agree, else 2.
pub open spec fn spec_se_reg(v: Ch8View, x: u8, y: u8) -> Ch8View {
    Ch8View { pc: v.pc + if v.regs[x as int] == v.regs[y as int] { 4int } else { 2int }, ..v }
}

/// skip-if-reg-not-equal: advance 4 when the registers differ, else 2.
pub open spec fn spec_sne_reg(v: Ch8View, x: u8, y: u8) -> Ch8View {
    Ch8View { pc: v.pc + if v.regs[x as int] != v.regs[y as int] { 4int } else { 2int }, ..v }
}

/// load-immediate: Vx <- kk.
pub open spec fn spec_ld_reg(v: Ch8View, x: u8, kk: u8) -> Ch8View {
    Ch8View { regs: v.regs.update(x as int, kk), pc: v.pc + 2, ..v }
}

/// add-immediate: Vx <- Vx + kk with wraparound; no flag effect.
pub open spec fn spec_add_val(v: Ch8View, x: u8, kk: u8) -> Ch8View {
    Ch8View { regs: v.regs.update(x as int, wrap_add8(v.regs[x as int], kk)), pc: v.pc + 2, ..v }
}

/// copy-register: Vx <- Vy.
pub open spec fn spec_copy(v: Ch8View, x: u8, y: u8) -> Ch8View {
    Ch8View { regs: v.regs.update(x as int, v.regs[y as int]), pc: v.pc + 2, ..v }
}

/// or: Vx <- Vx | Vy, then VF forced to 0.
pub open spec fn spec_or(v: Ch8View, x: u8, y: u8) -> Ch8View {
    let r1 = v.regs.update(x as int, v.regs[x as int] | v.regs[y as int]);
    Ch8View { regs: r1.update(15, 0u8), pc: v.pc + 2, ..v }
}

/// and: Vx <- Vx & Vy, then VF forced to 0.
pub open spec fn spec_and(v: Ch8View, x: u8, y: u8) -> Ch8View {
    let r1 = v.regs.update(x as int, v.regs[x as int] & v.regs[y as int]);
    Ch8View { regs: r1.update(15, 0u8), pc: v.pc + 2, ..v }
}

/// xor: Vx <- Vx ^ Vy, then VF forced to 0.
pub open spec fn spec_xor(v: Ch8View, x: u8, y: u8) -> Ch8View {
    let r1 = v.regs.update(x as int, v.regs[x as int] ^ v.regs[y as int]);
    Ch8View { regs: r1.update(15, 0u8), pc: v.pc + 2, ..v }
}

/// add-registers: the carry flag is written first, from the operands as
/// they were read; the wrapped sum is then formed from the registers as
/// they stand after the flag write (visible when VF itself is an
/// operand).
pub open spec fn spec_add_reg(v: Ch8View, x: u8, y: u8) -> Ch8View {
    let f: u8 = if v.regs[x as int] + v.regs[y as int] > 255 {
        1u8
    } else {
        0u8
    };
    let r1 = v.regs.update(15, f);
    Ch8View {
        regs: r1.update(x as int, wrap_add8(r1[x as int], r1[y as int])),
        pc: v.pc + 2,
        ..v
    }
}

/// sub (x-y): the borrow flag is written first (1 when Vx < Vy); the
/// wrapped difference is then formed from the registers as they stand
/// after the flag write.
pub open spec fn spec_sub_regxy(v: Ch8View, x: u8, y: u8) -> Ch8View {
    let f: u8 = if v.regs[x as int] < v.regs[y as int] {
        1u8
    } else {
        0u8
    };
    let r1 = v.regs.update(15, f);
    Ch8View {
        regs: r1.update(x as int, wrap_sub8(r1[x as int], r1[y as int])),
        pc: v.pc + 2,
        ..v
    }
}

/// shift-right: VF captures the least-significant bit before the shift.
pub open spec fn spec_shift_r(v: Ch8View, x: u8) -> Ch8View {
    let r1 = v.regs.update(15, v.regs[x as int] & 1);
    Ch8View { regs: r1.update(x as int, r1[x as int] >> 1), pc: v.pc + 2, ..v }
}

/// sub (y-x): the borrow flag is written first (1 when Vy < Vx); the
/// wrapped difference is then formed from the registers as they stand
/// after the flag write.
pub open spec fn spec_sub_regyx(v: Ch8View, x: u8, y: u8) -> Ch8View {
    let f: u8 = if v.regs[y as int] < v.regs[x as int] {
        1u8
    } else {
        0u8
    };
    let r1 = v.regs.update(15, f);
    Ch8View {
        regs: r1.update(x as int, wrap_sub8(r1[y as int], r1[x as int])),
        pc: v.pc + 2,
        ..v
    }
}

/// shift-left: VF captures the most-significant bit before the shift; the
/// shift itself truncates to eight bits.
pub open spec fn spec_shift_l(v: Ch8View, x: u8) -> Ch8View {
    let r1 = v.regs.update(15, v.regs[x as int] >> 7);
    Ch8View { regs: r1.update(x as int, (r1[x as int] << 1) as u8), pc: v.pc + 2, ..v }
}

/// load-index: index <- nnn.
pub open spec fn spec_ld_indx(v: Ch8View, nnn: u16) -> Ch8View {
    Ch8View { index: nnn, pc: v.pc + 2, ..v }
}

/// jump-plus-v0: program counter <- nnn + V0.
pub open spec fn spec_jmpadd(v: Ch8View, nnn: u16) -> Ch8View {
    Ch8View { pc: nnn + v.regs[0], ..v }
}

/// random-and: Vx <- b & kk, where b is whatever byte the random source
/// produced.
pub open spec fn spec_rand_and(v: Ch8View, x: u8, kk: u8, b: u8) -> Ch8View {
    Ch8View { regs: v.regs.update(x as int, b & kk), pc: v.pc + 2, ..v }
}

/// Whether sprite row bit `col` of `byte` is set; bit 0 is the leftmost
/// pixel of the row.
pub open spec fn bit_at(byte: u8, col: u8) -> bool {
    byte & (0x80u8 >> col) != 0
}

/// The display cell a sprite pixel lands on: the row-major position,
/// wrapped through the flat 2048-cell buffer.
pub open spec fn pixel_index(xpos: int, yline: int) -> int {
    (xpos + yline * 64) % 2048
}

/// Whether one of the first `cols` bits of a sprite row flips display
/// cell `c`: some set bit among them lands there.
pub open spec fn row_hits_upto(byte: u8, px: u8, yline: int, cols: int, c: int) -> bool {
    exists|col: u8| col < cols && bit_at(byte, col) && pixel_index(px + col, yline) == c
}

/// Whether one sprite row flips display cell `c`: some set bit of the row
/// lands there. Within one row the eight targets are distinct, so a row
/// flips a cell at most once.
pub open spec fn row_hits(byte: u8, px: u8, yline: int, c: int) -> bool {
    row_hits_upto(byte, px, yline, 8, c)
}

/// Whether drawing the first `rows` rows of the sprite at memory[base..]
/// flips display cell `c` an odd number of times.
pub open spec fn sprite_flips(mem: Seq<u8>, base: int, px: u8, py: u8, rows: int, c: int) -> bool
    decreases rows,
{
    if rows <= 0 {
        false
    } else {
        sprite_flips(mem, base, px, py, rows - 1, c) != row_hits(
            mem[base + rows - 1],
            px,
            py + rows - 1,
            c,
        )
    }
}

/// A display cell after an XOR write.
pub open spec fn flip(p: u32) -> u32 {
    p ^ 1
}

/// draw-sprite: every cell an odd number of sprite bits lands on is
/// flipped; VF is first set on any 1 -> 0 flip but unconditionally zeroed
/// once the loop is done, so it always ends at 0; the redraw flag is
/// raised.
pub open spec fn spec_draw(v: Ch8View, x: u8, y: u8, n: u8) -> Ch8View {
    let px = v.regs[x as int];
    let py = v.regs[y as int];
    Ch8View {
        display: Seq::new(
            2048,
            |c: int|
                if sprite_flips(v.mem, v.index as int, px, py, n as int, c) {
                    flip(v.display[c])
                } else {
                    v.display[c]
                },
        ),
        regs: v.regs.update(15, 0u8),
        draw: true,
        pc: v.pc + 2,
        ..v
    }
}

/// read-delay-timer: Vx <- delay timer.
pub open spec fn spec_get_delay(v: Ch8View, x: u8) -> Ch8View {
    Ch8View { regs: v.regs.update(x as int, v.delay), pc: v.pc + 2, ..v }
}

/// The lowest pressed key at or above slot `k`, or 16 when none is.
pub open spec fn first_pressed(keys: Seq<u32>, k: int) -> int
    decreases 16 - k,
{
    if k < 0 || k >= 16 {
        16
    } else if keys[k] != 0 {
        k
    } else {
        first_pressed(keys, k + 1)
    }
}

/// wait-for-key: when some key is pressed, store the lowest pressed key's
/// index and advance; when none is, change nothing, so the instruction
/// re-executes on the next step.
pub open spec fn spec_wait_key(v: Ch8View, x: u8) -> Ch8View {
    let p = first_pressed(v.keys, 0);
    if p < 16 {
        Ch8View { regs: v.regs.update(x as int, p as u8), pc: v.pc + 2, ..v }
    } else {
        v
    }
}

/// set-delay-timer: delay timer <- Vx.
pub open spec fn spec_set_delay(v: Ch8View, x: u8) -> Ch8View {
    Ch8View { delay: v.regs[x as int], pc: v.pc + 2, ..v }
}

/// set-sound-timer: sound timer <- Vx.
pub open spec fn spec_set_sound(v: Ch8View, x: u8) -> Ch8View {
    Ch8View { sound: v.regs[x as int], pc: v.pc + 2, ..v }
}

/// add-to-index: the overflow flag is written first (1 when the sum passes
/// 0xFFF); the index then grows by Vx as it stands after the flag write,
/// with 16-bit wraparound.
pub open spec fn spec_add_indx(v: Ch8View, x: u8) -> Ch8View {
    let f: u8 = if v.index + v.regs[x as int] > 0xFFF {
        1u8
    } else {
        0u8
    };
    let r1 = v.regs.update(15, f);
    Ch8View {
        regs: r1,
        index: ((v.index + r1[x as int]) % 0x10000) as u16,
        pc: v.pc + 2,
        ..v
    }
}

/// store-bcd: the three decimal digits of Vx go to memory at the index.
pub open spec fn spec_encode_save(v: Ch8View, x: u8) -> Ch8View {
    let val = v.regs[x as int];
    Ch8View {
        mem: v.mem.update(v.index as int, (val / 100) as u8).update(
            v.index + 1,
            ((val / 10) % 10) as u8,
        ).update(v.index + 2, (val % 10) as u8),
        pc: v.pc + 2,
        ..v
    }
}

/// store-registers: V0..Vx go to memory starting at the index, which then
/// advances by x + 1 (the cursor is consumed, not preserved).
pub open spec fn spec_save(v: Ch8View, x: u8) -> Ch8View {
    Ch8View {
        mem: Seq::new(
            4096,
            |a: int|
                if v.index <= a <= v.index + x {
                    v.regs[a - v.index]
                } else {
                    v.mem[a]
                },
        ),
        index: (v.index + x + 1) as u16,
        pc: v.pc + 2,
        ..v
    }
}

/// load-registers: V0..Vx are read from memory starting at the index,
/// which then advances by x + 1.
pub open spec fn spec_load(v: Ch8View, x: u8) -> Ch8View {
    Ch8View {
        regs: Seq::new(
            16,
            |i: int|
                if 0 <= i <= x {
                    v.mem[v.index + i]
                } else {
                    v.regs[i]
                },
        ),
        index: (v.index + x + 1) as u16,
        pc: v.pc + 2,
        ..v
    }
}

/// An unrecognized encoding: a no-op step; the program counter still
/// advances by the general policy.
pub open spec fn spec_unknown(v: Ch8View) -> Ch8View {
    Ch8View { pc: v.pc + 2, ..v }
}

/// The state transition of the instruction at the program counter. `b` is
/// the byte the random source produced; only random-and reads it.
pub open spec fn spec_exec_instr(v: Ch8View, b: u8) -> Ch8View {
    match spec_decode(spec_fetch(v)) {
        Instruction::Cls => spec_cls(v),
        Instruction::Ret => spec_ret(v),
        Instruction::Jmp(nnn) => spec_jmp(v, nnn),
        Instruction::Call(nnn) => spec_call(v, nnn),
        Instruction::SeVal(x, kk) => spec_se_val(v, x, kk),
        Instruction::SneVal(x, kk) => spec_sne_val(v, x, kk),
        Instruction::SeReg(x, y) => spec_se_reg(v, x, y),
        Instruction::LdReg(x, kk) => spec_ld_reg(v, x, kk),
        Instruction::AddVal(x, kk) => spec_add_val(v, x, kk),
        Instruction::Copy(x, y) => spec_copy(v, x, y),
        Instruction::Or(x, y) => spec_or(v, x, y),
        Instruction::And(x, y) => spec_and(v, x, y),
        Instruction::Xor(x, y) => spec_xor(v, x, y),
        Instruction::AddReg(x, y) => spec_add_reg(v, x, y),
        Instruction::SubRegXY(x, y) => spec_sub_regxy(v, x, y),
        Instruction::ShiftR(x) => spec_shift_r(v, x),
        Instruction::SubRegYX(x, y) => spec_sub_regyx(v, x, y),
        Instruction::ShiftL(x) => spec_shift_l(v, x),
        Instruction::SneReg(x, y) => spec_sne_reg(v, x, y),
        Instruction::LdIndx(nnn) => spec_ld_indx(v, nnn),
        Instruction::JmpAdd(nnn) => spec_jmpadd(v, nnn),
        Instruction::RandAnd(x, kk) => spec_rand_and(v, x, kk, b),
        Instruction::Draw(x, y, n) => spec_draw(v, x, y, n),
        Instruction::GetDelay(x) => spec_get_delay(v, x),
        Instruction::WaitKey(x) => spec_wait_key(v, x),
        Instruction::SetDelay(x) => spec_set_delay(v, x),
        Instruction::SetSound(x) => spec_set_sound(v, x),
        Instruction::AddIndx(x) => spec_add_indx(v, x),
        Instruction::EncodeSave(x) => spec_encode_save(v, x),
        Instruction::Save(x) => spec_save(v, x),
        Instruction::Load(x) => spec_load(v, x),
        Instruction::Unknown => spec_unknown(v),
    }
}

/// Both timers count down by one per step while positive, and floor at
/// zero.
pub open spec fn spec_tick_timers(v: Ch8View) -> Ch8View {
    Ch8View {
        delay: if v.delay > 0 {
            (v.delay - 1) as u8
        } else {
            0u8
        },
        sound: if v.sound > 0 {
            (v.sound - 1) as u8
        } else {
            0u8
        },
        ..v
    }
}

/// One full step: execute the instruction at the program counter, then
/// tick both timers.
pub open spec fn spec_step(v: Ch8View, b: u8) -> Ch8View {
    spec_tick_timers(spec_exec_instr(v, b))
}

/// Two distinct numbers less than 2048 apart cannot share a residue
/// modulo 2048.
pub proof fn lemma_mod2048_distinct(a: int, b: int)
    requires
        0 <= a < b,
        b - a < 2048,
    ensures
        a % 2048 != b % 2048,
{
    vstd::arithmetic::div_mod::lemma_fundamental_div_mod(a, 2048);
    vstd::arithmetic::div_mod::lemma_fundamental_div_mod(b, 2048);
    vstd::arithmetic::div_mod::lemma_mod_bound(a, 2048);
    vstd::arithmetic::div_mod::lemma_mod_bound(b, 2048);
    let qa = a / 2048;
    let qb = b / 2048;
    if a % 2048 == b % 2048 {
        assert(b - a == 2048 * (qb - qa)) by (nonlinear_arith)
            requires
                a == 2048 * qa + a % 2048,
                b == 2048 * qb + b % 2048,
                a % 2048 == b % 2048,
        ;
        assert(qb - qa >= 1 ==> 2048 * (qb - qa) >= 2048) by (nonlinear_arith);
        assert(qb - qa <= 0 ==> 2048 * (qb - qa) <= 0) by (nonlinear_arith);
        assert(false);
    }
}

/// The first `j` bits of a row never land on the cell that bit `j` lands
/// on: the eight targets of one row are distinct.
pub proof fn lemma_row_no_rehit(byte: u8, px: u8, yline: int, j: u8)
    requires
        j < 8,
        0 <= yline,
    ensures
        !row_hits_upto(byte, px, yline, j as int, pixel_index(px + j, yline)),
{
    let t = pixel_index(px + j, yline);
    if row_hits_upto(byte, px, yline, j as int, t) {
        let w = choose|col: u8|
            col < j as int && bit_at(byte, col) && pixel_index(px + col, yline) == t;
        lemma_mod2048_distinct(px + w + yline * 64, px + j + yline * 64);
        assert(false);
    }
}

/// How the hit predicate for a row grows as one more bit is processed.
pub proof fn lemma_row_hits_step(byte: u8, px: u8, yline: int, j: u8, c: int)
    requires
        j < 8,
    ensures
        bit_at(byte, j) ==> row_hits_upto(byte, px, yline, j + 1, c) == (row_hits_upto(
            byte,
            px,
            yline,
            j as int,
            c,
        ) || c == pixel_index(px + j, yline)),
        !bit_at(byte, j) ==> row_hits_upto(byte, px, yline, j + 1, c) == row_hits_upto(
            byte,
            px,
            yline,
            j as int,
            c,
        ),
{
    if row_hits_upto(byte, px, yline, j + 1, c) {
        let w = choose|col: u8|
            col < j + 1 && bit_at(byte, col) && pixel_index(px + col, yline) == c;
        if w < j {
            assert(row_hits_upto(byte, px, yline, j as int, c));
        }
    }
    if row_hits_upto(byte, px, yline, j as int, c) {
        let w = choose|col: u8|
            col < j as int && bit_at(byte, col) && pixel_index(px + col, yline) == c;
        assert(w < j + 1 && bit_at(byte, w) && pixel_index(px + w, yline) == c);
        assert(row_hits_upto(byte, px, yline, j + 1, c));
    }
    if bit_at(byte, j) && c == pixel_index(px + j, yline) {
        assert(j < j + 1 && bit_at(byte, j) && pixel_index(px + j, yline) == c);
        assert(row_hits_upto(byte, px, yline, j + 1, c));
    }
}

/// XOR-writing a display cell twice restores it.
pub proof fn lemma_flip_involutive(p: u32)
    ensures
        flip(flip(p)) == p,
{
    assert((p ^ 1) ^ 1 == p) by (bit_vector);
}

/// On a cell holding 0 or 1, an XOR write toggles between 0 and 1.
pub proof fn lemma_flip_bit(p: u32)
    requires
        p == 0 || p == 1,
    ensures
        flip(p) == if p == 0 {
            1u32
        } else {
            0u32
        },
{
    assert(0u32 ^ 1 == 1 && 1u32 ^ 1 == 0) by (bit_vector);
}

/// Where the scan lands when the keys below `p` are unpressed and key `p`
/// is pressed.
pub proof fn lemma_first_pressed_from(keys: Seq<u32>, k: int, p: int)
    requires
        0 <= k <= p < 16,
        keys[p] != 0,
        forall|j: int| k <= j < p ==> keys[j] == 0,
    ensures
        first_pressed(keys, k) == p,
    decreases p - k,
{
    if k < p {
        lemma_first_pressed_from(keys, k + 1, p);
    }
}

/// With no key pressed from `k` on, the scan runs off the end.
pub proof fn lemma_first_pressed_none_from(keys: Seq<u32>, k: int)
    requires
        0 <= k <= 16,
        forall|j: int| k <= j < 16 ==> keys[j] == 0,
    ensures
        first_pressed(keys, k) == 16,
    decreases 16 - k,
{
    if k < 16 {
        lemma_first_pressed_none_from(keys, k + 1);
    }
}

/// The scan's result is in range; when it finds a key, that key is
/// pressed and every key below it is not.
pub proof fn lemma_first_pressed_props(keys: Seq<u32>, k: int)
    requires
        0 <= k <= 16,
    ensures
        k <= first_pressed(keys, k) <= 16,
        first_pressed(keys, k) < 16 ==> keys[first_pressed(keys, k)] != 0,
        forall|j: int| k <= j < first_pressed(keys, k) ==> keys[j] == 0,
    decreases 16 - k,
{
    if k < 16 && keys[k] == 0 {
        lemma_first_pressed_props(keys, k + 1);
    }
}

/// When a step is defined: the machine is well formed, the opcode's two
/// bytes lie in memory, and the decoded instruction's own memory and
/// stack accesses stay in bounds. A malformed or hostile program image can
/// violate this; the caller must check before stepping.
pub open spec fn step_ok(v: Ch8View) -> bool {
    &&& v.wf()
    &&& v.pc + 1 < 4096
    &&& match spec_decode(spec_fetch(v)) {
        Instruction::Ret => v.sp >= 1,
        Instruction::Call(_) => v.sp < 16,
        Instruction::Draw(_, _, n) => v.index + n <= 4096,
        Instruction::EncodeSave(_) => v.index + 2 < 4096,
        Instruction::Save(x) => v.index + x < 4096,
        Instruction::Load(x) => v.index + x < 4096,
        _ => true,
    }
}

} // verus!
