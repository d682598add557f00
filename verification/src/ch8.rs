use rand::Rng;
use vstd::prelude::*;

use crate::semantics::{
    lemma_first_pressed_from, lemma_first_pressed_none_from, spec_add_indx, spec_add_reg,
    spec_add_val, spec_and, spec_call, spec_cls, spec_copy, spec_encode_save, spec_get_delay,
    spec_jmp, spec_jmpadd, spec_ld_indx, spec_ld_reg, spec_load, spec_or, spec_rand_and, spec_ret,
    spec_save, spec_se_reg, spec_se_val, spec_set_delay, spec_set_sound, spec_shift_l,
    spec_shift_r, spec_sne_reg, spec_sne_val, spec_sub_regxy, spec_sub_regyx, spec_wait_key,
    spec_xor,
};
use crate::decode::{decode, lemma_decode_wf, Instruction};
use crate::semantics::{
    flip, lemma_flip_bit, lemma_flip_involutive, lemma_row_hits_step, lemma_row_no_rehit,
    pixel_index, row_hits_upto, spec_draw, spec_exec_instr, spec_fetch, spec_step,
    spec_tick_timers, sprite_flips, step_ok,
};
use crate::state::{font, initial, Ch8View, MEM_SIZE, ROM_START};

verus! {

/// Why loading a program image was refused.
#[derive(Clone, Copy, PartialEq, Eq, Structural, Debug)]
pub enum LoadError {
    /// The image does not fit between the entry offset and the end of
    /// memory.
    TooLarge,
}

/// Relies on rand::thread_rng and rand::Rng::gen: one uniformly sampled
/// byte. Nothing can be promised of its value.
#[verifier::external_body]
fn random_byte() -> u8 {
    rand::thread_rng().gen()
}

/// A vector of `n` copies of `val`.
fn filled<T: Copy>(n: usize, val: T) -> (v: Vec<T>)
    ensures
        v@.len() == n,
        forall|i: int| 0 <= i < n ==> v@[i] == val,
{
    let mut v: Vec<T> = Vec::new();
    let mut ii: usize = 0;
    while ii < n
        invariant
            ii <= n,
            v@.len() == ii,
            forall|i: int| 0 <= i < ii ==> v@[i] == val,
        decreases n - ii,
    {
        v.push(val);
        ii = ii + 1;
    }
    v
}

/// The machine: memory with the font preloaded, the sixteen registers,
/// the call stack, the display bitmap, the key-state table, the two
/// timers, and the interpreter's cursors.
pub struct Chip8 {
    registers: Vec<u8>,
    memory: Vec<u8>,
    stack: Vec<u16>,
    display: Vec<u32>,
    kp_input: Vec<u32>,
    index: u16,
    pc: usize,
    sp: u8,
    delay_timer: u8,
    sound_timer: u8,
    should_draw: bool,
    debug_enabled: bool,
}

impl View for Chip8 {
    type V = Ch8View;

    closed spec fn view(&self) -> Ch8View {
        Ch8View {
            regs: self.registers@,
            mem: self.memory@,
            stack: self.stack@,
            display: self.display@,
            keys: self.kp_input@,
            index: self.index,
            pc: self.pc as int,
            sp: self.sp as int,
            delay: self.delay_timer,
            sound: self.sound_timer,
            draw: self.should_draw,
            debug: self.debug_enabled,
        }
    }
}

/// Memory after a successful load: the image sits at [512, 512 + len),
/// everything else is untouched.
pub open spec fn spec_loaded(mem: Seq<u8>, rom: Seq<u8>) -> Seq<u8> {
    Seq::new(
        4096,
        |i: int|
            if 512 <= i < 512 + rom.len() {
                rom[i - 512]
            } else {
                mem[i]
            },
    )
}

impl Chip8 {
    /// Structural well-formedness of the machine.
    pub open spec fn wf(&self) -> bool {
        self@.wf()
    }

    /// A fresh machine: font at the bottom of memory, everything else
    /// zeroed, program counter at the entry offset.
    pub fn new(debug_enabled: bool) -> (s: Self)
        ensures
            s@ == initial(debug_enabled),
            s@.wf(),
    {
        let mut memory: Vec<u8> = Vec::new();
        memory.push(0xF0);
        memory.push(0x90);
        memory.push(0x90);
        memory.push(0x90);
        memory.push(0xF0);
        memory.push(0x20);
        memory.push(0x60);
        memory.push(0x20);
        memory.push(0x20);
        memory.push(0x70);
        memory.push(0xF0);
        memory.push(0x10);
        memory.push(0xF0);
        memory.push(0x80);
        memory.push(0xF0);
        memory.push(0xF0);
        memory.push(0x10);
        memory.push(0xF0);
        memory.push(0x10);
        memory.push(0xF0);
        memory.push(0x90);
        memory.push(0x90);
        memory.push(0xF0);
        memory.push(0x10);
        memory.push(0x10);
        memory.push(0xF0);
        memory.push(0x80);
        memory.push(0xF0);
        memory.push(0x10);
        memory.push(0xF0);
        memory.push(0xF0);
        memory.push(0x80);
        memory.push(0xF0);
        memory.push(0x90);
        memory.push(0xF0);
        memory.push(0xF0);
        memory.push(0x10);
        memory.push(0x20);
        memory.push(0x40);
        memory.push(0x40);
        memory.push(0xF0);
        memory.push(0x90);
        memory.push(0xF0);
        memory.push(0x90);
        memory.push(0xF0);
        memory.push(0xF0);
        memory.push(0x90);
        memory.push(0xF0);
        memory.push(0x10);
        memory.push(0xF0);
        memory.push(0xF0);
        memory.push(0x90);
        memory.push(0xF0);
        memory.push(0x90);
        memory.push(0x90);
        memory.push(0xE0);
        memory.push(0x90);
        memory.push(0xE0);
        memory.push(0x90);
        memory.push(0xE0);
        memory.push(0xF0);
        memory.push(0x80);
        memory.push(0x80);
        memory.push(0x80);
        memory.push(0xF0);
        memory.push(0xE0);
        memory.push(0x90);
        memory.push(0x90);
        memory.push(0x90);
        memory.push(0xE0);
        memory.push(0xF0);
        memory.push(0x80);
        memory.push(0xF0);
        memory.push(0x80);
        memory.push(0xF0);
        memory.push(0xF0);
        memory.push(0x80);
        memory.push(0xF0);
        memory.push(0x80);
        memory.push(0x80);
        proof {
            assert(memory@ =~= font());
        }
        let mut ii: usize = 80;
        while ii < MEM_SIZE
            invariant
                80 <= ii <= 4096,
                memory@.len() == ii,
                forall|j: int| 0 <= j < 80 ==> memory@[j] == font()[j],
                forall|j: int| 80 <= j < ii ==> memory@[j] == 0u8,
            decreases 4096 - ii,
        {
            memory.push(0u8);
            ii = ii + 1;
        }
        let s = Chip8 {
            registers: filled(16, 0u8),
            memory,
            stack: filled(16, 0u16),
            display: filled(2048, 0u32),
            kp_input: filled(16, 0u32),
            index: 0,
            pc: ROM_START,
            sp: 0,
            delay_timer: 0,
            sound_timer: 0,
            should_draw: false,
            debug_enabled,
        };
        proof {
            assert(s@.regs =~= initial(debug_enabled).regs);
            assert(s@.mem =~= initial(debug_enabled).mem);
            assert(s@.stack =~= initial(debug_enabled).stack);
            assert(s@.display =~= initial(debug_enabled).display);
            assert(s@.keys =~= initial(debug_enabled).keys);
            assert(s@ =~= initial(debug_enabled));
        }
        s
    }

    /// Whether verbose per-instruction logging was requested at
    /// construction.
    pub fn debug_enabled(&self) -> (r: bool)
        ensures
            r == self@.debug,
    {
        self.debug_enabled
    }

    /// Copy a program image into memory at the entry offset. The whole
    /// image must fit; an image over 3584 bytes is refused and the
    /// machine is left unmodified. Memory below the entry offset is never
    /// touched.
    pub fn read_rom(&mut self, rom: &Vec<u8>) -> (r: Result<(), LoadError>)
        requires
            old(self)@.wf(),
        ensures
            final(self)@.wf(),
            rom@.len() <= 3584 ==> (r matches Ok(_) && final(self)@ == (Ch8View {
                mem: spec_loaded(old(self)@.mem, rom@),
                ..old(self)@
            })),
            rom@.len() > 3584 ==> (r matches Err(e) && e == LoadError::TooLarge && final(self)@
                == old(self)@),
            forall|i: int| 0 <= i < 512 ==> final(self)@.mem[i] == old(self)@.mem[i],
    {
        if rom.len() > MEM_SIZE - ROM_START {
            return Err(LoadError::TooLarge);
        }
        let mut ii: usize = 0;
        while ii < rom.len()
            invariant
                old(self)@.wf(),
                ii <= rom@.len() <= 3584,
                self@ == (Ch8View { mem: self.memory@, ..old(self)@ }),
                self.memory@.len() == 4096,
                forall|j: int| 0 <= j < ii ==> self.memory@[512 + j] == rom@[j],
                forall|j: int|
                    0 <= j < 4096 && !(512 <= j < 512 + ii) ==> self.memory@[j] == old(
                        self,
                    )@.mem[j],
            decreases rom@.len() - ii,
        {
            self.memory.set(ROM_START + ii, rom[ii]);
            ii = ii + 1;
        }
        proof {
            assert(self.memory@ =~= spec_loaded(old(self)@.mem, rom@));
            assert(self@ =~= (Ch8View { mem: spec_loaded(old(self)@.mem, rom@), ..old(self)@ }));
        }
        Ok(())
    }

    /// Whether the display changed since the flag was last cleared.
    pub fn should_draw(&self) -> (r: bool)
        ensures
            r == self@.draw,
    {
        self.should_draw
    }

    /// Set or clear the redraw flag; the renderer clears it after
    /// consuming a frame.
    pub fn set_should_draw(&mut self, should_draw: bool)
        ensures
            final(self)@ == (Ch8View { draw: should_draw, ..old(self)@ }),
    {
        self.should_draw = should_draw;
    }

    /// Bounds-checked display read.
    pub fn get_display(&self, index: usize) -> (r: u32)
        requires
            self@.wf(),
            index < 2048,
        ensures
            r == self@.display[index as int],
    {
        self.display[index]
    }

    /// External input mutation point: mark one key pressed or released.
    pub fn set_input(&mut self, key: usize, pressed: bool)
        requires
            old(self)@.wf(),
            key < 16,
        ensures
            final(self)@ == (Ch8View {
                keys: old(self)@.keys.update(
                    key as int,
                    if pressed {
                        1u32
                    } else {
                        0u32
                    },
                ),
                ..old(self)@
            }),
            final(self)@.wf(),
    {
        self.kp_input.set(key, if pressed { 1 } else { 0 });
    }

    /// One register's value.
    pub fn get_register(&self, register: usize) -> (r: u8)
        requires
            self@.wf(),
            register < 16,
        ensures
            r == self@.regs[register as int],
    {
        self.registers[register]
    }

    /// One memory byte.
    pub fn get_memory(&self, address: usize) -> (r: u8)
        requires
            self@.wf(),
            address < 4096,
        ensures
            r == self@.mem[address as int],
    {
        self.memory[address]
    }

    /// The program counter.
    pub fn get_pc(&self) -> (r: usize)
        ensures
            r == self@.pc,
    {
        self.pc
    }

    /// The index pointer.
    pub fn get_index(&self) -> (r: u16)
        ensures
            r == self@.index,
    {
        self.index
    }

    /// The stack pointer.
    pub fn get_sp(&self) -> (r: u8)
        ensures
            r == self@.sp,
    {
        self.sp
    }

    /// The delay timer.
    pub fn get_delay_timer(&self) -> (r: u8)
        ensures
            r == self@.delay,
    {
        self.delay_timer
    }

    /// The sound timer.
    pub fn get_sound_timer(&self) -> (r: u8)
        ensures
            r == self@.sound,
    {
        self.sound_timer
    }

    /// Whether the next step is defined: the opcode's two bytes lie in
    /// memory and the decoded instruction's own memory and stack accesses
    /// stay in bounds. A driver checks this before each step and treats a
    /// refusal as a fatal fault of the loaded program.
    pub fn can_step(&self) -> (r: bool)
        requires
            self@.wf(),
        ensures
            r == step_ok(self@),
    {
        if self.pc >= 4095 {
            return false;
        }
        let hi = self.memory[self.pc];
        let lo = self.memory[self.pc + 1];
        let op: u16 = ((hi as u16) << 8) | (lo as u16);
        let instr = decode(op);
        match instr {
            Instruction::Ret => self.sp >= 1,
            Instruction::Call(_) => self.sp < 16,
            Instruction::Draw(_, _, n) => (self.index as usize) + (n as usize) <= 4096,
            Instruction::EncodeSave(_) => (self.index as usize) + 2 < 4096,
            Instruction::Save(x) => (self.index as usize) + (x as usize) < 4096,
            Instruction::Load(x) => (self.index as usize) + (x as usize) < 4096,
            _ => true,
        }
    }

    /// One fetch-decode-execute cycle followed by the timer decrement.
    /// The machine afterwards is exactly the step transition of the
    /// machine before, for some byte drawn by the random source (only
    /// random-and reads it).
    pub fn cycle(&mut self)
        requires
            step_ok(old(self)@),
        ensures
            exists|b: u8| final(self)@ == spec_step(old(self)@, b),
            final(self)@.wf(),
    {
        let hi = self.memory[self.pc];
        let lo = self.memory[self.pc + 1];
        let op: u16 = ((hi as u16) << 8) | (lo as u16);
        proof {
            assert(op == spec_fetch(self@));
            lemma_decode_wf(op);
        }
        let instr = decode(op);
        match instr {
            Instruction::Cls => {
                self.cls();
                proof {
                    assert(self@ == spec_exec_instr(old(self)@, 0u8));
                }
            },
            Instruction::Ret => {
                self.ret();
                proof {
                    assert(self@ == spec_exec_instr(old(self)@, 0u8));
                }
            },
            Instruction::Jmp(nnn) => {
                self.jmp(nnn as i32);
                proof {
                    assert(self@ == spec_exec_instr(old(self)@, 0u8));
                }
            },
            Instruction::Call(nnn) => {
                self.call(nnn as i32);
                proof {
                    assert(self@ == spec_exec_instr(old(self)@, 0u8));
                }
            },
            Instruction::SeVal(x, kk) => {
                self.se_val(x, kk);
                proof {
                    assert(self@ == spec_exec_instr(old(self)@, 0u8));
                }
            },
            Instruction::SneVal(x, kk) => {
                self.sne_val(x, kk);
                proof {
                    assert(self@ == spec_exec_instr(old(self)@, 0u8));
                }
            },
            Instruction::SeReg(x, y) => {
                self.se_reg(x, y);
                proof {
                    assert(self@ == spec_exec_instr(old(self)@, 0u8));
                }
            },
            Instruction::LdReg(x, kk) => {
                self.ld_reg(x, kk);
                proof {
                    assert(self@ == spec_exec_instr(old(self)@, 0u8));
                }
            },
            Instruction::AddVal(x, kk) => {
                self.add_val(x, kk);
                proof {
                    assert(self@ == spec_exec_instr(old(self)@, 0u8));
                }
            },
            Instruction::Copy(x, y) => {
                self.copy(x, y);
                proof {
                    assert(self@ == spec_exec_instr(old(self)@, 0u8));
                }
            },
            Instruction::Or(x, y) => {
                self.or(x, y);
                proof {
                    assert(self@ == spec_exec_instr(old(self)@, 0u8));
                }
            },
            Instruction::And(x, y) => {
                self.and(x, y);
                proof {
                    assert(self@ == spec_exec_instr(old(self)@, 0u8));
                }
            },
            Instruction::Xor(x, y) => {
                self.xor(x, y);
                proof {
                    assert(self@ == spec_exec_instr(old(self)@, 0u8));
                }
            },
            Instruction::AddReg(x, y) => {
                self.add_reg(x, y);
                proof {
                    assert(self@ == spec_exec_instr(old(self)@, 0u8));
                }
            },
            Instruction::SubRegXY(x, y) => {
                self.sub_regxy(x, y);
                proof {
                    assert(self@ == spec_exec_instr(old(self)@, 0u8));
                }
            },
            Instruction::ShiftR(x) => {
                self.shift_r(x);
                proof {
                    assert(self@ == spec_exec_instr(old(self)@, 0u8));
                }
            },
            Instruction::SubRegYX(x, y) => {
                self.sub_regyx(x, y);
                proof {
                    assert(self@ == spec_exec_instr(old(self)@, 0u8));
                }
            },
            Instruction::ShiftL(x) => {
                self.shift_l(x);
                proof {
                    assert(self@ == spec_exec_instr(old(self)@, 0u8));
                }
            },
            Instruction::SneReg(x, y) => {
                self.sne_reg(x, y);
                proof {
                    assert(self@ == spec_exec_instr(old(self)@, 0u8));
                }
            },
            Instruction::LdIndx(nnn) => {
                self.ld_indx(nnn as i32);
                proof {
                    assert(self@ == spec_exec_instr(old(self)@, 0u8));
                }
            },
            Instruction::JmpAdd(nnn) => {
                self.jmpadd(nnn as i32);
                proof {
                    assert(self@ == spec_exec_instr(old(self)@, 0u8));
                }
            },
            Instruction::RandAnd(x, kk) => {
                self.rand_and(x, kk);
                proof {
                    let bb = choose|b: u8| self@ == spec_rand_and(old(self)@, x, kk, b);
                    assert(self@ == spec_exec_instr(old(self)@, bb));
                }
            },
            Instruction::Draw(x, y, n) => {
                self.draw_pixel(x, y, n as i32);
                proof {
                    assert(self@ == spec_exec_instr(old(self)@, 0u8));
                }
            },
            Instruction::GetDelay(x) => {
                self.get_delay(x);
                proof {
                    assert(self@ == spec_exec_instr(old(self)@, 0u8));
                }
            },
            Instruction::WaitKey(x) => {
                self.wait_key(x);
                proof {
                    assert(self@ == spec_exec_instr(old(self)@, 0u8));
                }
            },
            Instruction::SetDelay(x) => {
                self.set_delay(x);
                proof {
                    assert(self@ == spec_exec_instr(old(self)@, 0u8));
                }
            },
            Instruction::SetSound(x) => {
                self.set_sound(x);
                proof {
                    assert(self@ == spec_exec_instr(old(self)@, 0u8));
                }
            },
            Instruction::AddIndx(x) => {
                self.add_indx(x);
                proof {
                    assert(self@ == spec_exec_instr(old(self)@, 0u8));
                }
            },
            Instruction::EncodeSave(x) => {
                self.encode_save(x);
                proof {
                    assert(self@ == spec_exec_instr(old(self)@, 0u8));
                }
            },
            Instruction::Save(x) => {
                self.save(x);
                proof {
                    assert(self@ == spec_exec_instr(old(self)@, 0u8));
                }
            },
            Instruction::Load(x) => {
                self.load(x);
                proof {
                    assert(self@ == spec_exec_instr(old(self)@, 0u8));
                }
            },
            Instruction::Unknown => {
                self.pc = self.pc + 2;
                proof {
                    assert(self@ == spec_exec_instr(old(self)@, 0u8));
                }
            },
        }
        proof {
            assert(exists|b: u8| self@ == spec_exec_instr(old(self)@, b));
        }
        let ghost mid = self@;
        if self.delay_timer > 0 {
            self.delay_timer = self.delay_timer - 1;
        }
        if self.sound_timer > 0 {
            self.sound_timer = self.sound_timer - 1;
        }
        proof {
            assert(self@ == spec_tick_timers(mid));
            let bb = choose|b: u8| mid == spec_exec_instr(old(self)@, b);
            assert(self@ == spec_step(old(self)@, bb));
        }
    }

    /// instruction(00E0): clear the display.
    pub fn cls(&mut self)
        requires
            old(self)@.wf(),
            old(self)@.pc + 2 <= usize::MAX,
        ensures
            final(self)@ == spec_cls(old(self)@),
            final(self)@.wf(),
    {
        let mut ii: usize = 0;
        while ii < 2048
            invariant
                ii <= 2048,
                self@ == (Ch8View { display: self.display@, ..old(self)@ }),
                self.display@.len() == 2048,
                forall|j: int| 0 <= j < ii ==> self.display@[j] == 0u32,
            decreases 2048 - ii,
        {
            self.display.set(ii, 0);
            ii = ii + 1;
        }
        self.should_draw = true;
        self.pc = self.pc + 2;
        proof {
            assert(self.display@ =~= spec_cls(old(self)@).display);
            assert(self@ =~= spec_cls(old(self)@));
        }
    }

    /// instruction(00EE): return from a subroutine.
    pub fn ret(&mut self)
        requires
            old(self)@.wf(),
            old(self)@.sp >= 1,
        ensures
            final(self)@ == spec_ret(old(self)@),
            final(self)@.wf(),
    {
        self.sp = self.sp - 1;
        self.pc = self.stack[self.sp as usize] as usize;
        self.pc = self.pc + 2;
    }

    /// instruction(1nnn): jump to the absolute address.
    pub fn jmp(&mut self, address: i32)
        requires
            old(self)@.wf(),
            0 <= address < 4096,
        ensures
            final(self)@ == spec_jmp(old(self)@, address as u16),
            final(self)@.wf(),
    {
        self.pc = address as usize;
    }

    /// instruction(2nnn): call the subroutine at the address.
    pub fn call(&mut self, address: i32)
        requires
            old(self)@.wf(),
            old(self)@.sp < 16,
            old(self)@.pc <= 0xFFFF,
            0 <= address < 4096,
        ensures
            final(self)@ == spec_call(old(self)@, address as u16),
            final(self)@.wf(),
    {
        self.stack.set(self.sp as usize, self.pc as u16);
        self.sp = self.sp + 1;
        self.pc = address as usize;
    }

    /// instruction(3xkk): skip the next instruction if Vx equals kk.
    pub fn se_val(&mut self, register: u8, value: u8)
        requires
            old(self)@.wf(),
            register < 16,
            old(self)@.pc + 4 <= usize::MAX,
        ensures
            final(self)@ == spec_se_val(old(self)@, register, value),
            final(self)@.wf(),
    {
        if self.registers[register as usize] == value {
            self.pc = self.pc + 2;
        }
        self.pc = self.pc + 2;
    }

    /// instruction(4xkk): skip the next instruction if Vx differs from kk.
    pub fn sne_val(&mut self, register: u8, value: u8)
        requires
            old(self)@.wf(),
            register < 16,
            old(self)@.pc + 4 <= usize::MAX,
        ensures
            final(self)@ == spec_sne_val(old(self)@, register, value),
            final(self)@.wf(),
    {
        if self.registers[register as usize] != value {
            self.pc = self.pc + 2;
        }
        self.pc = self.pc + 2;
    }

    /// instruction(5xy0): skip the next instruction if Vx equals Vy.
    pub fn se_reg(&mut self, register_x: u8, register_y: u8)
        requires
            old(self)@.wf(),
            register_x < 16,
            register_y < 16,
            old(self)@.pc + 4 <= usize::MAX,
        ensures
            final(self)@ == spec_se_reg(old(self)@, register_x, register_y),
            final(self)@.wf(),
    {
        if self.registers[register_x as usize] == self.registers[register_y as usize] {
            self.pc = self.pc + 2;
        }
        self.pc = self.pc + 2;
    }

    /// instruction(6xkk): set Vx to kk.
    pub fn ld_reg(&mut self, register: u8, value: u8)
        requires
            old(self)@.wf(),
            register < 16,
            old(self)@.pc + 2 <= usize::MAX,
        ensures
            final(self)@ == spec_ld_reg(old(self)@, register, value),
            final(self)@.wf(),
    {
        self.registers.set(register as usize, value);
        self.pc = self.pc + 2;
    }

    /// instruction(7xkk): add kk to Vx with wraparound; no flag effect.
    pub fn add_val(&mut self, register: u8, value: u8)
        requires
            old(self)@.wf(),
            register < 16,
            old(self)@.pc + 2 <= usize::MAX,
        ensures
            final(self)@ == spec_add_val(old(self)@, register, value),
            final(self)@.wf(),
    {
        let val = self.registers[register as usize];
        self.registers.set(register as usize, val.wrapping_add(value));
        self.pc = self.pc + 2;
    }

    /// instruction(8xy0): copy Vy into Vx.
    pub fn copy(&mut self, register_x: u8, register_y: u8)
        requires
            old(self)@.wf(),
            register_x < 16,
            register_y < 16,
            old(self)@.pc + 2 <= usize::MAX,
        ensures
            final(self)@ == spec_copy(old(self)@, register_x, register_y),
            final(self)@.wf(),
    {
        let val = self.registers[register_y as usize];
        self.registers.set(register_x as usize, val);
        self.pc = self.pc + 2;
    }

    /// instruction(8xy1): bitwise or of Vy into Vx; VF forced to 0.
    pub fn or(&mut self, register_x: u8, register_y: u8)
        requires
            old(self)@.wf(),
            register_x < 16,
            register_y < 16,
            old(self)@.pc + 2 <= usize::MAX,
        ensures
            final(self)@ == spec_or(old(self)@, register_x, register_y),
            final(self)@.wf(),
    {
        let rx = self.registers[register_x as usize];
        let ry = self.registers[register_y as usize];
        self.registers.set(register_x as usize, rx | ry);
        self.registers.set(15, 0);
        self.pc = self.pc + 2;
    }

    /// instruction(8xy2): bitwise and of Vy into Vx; VF forced to 0.
    pub fn and(&mut self, register_x: u8, register_y: u8)
        requires
            old(self)@.wf(),
            register_x < 16,
            register_y < 16,
            old(self)@.pc + 2 <= usize::MAX,
        ensures
            final(self)@ == spec_and(old(self)@, register_x, register_y),
            final(self)@.wf(),
    {
        let rx = self.registers[register_x as usize];
        let ry = self.registers[register_y as usize];
        self.registers.set(register_x as usize, rx & ry);
        self.registers.set(15, 0);
        self.pc = self.pc + 2;
    }

    /// instruction(8xy3): bitwise xor of Vy into Vx; VF forced to 0.
    pub fn xor(&mut self, register_x: u8, register_y: u8)
        requires
            old(self)@.wf(),
            register_x < 16,
            register_y < 16,
            old(self)@.pc + 2 <= usize::MAX,
        ensures
            final(self)@ == spec_xor(old(self)@, register_x, register_y),
            final(self)@.wf(),
    {
        let rx = self.registers[register_x as usize];
        let ry = self.registers[register_y as usize];
        self.registers.set(register_x as usize, rx ^ ry);
        self.registers.set(15, 0);
        self.pc = self.pc + 2;
    }

    /// instruction(8xy4): add Vy to Vx with wraparound; VF is 1 exactly
    /// when the unsigned sum exceeds 255.
    pub fn add_reg(&mut self, register_x: u8, register_y: u8)
        requires
            old(self)@.wf(),
            register_x < 16,
            register_y < 16,
            old(self)@.pc + 2 <= usize::MAX,
        ensures
            final(self)@ == spec_add_reg(old(self)@, register_x, register_y),
            final(self)@.wf(),
    {
        if (self.registers[register_x as usize] as i32) + (self.registers[register_y
            as usize] as i32) > 0xFF {
            self.registers.set(15, 1);
        } else {
            self.registers.set(15, 0);
        }
        let val = self.registers[register_x as usize];
        let other = self.registers[register_y as usize];
        self.registers.set(register_x as usize, val.wrapping_add(other));
        self.pc = self.pc + 2;
    }

    /// instruction(8xy5): subtract Vy from Vx with wraparound; VF is 1
    /// unless the subtraction borrows (Vx < Vy).
    pub fn sub_regxy(&mut self, register_x: u8, register_y: u8)
        requires
            old(self)@.wf(),
            register_x < 16,
            register_y < 16,
            old(self)@.pc + 2 <= usize::MAX,
        ensures
            final(self)@ == spec_sub_regxy(old(self)@, register_x, register_y),
            final(self)@.wf(),
    {
        if (self.registers[register_x as usize] as i32) - (self.registers[register_y
            as usize] as i32) < 0 {
            self.registers.set(15, 1);
        } else {
            self.registers.set(15, 0);
        }
        let val = self.registers[register_x as usize];
        let other = self.registers[register_y as usize];
        self.registers.set(register_x as usize, val.wrapping_sub(other));
        self.pc = self.pc + 2;
    }

    /// instruction(8xy6): VF captures the least-significant bit of the
    /// register, which is then shifted right by one.
    pub fn shift_r(&mut self, register: u8)
        requires
            old(self)@.wf(),
            register < 16,
            old(self)@.pc + 2 <= usize::MAX,
        ensures
            final(self)@ == spec_shift_r(old(self)@, register),
            final(self)@.wf(),
    {
        let low = self.registers[register as usize] & 0x1;
        self.registers.set(15, low);
        let val = self.registers[register as usize];
        self.registers.set(register as usize, val >> 1);
        self.pc = self.pc + 2;
    }

    /// instruction(8xy7): set Vx to Vy minus Vx with wraparound; VF is 1
    /// unless the subtraction borrows (Vy < Vx).
    pub fn sub_regyx(&mut self, register_x: u8, register_y: u8)
        requires
            old(self)@.wf(),
            register_x < 16,
            register_y < 16,
            old(self)@.pc + 2 <= usize::MAX,
        ensures
            final(self)@ == spec_sub_regyx(old(self)@, register_x, register_y),
            final(self)@.wf(),
    {
        if (self.registers[register_y as usize] as i32) - (self.registers[register_x
            as usize] as i32) < 0 {
            self.registers.set(15, 1);
        } else {
            self.registers.set(15, 0);
        }
        let val = self.registers[register_y as usize];
        let other = self.registers[register_x as usize];
        self.registers.set(register_x as usize, val.wrapping_sub(other));
        self.pc = self.pc + 2;
    }

    /// instruction(8xyE): VF captures the most-significant bit of the
    /// register, which is then shifted left by one, truncating.
    pub fn shift_l(&mut self, register: u8)
        requires
            old(self)@.wf(),
            register < 16,
            old(self)@.pc + 2 <= usize::MAX,
        ensures
            final(self)@ == spec_shift_l(old(self)@, register),
            final(self)@.wf(),
    {
        let high = self.registers[register as usize] >> 7;
        self.registers.set(15, high);
        let val = self.registers[register as usize];
        self.registers.set(register as usize, val << 1);
        self.pc = self.pc + 2;
    }

    /// instruction(9xy0): skip the next instruction if Vx differs from Vy.
    pub fn sne_reg(&mut self, register_x: u8, register_y: u8)
        requires
            old(self)@.wf(),
            register_x < 16,
            register_y < 16,
            old(self)@.pc + 4 <= usize::MAX,
        ensures
            final(self)@ == spec_sne_reg(old(self)@, register_x, register_y),
            final(self)@.wf(),
    {
        if self.registers[register_x as usize] != self.registers[register_y as usize] {
            self.pc = self.pc + 2;
        }
        self.pc = self.pc + 2;
    }

    /// instruction(Annn): set the index pointer to the address.
    pub fn ld_indx(&mut self, value: i32)
        requires
            old(self)@.wf(),
            0 <= value < 4096,
            old(self)@.pc + 2 <= usize::MAX,
        ensures
            final(self)@ == spec_ld_indx(old(self)@, value as u16),
            final(self)@.wf(),
    {
        self.index = value as u16;
        self.pc = self.pc + 2;
    }

    /// instruction(Bnnn): jump to the address plus V0.
    pub fn jmpadd(&mut self, address: i32)
        requires
            old(self)@.wf(),
            0 <= address < 4096,
        ensures
            final(self)@ == spec_jmpadd(old(self)@, address as u16),
            final(self)@.wf(),
    {
        self.pc = address as usize;
        self.pc = self.pc + self.registers[0] as usize;
    }

    /// instruction(Cxkk): store a random byte masked by kk into Vx. Which
    /// byte comes back is up to the random source; the contract promises
    /// only that the result is some sampled byte masked by kk.
    pub fn rand_and(&mut self, register: u8, value: u8)
        requires
            old(self)@.wf(),
            register < 16,
            old(self)@.pc + 2 <= usize::MAX,
        ensures
            exists|b: u8| final(self)@ == spec_rand_and(old(self)@, register, value, b),
            final(self)@.wf(),
    {
        let b = random_byte();
        self.registers.set(register as usize, b & value);
        self.pc = self.pc + 2;
        proof {
            assert(self@ == spec_rand_and(old(self)@, register, value, b));
        }
    }

    /// instruction(Dxyn): draw the n-row sprite read from memory at the
    /// index at screen position (Vx, Vy), XORing each set bit into the
    /// flat display buffer with wraparound. VF is set on any 1 -> 0 flip
    /// while drawing but unconditionally zeroed once the loop is done, so
    /// it always ends at 0. Raises the redraw flag.
    pub fn draw_pixel(&mut self, register_x: u8, register_y: u8, weight: i32)
        requires
            old(self)@.wf(),
            register_x < 16,
            register_y < 16,
            0 <= weight < 16,
            old(self)@.index + weight <= 4096,
            old(self)@.pc + 2 <= usize::MAX,
        ensures
            final(self)@ == spec_draw(old(self)@, register_x, register_y, weight as u8),
            final(self)@.wf(),
    {
        let pixel_x = self.registers[register_x as usize];
        let pixel_y = self.registers[register_y as usize];
        let ghost base = old(self)@.index as int;
        let n = weight as usize;
        let mut row: usize = 0;
        while row < n
            invariant
                old(self)@.wf(),
                n < 16,
                old(self)@.index + n <= 4096,
                pixel_x == old(self)@.regs[register_x as int],
                pixel_y == old(self)@.regs[register_y as int],
                base == old(self)@.index as int,
                row <= n,
                self.display@.len() == 2048,
                forall|c: int|
                    0 <= c < 2048 ==> self.display@[c] == 0 || self.display@[c] == 1,
                forall|c: int|
                    0 <= c < 2048 ==> self.display@[c] == (if sprite_flips(
                        old(self)@.mem,
                        base,
                        pixel_x,
                        pixel_y,
                        row as int,
                        c,
                    ) {
                        flip(old(self)@.display[c])
                    } else {
                        old(self)@.display[c]
                    }),
                self.registers@ == old(self)@.regs || self.registers@ == old(self)@.regs.update(
                    15,
                    1u8,
                ),
                self@ == (Ch8View {
                    regs: self.registers@,
                    display: self.display@,
                    ..old(self)@
                }),
            decreases n - row,
        {
            let pixel = self.memory[self.index as usize + row];
            let ghost disp_row = self.display@;
            let ghost yline = pixel_y as int + row as int;
            let mut j: usize = 0;
            while j < 8
                invariant
                    old(self)@.wf(),
                    n < 16,
                    old(self)@.index + n <= 4096,
                    row < n,
                    j <= 8,
                    base == old(self)@.index as int,
                    pixel == old(self)@.mem[base + row],
                    yline == pixel_y as int + row as int,
                    self.display@.len() == 2048,
                    disp_row.len() == 2048,
                    forall|c: int| 0 <= c < 2048 ==> disp_row[c] == 0 || disp_row[c] == 1,
                    forall|c: int|
                        0 <= c < 2048 ==> self.display@[c] == 0 || self.display@[c] == 1,
                    forall|c: int|
                        0 <= c < 2048 ==> self.display@[c] == (if row_hits_upto(
                            pixel,
                            pixel_x,
                            yline,
                            j as int,
                            c,
                        ) {
                            flip(disp_row[c])
                        } else {
                            disp_row[c]
                        }),
                    self.registers@ == old(self)@.regs || self.registers@ == old(
                        self,
                    )@.regs.update(15, 1u8),
                    self@ == (Ch8View {
                        regs: self.registers@,
                        display: self.display@,
                        ..old(self)@
                    }),
                decreases 8 - j,
            {
                if pixel & (0x80 >> j) != 0 {
                    let indx = ((pixel_x as usize + j) + (pixel_y as usize + row) * 64) % 2048;
                    proof {
                        assert(indx == pixel_index(pixel_x + j, yline));
                        lemma_row_no_rehit(pixel, pixel_x, yline, j as u8);
                    }
                    if self.display[indx] == 1 {
                        self.registers.set(15, 1);
                    }
                    let d = self.display[indx];
                    proof {
                        lemma_flip_bit(d);
                    }
                    self.display.set(indx, d ^ 1);
                }
                proof {
                    assert forall|c: int| 0 <= c < 2048 implies self.display@[c] == (
                    if row_hits_upto(pixel, pixel_x, yline, j + 1, c) {
                        flip(disp_row[c])
                    } else {
                        disp_row[c]
                    }) by {
                        lemma_row_hits_step(pixel, pixel_x, yline, j as u8, c);
                    }
                }
                j = j + 1;
            }
            proof {
                assert forall|c: int| 0 <= c < 2048 implies self.display@[c] == (if sprite_flips(
                    old(self)@.mem,
                    base,
                    pixel_x,
                    pixel_y,
                    row + 1,
                    c,
                ) {
                    flip(old(self)@.display[c])
                } else {
                    old(self)@.display[c]
                }) by {
                    lemma_flip_involutive(old(self)@.display[c]);
                }
            }
            row = row + 1;
        }
        self.registers.set(15, 0);
        self.should_draw = true;
        self.pc = self.pc + 2;
        proof {
            let s = spec_draw(old(self)@, register_x, register_y, weight as u8);
            assert(self.display@ =~= s.display);
            assert(self.registers@ =~= s.regs);
            assert(self@ =~= s);
        }
    }

    /// instruction(Fx07): read the delay timer into Vx.
    pub fn get_delay(&mut self, register: u8)
        requires
            old(self)@.wf(),
            register < 16,
            old(self)@.pc + 2 <= usize::MAX,
        ensures
            final(self)@ == spec_get_delay(old(self)@, register),
            final(self)@.wf(),
    {
        let val = self.delay_timer;
        self.registers.set(register as usize, val);
        self.pc = self.pc + 2;
    }

    /// instruction(Fx0A): scan the key table in ascending order; when
    /// some key is pressed, store the lowest pressed key's index in Vx
    /// and advance; when none is, leave the machine unchanged so the
    /// instruction re-executes on the next step.
    pub fn wait_key(&mut self, register: u8)
        requires
            old(self)@.wf(),
            register < 16,
            old(self)@.pc + 2 <= usize::MAX,
        ensures
            final(self)@ == spec_wait_key(old(self)@, register),
            final(self)@.wf(),
    {
        let mut key_pressed: bool = false;
        let ghost mut found: int = 16;
        let mut ii: usize = 0;
        while ii < 16
            invariant
                old(self)@.wf(),
                register < 16,
                ii <= 16,
                self.kp_input@ == old(self)@.keys,
                !key_pressed ==> self@ == old(self)@ && (forall|j: int|
                    0 <= j < ii ==> old(self)@.keys[j] == 0),
                key_pressed ==> 0 <= found < ii && old(self)@.keys[found] != 0 && (forall|j: int|
                    0 <= j < found ==> old(self)@.keys[j] == 0) && self@ == (Ch8View {
                    regs: old(self)@.regs.update(register as int, found as u8),
                    ..old(self)@
                }),
            decreases 16 - ii,
        {
            if !key_pressed && self.kp_input[ii] != 0 {
                key_pressed = true;
                proof {
                    found = ii as int;
                }
                self.registers.set(register as usize, ii as u8);
            }
            ii = ii + 1;
        }
        if key_pressed {
            self.pc = self.pc + 2;
            proof {
                lemma_first_pressed_from(old(self)@.keys, 0, found);
            }
        } else {
            proof {
                lemma_first_pressed_none_from(old(self)@.keys, 0);
            }
        }
    }

    /// instruction(Fx55): write V0..Vx to memory starting at the index,
    /// which then advances by x + 1 (the cursor is consumed, not
    /// preserved).
    pub fn save(&mut self, register: u8)
        requires
            old(self)@.wf(),
            register < 16,
            old(self)@.index + register < 4096,
            old(self)@.pc + 2 <= usize::MAX,
        ensures
            final(self)@ == spec_save(old(self)@, register),
            final(self)@.wf(),
    {
        let mut ii: usize = 0;
        while ii < register as usize + 1
            invariant
                old(self)@.wf(),
                register < 16,
                old(self)@.index + register < 4096,
                ii <= register + 1,
                self@ == (Ch8View { mem: self.memory@, ..old(self)@ }),
                self.memory@.len() == 4096,
                forall|a: int|
                    old(self)@.index <= a < old(self)@.index + ii ==> self.memory@[a] == old(
                        self,
                    )@.regs[a - old(self)@.index],
                forall|a: int|
                    0 <= a < 4096 && !(old(self)@.index <= a < old(self)@.index + ii)
                        ==> self.memory@[a] == old(self)@.mem[a],
            decreases register + 1 - ii,
        {
            let val = self.registers[ii];
            self.memory.set(self.index as usize + ii, val);
            ii = ii + 1;
        }
        self.index = self.index.wrapping_add(register as u16 + 1);
        self.pc = self.pc + 2;
        proof {
            assert(self.memory@ =~= spec_save(old(self)@, register).mem);
            assert(self@ =~= spec_save(old(self)@, register));
        }
    }

    /// instruction(Fx65): read V0..Vx from memory starting at the index,
    /// which then advances by x + 1.
    pub fn load(&mut self, register: u8)
        requires
            old(self)@.wf(),
            register < 16,
            old(self)@.index + register < 4096,
            old(self)@.pc + 2 <= usize::MAX,
        ensures
            final(self)@ == spec_load(old(self)@, register),
            final(self)@.wf(),
    {
        let mut ii: usize = 0;
        while ii < register as usize + 1
            invariant
                old(self)@.wf(),
                register < 16,
                old(self)@.index + register < 4096,
                ii <= register + 1,
                self@ == (Ch8View { regs: self.registers@, ..old(self)@ }),
                self.registers@.len() == 16,
                forall|i: int|
                    0 <= i < ii ==> self.registers@[i] == old(self)@.mem[old(self)@.index + i],
                forall|i: int| ii <= i < 16 ==> self.registers@[i] == old(self)@.regs[i],
            decreases register + 1 - ii,
        {
            let val = self.memory[self.index as usize + ii];
            self.registers.set(ii, val);
            ii = ii + 1;
        }
        self.index = self.index.wrapping_add(register as u16 + 1);
        self.pc = self.pc + 2;
        proof {
            assert(self.registers@ =~= spec_load(old(self)@, register).regs);
            assert(self@ =~= spec_load(old(self)@, register));
        }
    }

    /// instruction(Fx15): set the delay timer from Vx.
    pub fn set_delay(&mut self, register: u8)
        requires
            old(self)@.wf(),
            register < 16,
            old(self)@.pc + 2 <= usize::MAX,
        ensures
            final(self)@ == spec_set_delay(old(self)@, register),
            final(self)@.wf(),
    {
        self.delay_timer = self.registers[register as usize];
        self.pc = self.pc + 2;
    }

    /// instruction(Fx18): set the sound timer from Vx.
    pub fn set_sound(&mut self, register: u8)
        requires
            old(self)@.wf(),
            register < 16,
            old(self)@.pc + 2 <= usize::MAX,
        ensures
            final(self)@ == spec_set_sound(old(self)@, register),
            final(self)@.wf(),
    {
        self.sound_timer = self.registers[register as usize];
        self.pc = self.pc + 2;
    }

    /// instruction(Fx1E): add Vx to the index with 16-bit wraparound; VF
    /// is 1 exactly when the sum passes 0xFFF.
    pub fn add_indx(&mut self, register: u8)
        requires
            old(self)@.wf(),
            register < 16,
            old(self)@.pc + 2 <= usize::MAX,
        ensures
            final(self)@ == spec_add_indx(old(self)@, register),
            final(self)@.wf(),
    {
        if (self.registers[register as usize] as i32) + (self.index as i32) > 0xFFF {
            self.registers.set(15, 1);
        } else {
            self.registers.set(15, 0);
        }
        let val = self.registers[register as usize];
        self.index = self.index.wrapping_add(val as u16);
        self.pc = self.pc + 2;
    }

    /// instruction(Fx33): write the decimal digits of Vx (hundreds, tens,
    /// ones) to memory at the index.
    pub fn encode_save(&mut self, register: u8)
        requires
            old(self)@.wf(),
            register < 16,
            old(self)@.index + 2 < 4096,
            old(self)@.pc + 2 <= usize::MAX,
        ensures
            final(self)@ == spec_encode_save(old(self)@, register),
            final(self)@.wf(),
    {
        let value = self.registers[register as usize];
        let idx = self.index as usize;
        self.memory.set(idx, value / 100);
        self.memory.set(idx + 1, (value / 10) % 10);
        self.memory.set(idx + 2, (value % 100) % 10);
        self.pc = self.pc + 2;
        proof {
            assert((value % 100) % 10 == value % 10) by (bit_vector);
        }
    }
}

/// Extract a masked, shifted field of an opcode word as a byte.
pub fn shift_u8(value: i32, bits: i32, binary_and: i32) -> (r: u8)
    requires
        0 <= bits < 32,
    ensures
        r == ((value & binary_and) >> bits) as u8,
{
    #[verifier::truncate] (((value & binary_and) >> bits) as u8)
}

/// Extract a masked, shifted field of an opcode word.
pub fn shift_i32(value: i32, bits: i32, binary_and: i32) -> (r: i32)
    requires
        0 <= bits < 32,
    ensures
        r == (value & binary_and) >> bits,
{
    (value & binary_and) >> bits
}

} // verus!
