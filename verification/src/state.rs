use vstd::prelude::*;

verus! {

/// Width of the display in pixels.
pub const VIDEO_WIDTH: usize = 64;

/// Height of the display in pixels.
pub const VIDEO_HEIGHT: usize = 32;

/// Total number of addressable memory bytes.
pub const MEM_SIZE: usize = 4096;

/// Offset at which a program image is placed in memory.
pub const ROM_START: usize = 512;

/// Mathematical model of the whole machine: each hardware component as a
/// sequence of plain values or a single number.
#[verifier::ext_equal]
pub ghost struct Ch8View {
    /// The sixteen byte registers V0..VF.
    pub regs: Seq<u8>,
    /// The 4096 bytes of memory.
    pub mem: Seq<u8>,
    /// The sixteen call-stack slots.
    pub stack: Seq<u16>,
    /// The 64x32 display cells in row-major order; each cell is 0 or 1.
    pub display: Seq<u32>,
    /// The sixteen key-state cells; nonzero means pressed.
    pub keys: Seq<u32>,
    /// The memory-address cursor used by sprite and data instructions.
    pub index: u16,
    /// The program counter, a byte offset into memory.
    pub pc: int,
    /// The stack pointer: current call depth.
    pub sp: int,
    /// The delay timer.
    pub delay: u8,
    /// The sound timer.
    pub sound: u8,
    /// Whether the display changed since the renderer last consumed a frame.
    pub draw: bool,
    /// Whether verbose per-instruction logging was requested at
    /// construction; the driver reads it, the instructions never do.
    pub debug: bool,
}

impl Ch8View {
    /// Structural well-formedness: every component has its fixed size, the
    /// stack pointer stays within the sixteen slots, and every display cell
    /// holds 0 or 1.
    pub open spec fn wf(self) -> bool {
        &&& self.regs.len() == 16
        &&& self.mem.len() == 4096
        &&& self.stack.len() == 16
        &&& self.display.len() == 2048
        &&& self.keys.len() == 16
        &&& 0 <= self.sp <= 16
        &&& 0 <= self.pc
        &&& forall|i: int| 0 <= i < 2048 ==> self.display[i] == 0 || self.display[i] == 1
    }
}

/// The built-in glyph table: sixteen glyphs of five rows each, written into
/// memory offsets [0, 80) at construction.
pub open spec fn font() -> Seq<u8> {
    seq![
        0xF0u8, 0x90, 0x90, 0x90, 0xF0, // 0
        0x20, 0x60, 0x20, 0x20, 0x70, // 1
        0xF0, 0x10, 0xF0, 0x80, 0xF0, // 2
        0xF0, 0x10, 0xF0, 0x10, 0xF0, // 3
        0x90, 0x90, 0xF0, 0x10, 0x10, // 4
        0xF0, 0x80, 0xF0, 0x10, 0xF0, // 5
        0xF0, 0x80, 0xF0, 0x90, 0xF0, // 6
        0xF0, 0x10, 0x20, 0x40, 0x40, // 7
        0xF0, 0x90, 0xF0, 0x90, 0xF0, // 8
        0xF0, 0x90, 0xF0, 0x10, 0xF0, // 9
        0xF0, 0x90, 0xF0, 0x90, 0x90, // A
        0xE0, 0x90, 0xE0, 0x90, 0xE0, // B
        0xF0, 0x80, 0x80, 0x80, 0xF0, // C
        0xE0, 0x90, 0x90, 0x90, 0xE0, // D
        0xF0, 0x80, 0xF0, 0x80, 0xF0, // E
        0xF0, 0x80, 0xF0, 0x80, 0x80, // F
    ]
}

/// The machine as constructed: font in low memory, everything else zeroed,
/// program counter at the program entry offset.
pub open spec fn initial(debug: bool) -> Ch8View {
    Ch8View {
        regs: Seq::new(16, |i: int| 0u8),
        mem: Seq::new(4096, |i: int| if 0 <= i < 80 { font()[i] } else { 0u8 }),
        stack: Seq::new(16, |i: int| 0u16),
        display: Seq::new(2048, |i: int| 0u32),
        keys: Seq::new(16, |i: int| 0u32),
        index: 0,
        pc: 512,
        sp: 0,
        delay: 0,
        sound: 0,
        draw: false,
        debug,
    }
}

} // verus!
