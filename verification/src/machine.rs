use crate::entropy::{hash_instant, hash_u16, instant_now};
use crate::model::{Machine, MEMORY_SIZE, PROGRAM_START};
use std::hash::DefaultHasher;
use std::hash::Hasher;
use vstd::prelude::*;
use vstd::std_specs::hash::DefaultHasherAdditionalSpecFns;

verus! {

broadcast use vstd::array::group_array_axioms;

/// The sixteen built-in hexadecimal digit glyphs, five bytes each.
pub const FONTS: [u8; 80] = [
    0xF0, 0x90, 0x90, 0x90, 0xF0, // 0
    0x20, 0x60, 0x20, 0x20, 0x70, // 1
    0xF0, 0x10, 0xF0, 0x80, 0xF0, // 2
    0xF0, 0x10, 0xF0, 0x10, 0xF0, // 3
    0x90, 0x90, 0xF0, 0x10, 0x10, // 4
    0xF0, 0x80, 0xF0, 0x10, 0xF0, // 5
    0xF0, 0x80, 0xF0, 0x90, 0xF0, // 6
    0xF0, 0x10, 0x20, 0x40, 0x40, // 7
    0xF0, 0x90, 0xF0, 0x90, 0xF0, // 8
    0xF0, 0x90, 0xF0, 0x10, 0xF0, // 9
    0xF0, 0x90, 0xF0, 0x90, 0x90, // A
    0xE0, 0x90, 0xE0, 0x90, 0xE0, // B
    0xF0, 0x80, 0x80, 0x80, 0xF0, // C
    0xE0, 0x90, 0x90, 0x90, 0xE0, // D
    0xF0, 0x80, 0xF0, 0x80, 0xF0, // E
    0xF0, 0x80, 0xF0, 0x80, 0x80, // F
];

/// A CHIP-8 machine: display, keypad, registers, call stack, memory and
/// the two timers.
pub struct Chip8 {
    pub draw_flag: bool,
    pub gfx: [i8; 2048],
    pub key: [i8; 16],
    pub pc: u16,
    pub ir: i16,
    pub sp: u16,
    pub vr: [i8; 16],
    pub stack: [u16; 16],
    pub memory: [i8; 4096],
    pub delay_timer: u8,
    pub sound_timer: u8,
}

impl View for Chip8 {
    type V = Machine;

    open spec fn view(&self) -> Machine {
        Machine {
            draw_flag: self.draw_flag,
            gfx: self.gfx@,
            key: self.key@,
            pc: self.pc,
            ir: self.ir,
            sp: self.sp,
            vr: self.vr@,
            stack: self.stack@,
            memory: self.memory@,
            delay_timer: self.delay_timer,
            sound_timer: self.sound_timer,
        }
    }
}

/// The state of a freshly made machine: everything zero but the glyphs at
/// the bottom of memory, and `pc` at the program start.
pub open spec fn initial_machine() -> Machine {
    Machine {
        draw_flag: false,
        gfx: Seq::new(2048, |i: int| 0i8),
        key: Seq::new(16, |i: int| 0i8),
        pc: PROGRAM_START,
        ir: 0,
        sp: 0,
        vr: Seq::new(16, |i: int| 0i8),
        stack: Seq::new(16, |i: int| 0u16),
        memory: Seq::new(4096, |i: int| if i < 80 { FONTS@[i] as i8 } else { 0i8 }),
        delay_timer: 0,
        sound_timer: 0,
    }
}

impl Chip8 {
    /// A byte that varies from call to call: `pc` and the current time
    /// hashed together, truncated to its low byte.
    pub fn rand_byte(&self) -> (r: i8)
        ensures
            exists|s: Seq<Seq<u8>>| r == (DefaultHasher::spec_finish(s) as i8),
    {
        let mut h = DefaultHasher::new();
        hash_u16(self.pc, &mut h);
        let now = instant_now();
        hash_instant(&now, &mut h);
        h.finish() as i8
    }

    /// A machine with the digit glyphs at the bottom of memory, everything
    /// else zero, and `pc` at the program start.
    pub fn new() -> (chip: Self)
        ensures
            chip@ == initial_machine(),
            chip.pc == 0x200,
            forall|i: int| 0 <= i < 80 ==> chip.memory@[i] == FONTS@[i] as i8,
            forall|i: int| 80 <= i < 4096 ==> chip.memory@[i] == 0,
            forall|i: int| 0 <= i < 2048 ==> chip.gfx@[i] == 0,
            forall|i: int| 0 <= i < 16 ==> chip.vr@[i] == 0 && chip.key@[i] == 0 && chip.stack@[i]
                == 0,
            chip.ir == 0 && chip.sp == 0 && chip.delay_timer == 0 && chip.sound_timer == 0,
            !chip.draw_flag,
    {
        let mut chip = Chip8 {
            draw_flag: false,
            gfx: [0;2048],
            key: [0;16],
            pc: 0x200,
            ir: 0,
            sp: 0,
            vr: [0;16],
            stack: [0;16],
            memory: [0;4096],
            delay_timer: 0,
            sound_timer: 0,
        };
        let mut i: usize = 0;
        while i < 80
            invariant
                0 <= i <= 80,
                chip@.memory == Seq::new(
                    4096,
                    |j: int|
                        if j < i {
                            FONTS@[j] as i8
                        } else {
                            0i8
                        },
                ),
                chip@ == (Machine { memory: chip@.memory, ..initial_machine() }),
            decreases 80 - i,
        {
            chip.memory[i] = FONTS[i] as i8;
            i = i + 1;
        }
        chip
    }

    /// Copies `rom` into memory from `PROGRAM_START` on.
    pub fn load(&mut self, rom: Vec<u8>)
        requires
            rom.len() <= MEMORY_SIZE - PROGRAM_START,
        ensures
            final(self)@ == old(self)@.load_program(rom@),
    {
        let ghost m0 = self@;
        let mut addr: usize = 0;
        while addr < rom.len()
            invariant
                addr <= rom.len() <= MEMORY_SIZE - PROGRAM_START,
                self@ == m0.load_program(rom@.take(addr as int)),
                m0.wf(),
            decreases rom.len() - addr,
        {
            self.memory[addr + 0x200] = rom[addr] as i8;
            addr = addr + 1;
        }
        assert(rom@.take(rom.len() as int) == rom@);
    }

    /// The instruction at `pc`.
    pub(crate) fn fetch(&self) -> (op: u16)
        requires
            self.pc + 1 < 4096,
        ensures
            op == self@.opcode(),
    {
        ((self.memory[self.pc as usize] as u8 as u16) << 8u16) | (self.memory[self.pc as usize
            + 1] as u8 as u16)
    }
}

} // verus!
