use vstd::prelude::*;

verus! {

/// Bytes of addressable memory.
pub const MEMORY_SIZE: usize = 4096;

/// Address at which programs are loaded and execution starts.
pub const PROGRAM_START: u16 = 0x200;

/// Display width in pixels.
pub const WIDTH: usize = 64;

/// Display height in pixels.
pub const HEIGHT: usize = 32;

/// Abstract state of the interpreter: the same components as the
/// executable machine, with every array seen as a sequence.
#[verifier::ext_equal]
pub struct Machine {
    pub draw_flag: bool,
    pub gfx: Seq<i8>,
    pub key: Seq<i8>,
    pub pc: u16,
    pub ir: i16,
    pub sp: u16,
    pub vr: Seq<i8>,
    pub stack: Seq<u16>,
    pub memory: Seq<i8>,
    pub delay_timer: u8,
    pub sound_timer: u8,
}

/// Register index held in bits 8..12 of an instruction (`X` of `_X__`).
pub open spec fn reg_x(op: u16) -> int {
    ((op & 0x0F00) >> 8u16) as int
}

/// Register index held in bits 4..8 of an instruction (`Y` of `__Y_`).
pub open spec fn reg_y(op: u16) -> int {
    ((op & 0x00F0) >> 4u16) as int
}

/// The lowest nibble of an instruction (`N` of `___N`).
pub open spec fn low_nibble(op: u16) -> u16 {
    op & 0x000F
}

/// The low byte of an instruction (`NN` of `__NN`).
pub open spec fn low_byte(op: u16) -> u16 {
    op & 0x00FF
}

/// The 12-bit address of an instruction (`NNN` of `_NNN`).
pub open spec fn address(op: u16) -> u16 {
    op & 0x0FFF
}

/// Bit `col` of a sprite byte, counted from the most significant bit.
pub open spec fn sprite_bit(byte: i8, col: int) -> u8 {
    ((byte as u8) >> ((7 - col) as u8)) & 1u8
}

/// Signed 8-bit addition that wraps around on overflow.
pub open spec fn wrapping_add_i8(a: i8, b: i8) -> i8 {
    let s = a + b;
    if s > 127 {
        (s - 256) as i8
    } else if s < -128 {
        (s + 256) as i8
    } else {
        s as i8
    }
}

/// Whether the unsigned 8-bit sum `a + b` carries out of eight bits.
pub open spec fn add_carries_u8(a: u8, b: u8) -> bool {
    a + b > 255
}

/// Unsigned 8-bit subtraction that wraps around on borrow.
pub open spec fn wrapping_sub_u8(a: u8, b: u8) -> u8 {
    if a >= b {
        (a - b) as u8
    } else {
        (a + 256 - b) as u8
    }
}

/// Whether `keys` holds a pressed key (a positive entry) among the sixteen.
pub open spec fn any_pressed(keys: Seq<i8>) -> bool {
    exists|i: int| 0 <= i < 16 && keys[i] > 0
}

/// The lowest index of a pressed key.
pub open spec fn first_pressed(keys: Seq<i8>) -> int {
    choose|i: int| 0 <= i < 16 && keys[i] > 0 && forall|j: int| 0 <= j < i ==> keys[j] <= 0
}

/// Display index of pixel `j` of a sprite drawn at (`VX`, `VY`): row
/// `j / 8`, column `j % 8`.
pub open spec fn sprite_index(m: Machine, x: int, y: int, j: int) -> int {
    m.draw_index(x, y, j / 8, j % 8)
}

/// Sprite bit `j` (row `j / 8`, column `j % 8`) of the sprite at `I`.
pub open spec fn sprite_pixel_bit(m: Machine, j: int) -> i8 {
    sprite_bit(m.memory[m.ir + j / 8], j % 8) as i8
}

/// Whether sprite pixel `j` is set and lands on a lit display pixel.
pub open spec fn sprite_collides(m: Machine, x: int, y: int, j: int) -> bool {
    m.gfx[sprite_index(m, x, y, j)] != 0 && sprite_pixel_bit(m, j) != 0
}

impl Machine {
    /// Every component has the size of the machine it describes.
    pub open spec fn wf(self) -> bool {
        &&& self.gfx.len() == 2048
        &&& self.key.len() == 16
        &&& self.vr.len() == 16
        &&& self.stack.len() == 16
        &&& self.memory.len() == 4096
    }

    /// The instruction at `pc`: two bytes, most significant first.
    pub open spec fn opcode(self) -> u16 {
        ((self.memory[self.pc as int] as u8 as u16) << 8u16) | (self.memory[self.pc + 1] as u8 as u16)
    }

    /// Moves on to the next instruction.
    pub open spec fn advance(self) -> Machine {
        Machine { pc: (self.pc + 2) as u16, ..self }
    }

    /// Skips the next instruction when `cond` holds, else moves on to it.
    pub open spec fn skip_if(self, cond: bool) -> Machine {
        Machine { pc: (self.pc + if cond { 4int } else { 2int }) as u16, ..self }
    }

    /// Writes register `i`.
    pub open spec fn set_reg(self, i: int, v: i8) -> Machine {
        Machine { vr: self.vr.update(i, v), ..self }
    }

    /// The arithmetic and logic group `8XYK`, without the move to the next
    /// instruction. Each result is written to `VX` before the flag to `VF`.
    pub open spec fn alu(self, x: int, y: int, k: u16) -> Machine {
        let vx = self.vr[x];
        let vy = self.vr[y];
        if k == 0 {
            self.set_reg(x, vy)
        } else if k == 1 {
            self.set_reg(x, vx | vy)
        } else if k == 2 {
            self.set_reg(x, vx & vy)
        } else if k == 3 {
            self.set_reg(x, vx ^ vy)
        } else if k == 4 {
            self.set_reg(x, wrapping_add_i8(vy, vx)).set_reg(
                15,
                if add_carries_u8(vy as u8, vx as u8) { 1 } else { 0 },
            )
        } else if k == 5 {
            self.set_reg(x, wrapping_sub_u8(vx as u8, vy as u8) as i8).set_reg(
                15,
                if (vx as u8) < (vy as u8) { 0 } else { 1 },
            )
        } else if k == 6 {
            let m = self.set_reg(15, vx & 1);
            m.set_reg(x, ((m.vr[x] as u8) >> 1u8) as i8)
        } else if k == 7 {
            self.set_reg(x, wrapping_sub_u8(vy as u8, vx as u8) as i8).set_reg(
                15,
                if (vy as u8) < (vx as u8) { 0 } else { 1 },
            )
        } else if k == 0xE {
            let m = self.set_reg(15, ((vx as u8) >> 7u8) as i8);
            m.set_reg(x, ((m.vr[x] as u8) << 1u8) as i8)
        } else {
            self
        }
    }

    /// Display index of sprite pixel (`row`, `col`) drawn at (`VX`, `VY`);
    /// the coordinates wrap around the screen edges.
    pub open spec fn draw_index(self, x: int, y: int, row: int, col: int) -> int {
        ((self.vr[x] as u8) + col) % 64 + ((self.vr[y] as u8) + row) % 32 * 64
    }

    /// Draws one sprite pixel: the display pixel is flipped by the sprite bit
    /// and `VF` becomes 1 when a lit pixel is hit by a set bit.
    pub open spec fn draw_pixel(self, x: int, y: int, row: int, col: int) -> Machine {
        let bit = sprite_bit(self.memory[self.ir + row], col) as i8;
        let p = self.draw_index(x, y, row, col);
        let hit = self.gfx[p] != 0 && bit != 0;
        Machine {
            gfx: self.gfx.update(p, self.gfx[p] ^ bit),
            vr: if hit { self.vr.update(15, 1) } else { self.vr },
            draw_flag: true,
            ..self
        }
    }

    /// The first `k` pixels of a sprite, row by row, eight pixels a row.
    pub open spec fn draw_steps(self, x: int, y: int, k: nat) -> Machine
        decreases k,
    {
        if k == 0 {
            self
        } else {
            self.draw_steps(x, y, (k - 1) as nat).draw_pixel(x, y, (k - 1) / 8, (k - 1) % 8)
        }
    }

    /// Instruction `DXYN` without the move to the next instruction: `VF` is
    /// cleared, then the `n` sprite rows at `I` are drawn.
    pub open spec fn draw_sprite(self, x: int, y: int, n: int) -> Machine {
        self.set_reg(15, 0).draw_steps(x, y, (8 * n) as nat)
    }

    /// `FX33`: the decimal digits of `VX`, read unsigned, stored at `I`,
    /// `I + 1` and `I + 2`.
    pub open spec fn store_bcd(self, x: int) -> Machine {
        let v = self.vr[x] as u8;
        let i = self.ir as int;
        Machine {
            memory: self.memory.update(i, (v / 100) as i8).update(i + 1, (v / 10 % 10) as i8).update(
                i + 2,
                (v % 10) as i8,
            ),
            ..self
        }
    }

    /// `FX55`: registers `V0` to `VX` stored from `I` on.
    pub open spec fn store_registers(self, x: int) -> Machine {
        Machine {
            memory: Seq::new(
                self.memory.len(),
                |i: int|
                    if self.ir <= i <= self.ir + x {
                        self.vr[i - self.ir]
                    } else {
                        self.memory[i]
                    },
            ),
            ..self
        }
    }

    /// `FX65`: registers `V0` to `VX` loaded from `I` on.
    pub open spec fn load_registers(self, x: int) -> Machine {
        Machine {
            vr: Seq::new(
                self.vr.len(),
                |i: int|
                    if 0 <= i <= x {
                        self.memory[self.ir + i]
                    } else {
                        self.vr[i]
                    },
            ),
            ..self
        }
    }

    /// The `FXNN` group, with the move to the next instruction where the
    /// instruction makes one (`FX0A` stays put until a key is pressed).
    pub open spec fn misc(self, x: int, nn: u16) -> Machine {
        if nn == 0x07 {
            self.set_reg(x, self.delay_timer as i8).advance()
        } else if nn == 0x0A {
            if any_pressed(self.key) {
                self.set_reg(x, first_pressed(self.key) as i8).advance()
            } else {
                self
            }
        } else if nn == 0x15 {
            Machine { delay_timer: self.vr[x] as u8, ..self }.advance()
        } else if nn == 0x18 {
            Machine { sound_timer: self.vr[x] as u8, ..self }.advance()
        } else if nn == 0x1E {
            Machine { ir: (self.ir + (self.vr[x] as u8)) as i16, ..self }.advance()
        } else if nn == 0x29 {
            Machine { ir: (5 * (self.vr[x] & 0x0F)) as i16, ..self }.advance()
        } else if nn == 0x33 {
            self.store_bcd(x).advance()
        } else if nn == 0x55 {
            self.store_registers(x).advance()
        } else if nn == 0x65 {
            self.load_registers(x).advance()
        } else {
            self
        }
    }

    /// The effect of executing the instruction at `pc`; `random` is the
    /// random byte that `CXNN` masks. Registers are bytes: where one is added
    /// to an address or a coordinate, or `8XY4` computes its carry, it is
    /// read unsigned.
    pub open spec fn step(self, random: i8) -> Machine {
        let op = self.opcode();
        let x = reg_x(op);
        let y = reg_y(op);
        let nn = low_byte(op);
        let nnn = address(op);
        if op == 0x00EE {
            Machine { pc: self.stack[self.sp as int], sp: (self.sp - 1) as u16, ..self }
        } else if op == 0x00E0 {
            Machine { gfx: Seq::new(self.gfx.len(), |i: int| 0i8), draw_flag: true, ..self }.advance()
        } else if op <= 0x0FFF {
            self.advance()
        } else if op <= 0x1FFF {
            Machine { pc: nnn, ..self }
        } else if op <= 0x2FFF {
            Machine {
                sp: (self.sp + 1) as u16,
                stack: self.stack.update(self.sp + 1, (self.pc + 2) as u16),
                pc: nnn,
                ..self
            }
        } else if op <= 0x3FFF {
            self.skip_if(self.vr[x] == nn as i8)
        } else if op <= 0x4FFF {
            self.skip_if(self.vr[x] != nn as i8)
        } else if op <= 0x5FFF {
            self.skip_if(self.vr[x] == self.vr[y])
        } else if op <= 0x6FFF {
            self.set_reg(x, nn as i8).advance()
        } else if op <= 0x7FFF {
            self.set_reg(x, wrapping_add_i8(self.vr[x], nn as i8)).advance()
        } else if op <= 0x8FFF {
            self.alu(x, y, low_nibble(op)).advance()
        } else if op <= 0x9FFF {
            self.skip_if(self.vr[x] != self.vr[y])
        } else if op <= 0xAFFF {
            Machine { ir: nnn as i16, ..self }.advance()
        } else if op <= 0xBFFF {
            Machine { pc: (nnn + (self.vr[0] as u8)) as u16, ..self }
        } else if op <= 0xCFFF {
            self.set_reg(x, random & (nn as i8)).advance()
        } else if op <= 0xDFFF {
            self.draw_sprite(x, y, low_nibble(op) as int).advance()
        } else if op <= 0xEFFF {
            if nn == 0x9E {
                self.skip_if(self.key[self.vr[x] as int] > 0)
            } else {
                self.skip_if(self.key[self.vr[x] as int] == 0)
            }
        } else {
            self.misc(x, nn)
        }
    }

    /// Whether the instruction `op` can be executed in this state: it is one
    /// that the interpreter knows, every address and index it uses is in
    /// range, and none of its arithmetic overflows.
    pub open spec fn instruction_defined(self, op: u16) -> bool {
        let x = reg_x(op);
        let n = low_nibble(op) as int;
        let nn = low_byte(op);
        if op == 0x00EE {
            1 <= self.sp < 16
        } else if op <= 0x1FFF {
            true
        } else if op <= 0x2FFF {
            self.sp + 1 < 16
        } else if op <= 0x7FFF {
            true
        } else if op <= 0x8FFF {
            n <= 7 || n == 0xE
        } else if op <= 0xCFFF {
            true
        } else if op <= 0xDFFF {
            n > 0 ==> 0 <= self.ir && self.ir + n - 1 < 4096
        } else if op <= 0xEFFF {
            &&& nn == 0x9E || nn == 0xA1
            &&& 0 <= self.vr[x] < 16
        } else {
            ||| nn == 0x07
            ||| nn == 0x0A
            ||| nn == 0x15
            ||| nn == 0x18
            ||| nn == 0x1E && self.ir + (self.vr[x] as u8) <= 0x7FFF
            ||| nn == 0x29
            ||| nn == 0x33 && 0 <= self.ir && self.ir + 2 < 4096
            ||| (nn == 0x55 || nn == 0x65) && 0 <= self.ir && self.ir + x < 4096
        }
    }

    /// `rom` copied into memory from `PROGRAM_START` on, one byte per cell.
    pub open spec fn load_program(self, rom: Seq<u8>) -> Machine {
        Machine {
            memory: Seq::new(
                self.memory.len(),
                |i: int|
                    if PROGRAM_START <= i < PROGRAM_START + rom.len() {
                        rom[i - PROGRAM_START] as i8
                    } else {
                        self.memory[i]
                    },
            ),
            ..self
        }
    }

    /// One timer period: each timer that is not yet zero counts down by one.
    pub open spec fn tick(self) -> Machine {
        Machine {
            delay_timer: if self.delay_timer > 0 { (self.delay_timer - 1) as u8 } else { 0 },
            sound_timer: if self.sound_timer > 0 { (self.sound_timer - 1) as u8 } else { 0 },
            ..self
        }
    }

    /// The keypad set from `pressed`: 1 for a key held down, 0 otherwise.
    pub open spec fn with_keys(self, pressed: Seq<bool>) -> Machine {
        Machine { key: Seq::new(16, |i: int| if pressed[i] { 1i8 } else { 0i8 }), ..self }
    }

    /// Whether the next instruction can be fetched and executed.
    pub open spec fn step_defined(self) -> bool {
        &&& self.wf()
        &&& self.pc + 1 < 4096
        &&& self.instruction_defined(self.opcode())
    }
}

/// Drawing sprite pixels changes only the display, `VF` (to 0 or 1, when it
/// was 0 or 1) and the redraw flag.
pub proof fn lemma_draw_steps_frame(m: Machine, x: int, y: int, k: nat)
    requires
        m.wf(),
        0 <= x < 16,
        0 <= y < 16,
    ensures
        ({
            let r = m.draw_steps(x, y, k);
            &&& r.wf()
            &&& r.memory == m.memory
            &&& r.ir == m.ir
            &&& r.pc == m.pc
            &&& r.sp == m.sp
            &&& r.stack == m.stack
            &&& r.key == m.key
            &&& r.delay_timer == m.delay_timer
            &&& r.sound_timer == m.sound_timer
            &&& forall|i: int| 0 <= i < 15 ==> r.vr[i] == m.vr[i]
            &&& (m.vr[15] == 0 || m.vr[15] == 1) ==> (r.vr[15] == 0 || r.vr[15] == 1)
            &&& k > 0 ==> r.draw_flag
        }),
    decreases k,
{
    if k > 0 {
        lemma_draw_steps_frame(m, x, y, (k - 1) as nat);
        let prev = m.draw_steps(x, y, (k - 1) as nat);
        let p = prev.draw_index(x, y, (k - 1) / 8, (k - 1) % 8);
        assert(0 <= p < 2048);
    }
}

/// The first pressed key is the one at the lowest index holding a positive
/// entry.
pub proof fn lemma_first_pressed(keys: Seq<i8>, i: int)
    requires
        0 <= i < 16,
        keys[i] > 0,
        forall|j: int| 0 <= j < i ==> keys[j] <= 0,
    ensures
        any_pressed(keys),
        first_pressed(keys) == i,
{
    assert(0 <= i < 16 && keys[i] > 0 && forall|j: int| 0 <= j < i ==> keys[j] <= 0);
    let c = first_pressed(keys);
    assert(0 <= c < 16 && keys[c] > 0 && forall|j: int| 0 <= j < c ==> keys[j] <= 0);
    if c < i {
        assert(keys[c] <= 0);
    } else if c > i {
        assert(keys[i] <= 0);
    }
}

/// Bounds of the instruction fields.
pub proof fn lemma_fields(op: u16)
    ensures
        0 <= reg_x(op) < 16,
        0 <= reg_y(op) < 16,
        low_nibble(op) < 16,
        low_byte(op) < 256,
        address(op) < 0x1000,
{
    assert((op & 0x0F00) >> 8u16 < 16) by (bit_vector);
    assert((op & 0x00F0) >> 4u16 < 16) by (bit_vector);
    assert(op & 0x000F < 16) by (bit_vector);
    assert(op & 0x00FF < 256) by (bit_vector);
    assert(op & 0x0FFF < 0x1000) by (bit_vector);
}

} // verus!
