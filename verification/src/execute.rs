use crate::machine::Chip8;
use crate::model::{
    any_pressed, lemma_draw_steps_frame, lemma_fields, lemma_first_pressed, sprite_bit, Machine,
};
use vstd::prelude::*;

verus! {

broadcast use vstd::array::group_array_axioms;

impl Chip8 {
    /// Arithmetic and logic instructions `8XYK`.
    fn execute_alu(&mut self, x: usize, y: usize, k: u16)
        requires
            x < 16,
            y < 16,
            k <= 7 || k == 0xE,
        ensures
            final(self)@ == old(self)@.alu(x as int, y as int, k),
    {
        let vx = self.vr[x];
        let vy = self.vr[y];
        match k {
            0 => {
                self.vr[x] = vy;
            },
            1 => {
                self.vr[x] = vx | vy;
            },
            2 => {
                self.vr[x] = vx & vy;
            },
            3 => {
                self.vr[x] = vx ^ vy;
            },
            4 => {
                let s: i16 = vy as i16 + vx as i16;
                let sum: i8 = if s > 127 {
                    (s - 256) as i8
                } else if s < -128 {
                    (s + 256) as i8
                } else {
                    s as i8
                };
                let carry = vy as u8 as u16 + vx as u8 as u16 > 255;
                self.vr[x] = sum;
                self.vr[15] = if carry {
                    1
                } else {
                    0
                };
            },
            5 => {
                let a = vx as u8;
                let b = vy as u8;
                let r: u8 = if a >= b {
                    a - b
                } else {
                    (a as u16 + 256 - b as u16) as u8
                };
                self.vr[x] = r as i8;
                self.vr[15] = if a < b {
                    0
                } else {
                    1
                };
            },
            6 => {
                self.vr[15] = self.vr[x] & 1;
                self.vr[x] = ((self.vr[x] as u8) >> 1u8) as i8;
            },
            7 => {
                let a = vy as u8;
                let b = vx as u8;
                let r: u8 = if a >= b {
                    a - b
                } else {
                    (a as u16 + 256 - b as u16) as u8
                };
                self.vr[x] = r as i8;
                self.vr[15] = if a < b {
                    0
                } else {
                    1
                };
            },
            _ => {
                self.vr[15] = ((self.vr[x] as u8) >> 7u8) as i8;
                self.vr[x] = ((self.vr[x] as u8) << 1u8) as i8;
            },
        }
    }
}

impl Chip8 {
    /// `DXYN` without the move to the next instruction.
    fn execute_draw(&mut self, x: usize, y: usize, n: usize)
        requires
            x < 16,
            y < 16,
            n < 16,
            n > 0 ==> 0 <= old(self).ir && old(self).ir + n - 1 < 4096,
        ensures
            final(self)@ == old(self)@.draw_sprite(x as int, y as int, n as int),
            final(self).pc == old(self).pc,
    {
        self.vr[15] = 0;
        let ghost m0 = self@;
        let mut row: usize = 0;
        while row < n
            invariant
                x < 16,
                y < 16,
                n < 16,
                row <= n,
                n > 0 ==> 0 <= m0.ir && m0.ir + n - 1 < 4096,
                m0.wf(),
                self@ == m0.draw_steps(x as int, y as int, (8 * row) as nat),
            decreases n - row,
        {
            proof {
                lemma_draw_steps_frame(m0, x as int, y as int, (8 * row) as nat);
            }
            let byte = self.memory[self.ir as usize + row];
            let mut col: usize = 0;
            while col < 8
                invariant
                    x < 16,
                    y < 16,
                    row < n < 16,
                    col <= 8,
                    0 <= m0.ir && m0.ir + n - 1 < 4096,
                    m0.wf(),
                    byte == m0.memory[m0.ir + row],
                    self@ == m0.draw_steps(x as int, y as int, (8 * row + col) as nat),
                decreases 8 - col,
            {
                proof {
                    lemma_draw_steps_frame(m0, x as int, y as int, (8 * row + col) as nat);
                }
                let bit = (((byte as u8) >> ((7 - col) as u8)) & 1u8) as i8;
                let px = (self.vr[x] as u8 as usize + col) % 64;
                let py = (self.vr[y] as u8 as usize + row) % 32;
                let p = px + py * 64;
                if self.gfx[p] != 0 && bit != 0 {
                    self.vr[15] = 1;
                }
                self.gfx[p] = self.gfx[p] ^ bit;
                self.draw_flag = true;
                proof {
                    let k = 8 * row + col;
                    assert(k / 8 == row && k % 8 == col);
                    assert(bit == sprite_bit(byte, col as int) as i8);
                }
                col = col + 1;
            }
            row = row + 1;
        }
        proof {
            lemma_draw_steps_frame(m0, x as int, y as int, (8 * n) as nat);
        }
    }
}

impl Chip8 {
    /// `FX0A`: the lowest pressed key goes to `VX` and execution moves on;
    /// with no key pressed nothing changes, so the instruction runs again.
    fn execute_wait_key(&mut self, x: usize)
        requires
            x < 16,
            old(self).pc + 1 < 4096,
        ensures
            final(self)@ == old(self)@.misc(x as int, 0x0A),
    {
        let mut i: usize = 0;
        while i < 16
            invariant
                i <= 16,
                x < 16,
                self.pc + 1 < 4096,
                self@ == old(self)@,
                forall|j: int| 0 <= j < i ==> self.key@[j] <= 0,
            decreases 16 - i,
        {
            if self.key[i] > 0 {
                proof {
                    lemma_first_pressed(self.key@, i as int);
                }
                self.vr[x] = i as i8;
                self.pc = self.pc + 2;
                return ;
            }
            i = i + 1;
        }
        assert(!any_pressed(self.key@));
    }

    /// `FX55`: `V0` to `VX` stored from `I` on.
    fn execute_store_registers(&mut self, x: usize)
        requires
            x < 16,
            0 <= old(self).ir,
            old(self).ir + x < 4096,
        ensures
            final(self)@ == old(self)@.store_registers(x as int),
    {
        let base = self.ir as usize;
        let mut i: usize = 0;
        while i <= x
            invariant
                x < 16,
                i <= x + 1,
                base == old(self).ir,
                base + x < 4096,
                self@ == (Machine {
                    memory: Seq::new(
                        4096,
                        |k: int|
                            if base <= k < base + i {
                                old(self).vr@[k - base]
                            } else {
                                old(self).memory@[k]
                            },
                    ),
                    ..old(self)@
                }),
            decreases x + 1 - i,
        {
            self.memory[base + i] = self.vr[i];
            i = i + 1;
        }
    }

    /// `FX65`: `V0` to `VX` loaded from `I` on.
    fn execute_load_registers(&mut self, x: usize)
        requires
            x < 16,
            0 <= old(self).ir,
            old(self).ir + x < 4096,
        ensures
            final(self)@ == old(self)@.load_registers(x as int),
    {
        let base = self.ir as usize;
        let mut i: usize = 0;
        while i <= x
            invariant
                x < 16,
                i <= x + 1,
                base == old(self).ir,
                base + x < 4096,
                self@ == (Machine {
                    vr: Seq::new(
                        16,
                        |k: int|
                            if 0 <= k < i {
                                old(self).memory@[base + k]
                            } else {
                                old(self).vr@[k]
                            },
                    ),
                    ..old(self)@
                }),
            decreases x + 1 - i,
        {
            self.vr[i] = self.memory[base + i];
            i = i + 1;
        }
    }

    /// The `FXNN` group.
    fn execute_misc(&mut self, x: usize, nn: u16)
        requires
            x < 16,
            old(self).pc + 1 < 4096,
            nn == 0x1E ==> old(self).ir + (old(self).vr@[x as int] as u8) <= 0x7FFF,
            nn == 0x33 ==> 0 <= old(self).ir && old(self).ir + 2 < 4096,
            nn == 0x55 || nn == 0x65 ==> 0 <= old(self).ir && old(self).ir + x < 4096,
        ensures
            final(self)@ == old(self)@.misc(x as int, nn),
    {
        match nn {
            0x07 => {
                self.vr[x] = self.delay_timer as i8;
                self.pc = self.pc + 2;
            },
            0x0A => {
                self.execute_wait_key(x);
            },
            0x15 => {
                self.delay_timer = self.vr[x] as u8;
                self.pc = self.pc + 2;
            },
            0x18 => {
                self.sound_timer = self.vr[x] as u8;
                self.pc = self.pc + 2;
            },
            0x1E => {
                self.ir = self.ir + self.vr[x] as u8 as i16;
                self.pc = self.pc + 2;
            },
            0x29 => {
                let v = self.vr[x];
                let vx = v & 0x0F;
                assert(0 <= vx <= 15) by (bit_vector)
                    requires
                        vx == v & 0x0F,
                ;
                self.ir = 5 * vx as i16;
                self.pc = self.pc + 2;
            },
            0x33 => {
                let vx = self.vr[x] as u8;
                let i = self.ir as usize;
                self.memory[i] = (vx / 100) as i8;
                self.memory[i + 1] = ((vx / 10) % 10) as i8;
                self.memory[i + 2] = (vx % 10) as i8;
                self.pc = self.pc + 2;
            },
            0x55 => {
                self.execute_store_registers(x);
                self.pc = self.pc + 2;
            },
            0x65 => {
                self.execute_load_registers(x);
                self.pc = self.pc + 2;
            },
            _ => {},
        }
    }
}

impl Chip8 {
    /// Whether the next instruction can be executed: `pc` and the
    /// instruction at it are in range, the instruction is one that the
    /// interpreter knows, and it uses no address, index or arithmetic out of
    /// range.
    pub fn can_execute(&self) -> (ok: bool)
        ensures
            ok == self@.step_defined(),
    {
        if self.pc >= 4095 {
            return false;
        }
        let opcode = self.fetch();
        proof {
            lemma_fields(opcode);
        }
        let x = ((opcode & 0x0F00) >> 8u16) as usize;
        let n = (opcode & 0x000F) as i32;
        let nn = opcode & 0x00FF;
        if opcode == 0x00EE {
            1 <= self.sp && self.sp < 16
        } else if opcode <= 0x1FFF {
            true
        } else if opcode <= 0x2FFF {
            self.sp < 15
        } else if opcode <= 0x7FFF {
            true
        } else if opcode <= 0x8FFF {
            n <= 7 || n == 0xE
        } else if opcode <= 0xCFFF {
            true
        } else if opcode <= 0xDFFF {
            if n > 0 {
                let ir = self.ir as i32;
                0 <= ir && ir + n - 1 < 4096
            } else {
                true
            }
        } else if opcode <= 0xEFFF {
            (nn == 0x9E || nn == 0xA1) && 0 <= self.vr[x] && self.vr[x] < 16
        } else {
            let ir = self.ir as i32;
            match nn {
                0x07 | 0x0A | 0x15 | 0x18 | 0x29 => true,
                0x1E => ir + self.vr[x] as u8 as i32 <= 0x7FFF,
                0x33 => 0 <= ir && ir + 2 < 4096,
                0x55 | 0x65 => 0 <= ir && ir + (x as i32) < 4096,
                _ => false,
            }
        }
    }

    /// Executes the instruction at `pc`, with `random` as the random byte
    /// that `CXNN` masks.
    pub fn execute_with_random(&mut self, random: i8)
        requires
            old(self)@.step_defined(),
        ensures
            final(self)@ == old(self)@.step(random),
    {
        let opcode = self.fetch();
        proof {
            lemma_fields(opcode);
        }
        let x = ((opcode & 0x0F00) >> 8u16) as usize;
        let y = ((opcode & 0x00F0) >> 4u16) as usize;
        let nn = opcode & 0x00FF;
        let nnn = opcode & 0x0FFF;
        match opcode {
            0x00EE => {
                self.pc = self.stack[self.sp as usize];
                self.sp = self.sp - 1;
            },
            0x00E0 => {
                self.gfx = [0;2048];
                self.draw_flag = true;
                self.pc = self.pc + 2;
            },
            0x0000..=0x0FFF => {
                self.pc = self.pc + 2;
            },
            0x1000..=0x1FFF => {
                self.pc = nnn;
            },
            0x2000..=0x2FFF => {
                self.sp = self.sp + 1;
                self.stack[self.sp as usize] = self.pc + 2;
                self.pc = nnn;
            },
            0x3000..=0x3FFF => {
                if self.vr[x] == nn as i8 {
                    self.pc = self.pc + 2;
                }
                self.pc = self.pc + 2;
            },
            0x4000..=0x4FFF => {
                if self.vr[x] != nn as i8 {
                    self.pc = self.pc + 2;
                }
                self.pc = self.pc + 2;
            },
            0x5000..=0x5FFF => {
                if self.vr[x] == self.vr[y] {
                    self.pc = self.pc + 2;
                }
                self.pc = self.pc + 2;
            },
            0x6000..=0x6FFF => {
                self.vr[x] = nn as i8;
                self.pc = self.pc + 2;
            },
            0x7000..=0x7FFF => {
                let a = self.vr[x];
                let b = nn as i8;
                let s: i16 = a as i16 + b as i16;
                self.vr[x] = if s > 127 {
                    (s - 256) as i8
                } else if s < -128 {
                    (s + 256) as i8
                } else {
                    s as i8
                };
                self.pc = self.pc + 2;
            },
            0x8000..=0x8FFF => {
                self.execute_alu(x, y, opcode & 0x000F);
                self.pc = self.pc + 2;
            },
            0x9000..=0x9FFF => {
                if self.vr[x] != self.vr[y] {
                    self.pc = self.pc + 2;
                }
                self.pc = self.pc + 2;
            },
            0xA000..=0xAFFF => {
                self.ir = nnn as i16;
                self.pc = self.pc + 2;
            },
            0xB000..=0xBFFF => {
                self.pc = nnn + self.vr[0] as u8 as u16;
            },
            0xC000..=0xCFFF => {
                self.vr[x] = random & nn as i8;
                self.pc = self.pc + 2;
            },
            0xD000..=0xDFFF => {
                self.execute_draw(x, y, (opcode & 0x000F) as usize);
                self.pc = self.pc + 2;
            },
            0xE000..=0xEFFF => {
                if nn == 0x9E {
                    if self.key[self.vr[x] as usize] > 0 {
                        self.pc = self.pc + 2;
                    }
                } else {
                    if self.key[self.vr[x] as usize] == 0 {
                        self.pc = self.pc + 2;
                    }
                }
                self.pc = self.pc + 2;
            },
            _ => {
                self.execute_misc(x, nn);
            },
        }
    }

    /// Executes the instruction at `pc`. `CXNN` takes its random byte from
    /// `rand_byte`; every other instruction has the effect that `step`
    /// states whatever that byte would be.
    pub fn execute(&mut self)
        requires
            old(self)@.step_defined(),
        ensures
            exists|random: i8| final(self)@ == old(self)@.step(random),
    {
        let opcode = self.fetch();
        let random = if 0xC000 <= opcode && opcode <= 0xCFFF {
            self.rand_byte()
        } else {
            0
        };
        self.execute_with_random(random);
    }
}

} // verus!
