use crate::laws::lemma_draw_sprite_effect;
use crate::model::{
    lemma_draw_steps_frame, sprite_collides, sprite_index, sprite_pixel_bit,
    address, add_carries_u8, any_pressed, low_byte, low_nibble, reg_x, reg_y, wrapping_add_i8, wrapping_sub_u8,
    Machine,
};
use vstd::prelude::*;

verus! {

/// The first byte of the instruction at `pc`, read unsigned.
pub open spec fn hi(m: Machine) -> int {
    (m.memory[m.pc as int] as u8) as int
}

/// The second byte of the instruction at `pc`, read unsigned.
pub open spec fn lo(m: Machine) -> int {
    (m.memory[m.pc + 1] as u8) as int
}

/// A register byte read unsigned: its value, or 256 more when negative.
pub open spec fn unsigned(v: i8) -> int {
    if v >= 0 {
        v as int
    } else {
        v + 256
    }
}

/// Bit `i` of `v`, counted from the least significant.
pub open spec fn bit_of(v: u8, i: u8) -> bool {
    (v >> i) & 1u8 == 1u8
}

/// The instruction word is the first byte times 256 plus the second, and its
/// fields are the nibbles and bytes of those two bytes.
pub proof fn lemma_decode(m: Machine)
    ensures
        m.opcode() == hi(m) * 256 + lo(m),
        reg_x(m.opcode()) == hi(m) % 16,
        reg_y(m.opcode()) == lo(m) / 16,
        low_nibble(m.opcode()) == lo(m) % 16,
        low_byte(m.opcode()) == lo(m),
        address(m.opcode()) == hi(m) % 16 * 256 + lo(m),
        0 <= hi(m) < 256,
        0 <= lo(m) < 256,
{
    let a = m.memory[m.pc as int] as u8;
    let b = m.memory[m.pc + 1] as u8;
    let op = m.opcode();
    assert(op == ((a as u16) << 8u16) | (b as u16));
    assert(op == a * 256 + b) by (bit_vector)
        requires
            op == ((a as u16) << 8u16) | (b as u16),
    ;
    assert(((op & 0x0F00) >> 8u16) == a % 16) by (bit_vector)
        requires
            op == ((a as u16) << 8u16) | (b as u16),
    ;
    assert(((op & 0x00F0) >> 4u16) == b / 16) by (bit_vector)
        requires
            op == ((a as u16) << 8u16) | (b as u16),
    ;
    assert(op & 0x000F == b % 16) by (bit_vector)
        requires
            op == ((a as u16) << 8u16) | (b as u16),
    ;
    assert(op & 0x00FF == b) by (bit_vector)
        requires
            op == ((a as u16) << 8u16) | (b as u16),
    ;
    assert(op & 0x0FFF == a % 16 * 256 + b) by (bit_vector)
        requires
            op == ((a as u16) << 8u16) | (b as u16),
    ;
}

/// A signed byte read unsigned is itself when non-negative, else 256 more.
pub proof fn lemma_unsigned(v: i8)
    ensures
        (v as u8) as int == if v >= 0 { v as int } else { v + 256 },
{
    if v >= 0 {
        assert(v >= 0 ==> (v as u8) as i16 == v as i16) by (bit_vector);
    } else {
        assert(v < 0 ==> (v as u8) as i16 == v as i16 + 256) by (bit_vector);
    }
}

/// An unsigned byte stored in a register and read back unsigned is itself.
pub proof fn lemma_round_trip(b: u8)
    ensures
        (b as i8) as u8 == b,
{
    assert((b as i8) as u8 == b) by (bit_vector);
}

/// Bit-level facts about the shift instructions.
proof fn lemma_shift_bits(v: i8)
    ensures
        (v & 1) as int == (v as u8) % 2,
        ((((v as u8) >> 1u8) as i8) as u8) as int == (v as u8) / 2,
        (((v as u8) >> 7u8) as i8) as int == (v as u8) / 128,
        ((((v as u8) << 1u8) as i8) as u8) as int == ((v as u8) * 2) % 256,
{
    assert((v & 1) == ((v as u8) % 2) as i8) by (bit_vector);
    assert((((v as u8) >> 1u8) as i8) as u8 == (v as u8) / 2) by (bit_vector);
    assert(((v as u8) >> 7u8) as i8 == ((v as u8) / 128) as i8) by (bit_vector);
    assert((((v as u8) << 1u8) as i8) as u8 == (((v as u8) as u16 * 2) % 256) as u8) by (bit_vector);
}

/// Bit-level facts about the logic instructions.
proof fn lemma_logic_bits(p: i8, q: i8, i: u8)
    requires
        i < 8,
    ensures
        bit_of((p | q) as u8, i) == (bit_of(p as u8, i) || bit_of(q as u8, i)),
        bit_of((p & q) as u8, i) == (bit_of(p as u8, i) && bit_of(q as u8, i)),
        bit_of((p ^ q) as u8, i) == (bit_of(p as u8, i) != bit_of(q as u8, i)),
{
    assert(((((p | q) as u8) >> i) & 1u8 == 1u8) == ((((p as u8) >> i) & 1u8 == 1u8) || (((
        q as u8) >> i) & 1u8 == 1u8))) by (bit_vector);
    assert(((((p & q) as u8) >> i) & 1u8 == 1u8) == ((((p as u8) >> i) & 1u8 == 1u8) && (((
        q as u8) >> i) & 1u8 == 1u8))) by (bit_vector);
    assert(((((p ^ q) as u8) >> i) & 1u8 == 1u8) == ((((p as u8) >> i) & 1u8 == 1u8) != (((
        q as u8) >> i) & 1u8 == 1u8))) by (bit_vector);
}

/// What `Machine::alu` does to VX and VF, on unsigned register values.
proof fn lemma_alu_effect(m: Machine, x: int, y: int, k: u16)
    requires
        m.wf(),
        0 <= x < 15,
        0 <= y < 16,
    ensures
        ({
            let a = (m.vr[x] as u8) as int;
            let b = (m.vr[y] as u8) as int;
            let r = m.alu(x, y, k);
            let res = r.vr[x] as u8;
            &&& r == (Machine { vr: r.vr, ..m })
            &&& r.vr.len() == 16
            &&& forall|i: int| 0 <= i < 15 && i != x ==> r.vr[i] == m.vr[i]
            &&& k <= 3 ==> r.vr[15] == m.vr[15]
            &&& k == 0 ==> r.vr[x] == m.vr[y]
            &&& k == 1 ==> forall|i: u8|
                i < 8 ==> #[trigger] bit_of(res, i) == (bit_of(a as u8, i) || bit_of(b as u8, i))
            &&& k == 2 ==> forall|i: u8|
                i < 8 ==> #[trigger] bit_of(res, i) == (bit_of(a as u8, i) && bit_of(b as u8, i))
            &&& k == 3 ==> forall|i: u8|
                i < 8 ==> #[trigger] bit_of(res, i) == (bit_of(a as u8, i) != bit_of(b as u8, i))
            &&& k == 4 ==> res == (a + b) % 256 && r.vr[15] == if a + b > 255 { 1int } else { 0 }
            &&& k == 5 ==> res == (a - b + 256) % 256 && r.vr[15] == if a >= b { 1int } else { 0 }
            &&& k == 6 ==> res == a / 2 && r.vr[15] == a % 2
            &&& k == 7 ==> res == (b - a + 256) % 256 && r.vr[15] == if b >= a { 1int } else { 0 }
            &&& k == 14 ==> res == (a * 2) % 256 && r.vr[15] == a / 128
        }),
{
    let vx = m.vr[x];
    let vy = m.vr[y];
    let r = m.alu(x, y, k);
    if k == 1 || k == 2 || k == 3 {
        assert forall|i: u8|
            #![trigger bit_of((vx | vy) as u8, i)]
            #![trigger bit_of((vx & vy) as u8, i)]
            #![trigger bit_of((vx ^ vy) as u8, i)]
            i < 8 implies (bit_of((vx | vy) as u8, i) == (bit_of(vx as u8, i) || bit_of(vy as u8, i)))
            && (bit_of((vx & vy) as u8, i) == (bit_of(vx as u8, i) && bit_of(vy as u8, i))) && (
        bit_of((vx ^ vy) as u8, i) == (bit_of(vx as u8, i) != bit_of(vy as u8, i))) by {
            lemma_logic_bits(vx, vy, i);
        }
    } else if k == 4 {
        lemma_unsigned(vx);
        lemma_unsigned(vy);
        lemma_unsigned(wrapping_add_i8(vy, vx));
    } else if k == 5 {
        lemma_round_trip(wrapping_sub_u8(vx as u8, vy as u8));
    } else if k == 7 {
        lemma_round_trip(wrapping_sub_u8(vy as u8, vx as u8));
    } else if k == 6 || k == 14 {
        lemma_shift_bits(vx);
    }
    assert(r.vr.len() == 16);
}

/// `8XYK` with `X` other than F, on unsigned register values `a` = VX and
/// `b` = VY: copy, or, and, xor bit by bit; add with VF the carry out of
/// eight bits; subtract (`VX - VY` for 5, `VY - VX` for 7) with VF 1 when
/// nothing is borrowed; shift right with VF the bit shifted out at the
/// bottom; shift left with VF the bit shifted out at the top. Only VX and VF
/// change, and execution moves on to the next instruction.
pub proof fn lemma_alu_semantics(m: Machine, random: i8)
    requires
        m.step_defined(),
        hi(m) / 16 == 8,
        hi(m) % 16 != 15,
    ensures
        ({
            let x = hi(m) % 16;
            let y = lo(m) / 16;
            let k = lo(m) % 16;
            let a = (m.vr[x] as u8) as int;
            let b = (m.vr[y] as u8) as int;
            let r = m.step(random);
            let res = r.vr[x] as u8;
            &&& r == (Machine { vr: r.vr, pc: (m.pc + 2) as u16, ..m })
            &&& r.vr.len() == 16
            &&& forall|i: int| 0 <= i < 15 && i != x ==> r.vr[i] == m.vr[i]
            &&& k <= 3 ==> r.vr[15] == m.vr[15]
            &&& k == 0 ==> r.vr[x] == m.vr[y]
            &&& k == 1 ==> forall|i: u8|
                i < 8 ==> #[trigger] bit_of(res, i) == (bit_of(a as u8, i) || bit_of(b as u8, i))
            &&& k == 2 ==> forall|i: u8|
                i < 8 ==> #[trigger] bit_of(res, i) == (bit_of(a as u8, i) && bit_of(b as u8, i))
            &&& k == 3 ==> forall|i: u8|
                i < 8 ==> #[trigger] bit_of(res, i) == (bit_of(a as u8, i) != bit_of(b as u8, i))
            &&& k == 4 ==> res == (a + b) % 256 && r.vr[15] == if a + b > 255 { 1int } else { 0 }
            &&& k == 5 ==> res == (a - b + 256) % 256 && r.vr[15] == if a >= b { 1int } else { 0 }
            &&& k == 6 ==> res == a / 2 && r.vr[15] == a % 2
            &&& k == 7 ==> res == (b - a + 256) % 256 && r.vr[15] == if b >= a { 1int } else { 0 }
            &&& k == 14 ==> res == (a * 2) % 256 && r.vr[15] == a / 128
        }),
{
    lemma_decode(m);
    let op = m.opcode();
    let x = hi(m) % 16;
    let y = lo(m) / 16;
    assert(0x8000 <= op <= 0x8FFF);
    assert(m.step(random) == m.alu(x, y, low_nibble(op)).advance());
    lemma_alu_effect(m, x, y, low_nibble(op));
}

/// Control flow: `00E0` clears the display; `00EE` returns to the address
/// on top of the stack and pops it; other `0NNN` do nothing; `1NNN` jumps to
/// `NNN`; `2NNN` pushes the address of the next instruction and jumps to
/// `NNN`; `BNNN` jumps to `NNN` plus V0 read unsigned. Nothing else changes.
pub proof fn lemma_control_flow(m: Machine, random: i8)
    requires
        m.step_defined(),
        hi(m) / 16 == 0 || hi(m) / 16 == 1 || hi(m) / 16 == 2 || hi(m) / 16 == 0xB,
    ensures
        ({
            let r = m.step(random);
            let kind = hi(m) / 16;
            let nnn = hi(m) % 16 * 256 + lo(m);
            &&& hi(m) == 0 && lo(m) == 0xE0 ==> r == (Machine {
                gfx: r.gfx,
                draw_flag: true,
                pc: (m.pc + 2) as u16,
                ..m
            }) && r.gfx.len() == 2048 && forall|i: int| 0 <= i < 2048 ==> r.gfx[i] == 0
            &&& hi(m) == 0 && lo(m) == 0xEE ==> r == (Machine {
                pc: m.stack[m.sp as int],
                sp: (m.sp - 1) as u16,
                ..m
            }) && r.sp == m.sp - 1
            &&& kind == 0 && !(hi(m) == 0 && (lo(m) == 0xE0 || lo(m) == 0xEE)) ==> r == (Machine {
                pc: (m.pc + 2) as u16,
                ..m
            })
            &&& kind == 1 ==> r == (Machine { pc: nnn as u16, ..m }) && r.pc == nnn
            &&& kind == 2 ==> r == (Machine {
                pc: nnn as u16,
                sp: (m.sp + 1) as u16,
                stack: m.stack.update(m.sp + 1, (m.pc + 2) as u16),
                ..m
            }) && r.pc == nnn && r.sp == m.sp + 1 && r.stack[m.sp + 1] == m.pc + 2
            &&& kind == 0xB ==> r == (Machine { pc: (nnn + unsigned(m.vr[0])) as u16, ..m }) && r.pc
                == nnn + unsigned(m.vr[0])
        }),
{
    lemma_decode(m);
    lemma_unsigned(m.vr[0]);
}

/// Conditional skips: the next instruction is skipped (`pc` moves on by 4)
/// exactly when the condition holds, else `pc` moves on by 2; nothing else
/// changes. `3XNN`: VX equals `NN`; `4XNN`: VX differs from `NN`; `5XY_`: VX
/// equals VY; `9XY_`: VX differs from VY; `EX9E`: key VX is pressed;
/// `EXA1`: key VX is not pressed. Registers are read unsigned.
pub proof fn lemma_skips(m: Machine, random: i8)
    requires
        m.step_defined(),
        hi(m) / 16 == 3 || hi(m) / 16 == 4 || hi(m) / 16 == 5 || hi(m) / 16 == 9 || hi(m) / 16 == 0xE,
    ensures
        ({
            let r = m.step(random);
            let kind = hi(m) / 16;
            let vx = unsigned(m.vr[hi(m) % 16]);
            let vy = unsigned(m.vr[lo(m) / 16]);
            let cond = if kind == 3 {
                vx == lo(m)
            } else if kind == 4 {
                vx != lo(m)
            } else if kind == 5 {
                vx == vy
            } else if kind == 9 {
                vx != vy
            } else if lo(m) == 0x9E {
                m.key[vx] > 0
            } else {
                m.key[vx] == 0
            };
            &&& kind == 0xE ==> lo(m) == 0x9E || lo(m) == 0xA1
            &&& kind == 0xE ==> 0 <= vx < 16
            &&& r == (Machine { pc: (m.pc + if cond { 4int } else { 2int }) as u16, ..m })
            &&& r.pc == m.pc + if cond { 4int } else { 2int }
        }),
{
    lemma_decode(m);
    let x = hi(m) % 16;
    let y = lo(m) / 16;
    lemma_unsigned(m.vr[x]);
    lemma_unsigned(m.vr[y]);
    let nn = lo(m) as u8;
    lemma_unsigned(nn as i8);
    lemma_round_trip(nn);
}

/// `6XNN` sets VX to `NN`; `7XNN` adds `NN` to VX, wrapping at 256 and
/// leaving VF alone; `ANNN` sets `I` to `NNN`; `CXNN` sets VX to the random
/// byte with only the bits of `NN` kept. Only the named register changes,
/// and execution moves on.
pub proof fn lemma_register_loads(m: Machine, random: i8)
    requires
        m.step_defined(),
        hi(m) / 16 == 6 || hi(m) / 16 == 7 || hi(m) / 16 == 0xA || hi(m) / 16 == 0xC,
    ensures
        ({
            let r = m.step(random);
            let kind = hi(m) / 16;
            let x = hi(m) % 16;
            let res = unsigned(r.vr[x]);
            &&& kind != 0xA ==> r == (Machine { vr: m.vr.update(x, r.vr[x]), pc: (m.pc + 2) as u16, ..m })
            &&& kind == 6 ==> res == lo(m)
            &&& kind == 7 ==> res == (unsigned(m.vr[x]) + lo(m)) % 256
            &&& kind == 0xA ==> r == (Machine { ir: (hi(m) % 16 * 256 + lo(m)) as i16, pc: (m.pc + 2) as u16, ..m })
                && r.ir == hi(m) % 16 * 256 + lo(m)
            &&& kind == 0xC ==> forall|i: u8|
                i < 8 ==> #[trigger] bit_of(r.vr[x] as u8, i) == (bit_of(random as u8, i) && bit_of(
                    lo(m) as u8,
                    i,
                ))
        }),
{
    lemma_decode(m);
    let x = hi(m) % 16;
    let vx = m.vr[x];
    let nn = lo(m) as u8;
    let r = m.step(random);
    lemma_unsigned(vx);
    lemma_unsigned(nn as i8);
    lemma_round_trip(nn);
    lemma_unsigned(r.vr[x]);
    if hi(m) / 16 == 0xC {
        assert forall|i: u8| i < 8 implies #[trigger] bit_of(r.vr[x] as u8, i) == (bit_of(
            random as u8,
            i,
        ) && bit_of(nn, i)) by {
            lemma_logic_bits(random, nn as i8, i);
        }
    }
}

/// `FX07` reads the delay timer into VX; `FX15` sets the delay timer and
/// `FX18` the sound timer to VX read unsigned; `FX1E` adds VX read unsigned
/// to `I`; `FX29` points `I` at the five-byte glyph of the low nibble of VX.
/// Nothing else changes, and execution moves on.
pub proof fn lemma_timer_and_index(m: Machine, random: i8)
    requires
        m.step_defined(),
        hi(m) / 16 == 0xF,
        lo(m) == 0x07 || lo(m) == 0x15 || lo(m) == 0x18 || lo(m) == 0x1E || lo(m) == 0x29,
    ensures
        ({
            let r = m.step(random);
            let x = hi(m) % 16;
            let vx = unsigned(m.vr[x]);
            let next = (m.pc + 2) as u16;
            &&& lo(m) == 0x07 ==> r == (Machine { vr: m.vr.update(x, r.vr[x]), pc: next, ..m })
                && unsigned(r.vr[x]) == m.delay_timer
            &&& lo(m) == 0x15 ==> r == (Machine { delay_timer: vx as u8, pc: next, ..m })
                && r.delay_timer == vx
            &&& lo(m) == 0x18 ==> r == (Machine { sound_timer: vx as u8, pc: next, ..m })
                && r.sound_timer == vx
            &&& lo(m) == 0x1E ==> r == (Machine { ir: (m.ir + vx) as i16, pc: next, ..m })
                && r.ir == m.ir + vx
            &&& lo(m) == 0x29 ==> r == (Machine { ir: (5 * (vx % 16)) as i16, pc: next, ..m })
                && r.ir == 5 * (vx % 16)
        }),
{
    lemma_decode(m);
    let x = hi(m) % 16;
    let v = m.vr[x];
    lemma_unsigned(v);
    lemma_unsigned(m.delay_timer as i8);
    lemma_round_trip(m.delay_timer);
    assert((v & 0x0F) == ((v as u8) % 16) as i8) by (bit_vector);
}

/// `FX33` writes the decimal digits of VX read unsigned at `I`, `I + 1` and
/// `I + 2`; `FX55` writes V0 to VX at `I` on; `FX65` reads V0 to VX from `I`
/// on. Nothing else changes, and execution moves on.
pub proof fn lemma_memory_transfers(m: Machine, random: i8)
    requires
        m.step_defined(),
        hi(m) / 16 == 0xF,
        lo(m) == 0x33 || lo(m) == 0x55 || lo(m) == 0x65,
    ensures
        ({
            let r = m.step(random);
            let x = hi(m) % 16;
            let i = m.ir as int;
            let next = (m.pc + 2) as u16;
            &&& r.wf()
            &&& lo(m) == 0x33 ==> {
                &&& r == (Machine { memory: r.memory, pc: next, ..m })
                &&& 0 <= r.memory[i] <= 2 && 0 <= r.memory[i + 1] <= 9 && 0 <= r.memory[i + 2] <= 9
                &&& 100 * r.memory[i] + 10 * r.memory[i + 1] + r.memory[i + 2] == unsigned(m.vr[x])
                &&& forall|k: int| 0 <= k < 4096 && (k < i || k > i + 2) ==> r.memory[k] == m.memory[k]
            }
            &&& lo(m) == 0x55 ==> {
                &&& r == (Machine { memory: r.memory, pc: next, ..m })
                &&& forall|j: int| 0 <= j <= x ==> r.memory[i + j] == m.vr[j]
                &&& forall|k: int| 0 <= k < 4096 && (k < i || k > i + x) ==> r.memory[k] == m.memory[k]
            }
            &&& lo(m) == 0x65 ==> {
                &&& r == (Machine { vr: r.vr, pc: next, ..m })
                &&& forall|j: int| 0 <= j <= x ==> r.vr[j] == m.memory[i + j]
                &&& forall|j: int| x < j < 16 ==> r.vr[j] == m.vr[j]
            }
        }),
{
    lemma_decode(m);
    let x = hi(m) % 16;
    let v = m.vr[x] as u8;
    lemma_unsigned(m.vr[x]);
    assert(v / 100 <= 2 && v / 10 % 10 <= 9 && v % 10 <= 9 && 100 * (v / 100) + 10 * (v / 10 % 10)
        + v % 10 == v) by (bit_vector);
}

/// `FX0A` with a key pressed puts the lowest pressed key into VX and moves
/// on; with none pressed it changes nothing, so it runs again.
pub proof fn lemma_wait_key(m: Machine, random: i8)
    requires
        m.step_defined(),
        hi(m) / 16 == 0xF,
        lo(m) == 0x0A,
    ensures
        ({
            let r = m.step(random);
            let x = hi(m) % 16;
            let k = r.vr[x] as int;
            &&& (exists|i: int| 0 <= i < 16 && m.key[i] > 0) ==> {
                &&& 0 <= k < 16
                &&& m.key[k] > 0
                &&& forall|j: int| 0 <= j < k ==> m.key[j] <= 0
                &&& r == (Machine { vr: m.vr.update(x, k as i8), pc: (m.pc + 2) as u16, ..m })
            }
            &&& !(exists|i: int| 0 <= i < 16 && m.key[i] > 0) ==> r == m
        }),
{
    lemma_decode(m);
    if any_pressed(m.key) {
        let i = choose|i: int| 0 <= i < 16 && m.key[i] > 0;
        lemma_least_pressed(m.key, i);
    }
}

/// Some pressed key has no pressed key below it.
proof fn lemma_least_pressed(keys: Seq<i8>, i: int)
    requires
        0 <= i < 16,
        keys[i] > 0,
    ensures
        exists|c: int| 0 <= c < 16 && keys[c] > 0 && forall|j: int| 0 <= j < c ==> keys[j] <= 0,
    decreases i,
{
    if exists|j: int| 0 <= j < i && keys[j] > 0 {
        let j = choose|j: int| 0 <= j < i && keys[j] > 0;
        lemma_least_pressed(keys, j);
    } else {
        assert(0 <= i < 16 && keys[i] > 0 && forall|j: int| 0 <= j < i ==> keys[j] <= 0);
    }
}

/// Display index of the pixel at column `(vx + col) mod 64`, row
/// `(vy + row) mod 32`.
pub open spec fn screen_index(vx: int, vy: int, row: int, col: int) -> int {
    (vx + col) % 64 + (vy + row) % 32 * 64
}

/// Whether sprite row `row`, column `col` is set: bit `7 - col` of byte
/// `I + row`.
pub open spec fn sprite_set(m: Machine, row: int, col: int) -> bool {
    bit_of(m.memory[m.ir + row] as u8, (7 - col) as u8)
}

/// Setting the keypad from `pressed` holds key `i` down (1) exactly when
/// `pressed[i]`, and releases it (0) otherwise; nothing else changes.
pub proof fn lemma_keys(m: Machine, pressed: Seq<bool>)
    requires
        pressed.len() == 16,
    ensures
        ({
            let r = m.with_keys(pressed);
            &&& r.key.len() == 16
            &&& forall|i: int| 0 <= i < 16 ==> (#[trigger] r.key[i] == 1) == pressed[i]
            &&& forall|i: int| 0 <= i < 16 ==> (#[trigger] r.key[i] == 0) == !pressed[i]
            &&& r == (Machine { key: r.key, ..m })
        }),
{
}

/// `DXYN` is `Machine::draw_sprite` followed by the move on.
proof fn lemma_draw_is_step(m: Machine, random: i8)
    requires
        m.step_defined(),
        hi(m) / 16 == 0xD,
    ensures
        m.step(random) == m.draw_sprite(hi(m) % 16, lo(m) / 16, lo(m) % 16).advance(),
{
    lemma_decode(m);
}

/// Sprite pixel `j` in the model's numbering is row `j / 8`, column `j % 8`.
proof fn lemma_draw_pixel_j(m: Machine, x: int, y: int, j: int)
    requires
        0 <= j,
    ensures
        sprite_index(m, x, y, j) == screen_index(unsigned(m.vr[x]), unsigned(m.vr[y]), j / 8, j % 8),
        sprite_pixel_bit(m, j) == (if sprite_set(m, j / 8, j % 8) { 1i8 } else { 0i8 }),
{
    lemma_unsigned(m.vr[x]);
    lemma_unsigned(m.vr[y]);
    let b = m.memory[m.ir + j / 8];
    let c = (7 - j % 8) as u8;
    assert(((((b as u8) >> c) & 1u8) as i8) == (if ((b as u8) >> c) & 1u8 == 1u8 {
        1i8
    } else {
        0i8
    })) by (bit_vector);
}

/// `DXYN` with X and Y other than F draws `N` rows of eight sprite pixels
/// from `I` at (VX, VY) read unsigned, wrapping at the screen edges: the
/// display pixel under each set sprite pixel flips (xor 1), every other
/// display pixel stays, VF becomes 1 exactly when a set sprite pixel lands on
/// a lit display pixel and 0 otherwise, and the redraw flag is raised when a
/// row is drawn. Nothing else changes, and execution moves on.
#[verifier::spinoff_prover]
#[verifier::rlimit(40)]
pub proof fn lemma_draw_semantics(m: Machine, random: i8)
    requires
        m.step_defined(),
        hi(m) / 16 == 0xD,
        hi(m) % 16 != 15,
        lo(m) / 16 != 15,
    ensures
        ({
            let r = m.step(random);
            let vx = unsigned(m.vr[hi(m) % 16]);
            let vy = unsigned(m.vr[lo(m) / 16]);
            let n = lo(m) % 16;
            &&& r.gfx.len() == 2048
            &&& forall|row: int, col: int|
                0 <= row < n && 0 <= col < 8 ==> r.gfx[#[trigger] screen_index(vx, vy, row, col)]
                    == if sprite_set(m, row, col) {
                    m.gfx[screen_index(vx, vy, row, col)] ^ 1
                } else {
                    m.gfx[screen_index(vx, vy, row, col)]
                }
            &&& forall|p: int|
                0 <= p < 2048 && (forall|row: int, col: int|
                    0 <= row < n && 0 <= col < 8 ==> screen_index(vx, vy, row, col) != p)
                    ==> #[trigger] r.gfx[p] == m.gfx[p]
            &&& r.vr[15] == if exists|row: int, col: int|
                0 <= row < n && 0 <= col < 8 && sprite_set(m, row, col) && m.gfx[#[trigger] screen_index(
                    vx,
                    vy,
                    row,
                    col,
                )] != 0 {
                1i8
            } else {
                0i8
            }
            &&& r == (Machine {
                gfx: r.gfx,
                vr: m.vr.update(15, r.vr[15]),
                draw_flag: if n > 0 { true } else { m.draw_flag },
                pc: (m.pc + 2) as u16,
                ..m
            })
        }),
{
    lemma_decode(m);
    let x = hi(m) % 16;
    let y = lo(m) / 16;
    let n = lo(m) % 16;
    let vx = unsigned(m.vr[x]);
    let vy = unsigned(m.vr[y]);
    let d = m.draw_sprite(x, y, n);
    let r = m.step(random);
    lemma_draw_is_step(m, random);
    lemma_draw_sprite_effect(m, x, y, n);
    lemma_draw_steps_frame(m.set_reg(15, 0), x, y, (8 * n) as nat);
    assert(r.vr =~= m.vr.update(15, r.vr[15]));
    assert forall|row: int, col: int| 0 <= row < n && 0 <= col < 8 implies r.gfx[#[trigger] screen_index(
        vx,
        vy,
        row,
        col,
    )] == if sprite_set(m, row, col) {
        m.gfx[screen_index(vx, vy, row, col)] ^ 1
    } else {
        m.gfx[screen_index(vx, vy, row, col)]
    } by {
        let j = 8 * row + col;
        assert(j / 8 == row && j % 8 == col);
        lemma_draw_pixel_j(m, x, y, j);
        let g = m.gfx[screen_index(vx, vy, row, col)];
        assert(g ^ 0 == g) by (bit_vector);
    }
    assert forall|p: int|
        0 <= p < 2048 && (forall|row: int, col: int|
            0 <= row < n && 0 <= col < 8 ==> screen_index(vx, vy, row, col) != p) implies #[trigger] r.gfx[p]
        == m.gfx[p] by {
        assert forall|j: int| 0 <= j < 8 * n implies sprite_index(m, x, y, j) != p by {
            lemma_draw_pixel_j(m, x, y, j);
            assert(screen_index(vx, vy, j / 8, j % 8) != p);
        }
    }
    let hit_rc = exists|row: int, col: int|
        0 <= row < n && 0 <= col < 8 && sprite_set(m, row, col) && m.gfx[#[trigger] screen_index(
            vx,
            vy,
            row,
            col,
        )] != 0;
    let hit_j = exists|j: int| 0 <= j < 8 * n && #[trigger] sprite_collides(m, x, y, j);
    if hit_rc {
        let (row, col) = choose|row: int, col: int|
            0 <= row < n && 0 <= col < 8 && sprite_set(m, row, col) && m.gfx[#[trigger] screen_index(
                vx,
                vy,
                row,
                col,
            )] != 0;
        let j = 8 * row + col;
        assert(j / 8 == row && j % 8 == col);
        lemma_draw_pixel_j(m, x, y, j);
        assert(sprite_collides(m, x, y, j));
    }
    if hit_j {
        let j = choose|j: int| 0 <= j < 8 * n && #[trigger] sprite_collides(m, x, y, j);
        lemma_draw_pixel_j(m, x, y, j);
        assert(sprite_set(m, j / 8, j % 8) && m.gfx[screen_index(vx, vy, j / 8, j % 8)] != 0);
    }
}

} // verus!
