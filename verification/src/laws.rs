use crate::machine::{initial_machine, FONTS};
use crate::model::{
    address, lemma_draw_steps_frame, lemma_fields, low_byte, low_nibble, reg_x, reg_y, sprite_collides, sprite_index,
    sprite_pixel_bit, Machine, PROGRAM_START,
};
use vstd::prelude::*;

verus! {

/// Distinct pixels of a sprite of at most fifteen rows land on distinct
/// display pixels.
proof fn lemma_sprite_index_injective(m: Machine, x: int, y: int, j1: int, j2: int)
    requires
        0 <= j1 < 120,
        0 <= j2 < 120,
        sprite_index(m, x, y, j1) == sprite_index(m, x, y, j2),
    ensures
        j1 == j2,
{
    let a = (m.vr[x] as u8) as int;
    let b = (m.vr[y] as u8) as int;
    let c1 = j1 % 8;
    let c2 = j2 % 8;
    let r1 = j1 / 8;
    let r2 = j2 / 8;
    assert(0 <= c1 < 8 && 0 <= c2 < 8 && 0 <= r1 < 15 && 0 <= r2 < 15);
    let px1 = (a + c1) % 64;
    let px2 = (a + c2) % 64;
    let py1 = (b + r1) % 32;
    let py2 = (b + r2) % 32;
    assert(px1 + py1 * 64 == px2 + py2 * 64);
    assert(px1 == px2 && py1 == py2);
    assert(c1 == c2);
    assert(r1 == r2);
}

/// The first `k` steps of drawing a sprite at registers other than `VF`.
proof fn lemma_draw_steps_closed(m0: Machine, x: int, y: int, k: nat)
    requires
        m0.wf(),
        0 <= x < 15,
        0 <= y < 15,
        k <= 120,
    ensures
        ({
            let r = m0.draw_steps(x, y, k);
            &&& forall|j: int|
                0 <= j < k ==> r.gfx[#[trigger] sprite_index(m0, x, y, j)] == m0.gfx[sprite_index(
                    m0,
                    x,
                    y,
                    j,
                )] ^ sprite_pixel_bit(m0, j)
            &&& forall|p: int|
                0 <= p < 2048 && (forall|j: int| 0 <= j < k ==> sprite_index(m0, x, y, j) != p)
                    ==> #[trigger] r.gfx[p] == m0.gfx[p]
            &&& r.vr[15] == if exists|j: int| 0 <= j < k && #[trigger] sprite_collides(m0, x, y, j) {
                1
            } else {
                m0.vr[15]
            }
        }),
    decreases k,
{
    if k > 0 {
        let k1 = (k - 1) as nat;
        lemma_draw_steps_closed(m0, x, y, k1);
        lemma_draw_steps_frame(m0, x, y, k1);
        let s = m0.draw_steps(x, y, k1);
        let r = m0.draw_steps(x, y, k);
        let q = sprite_index(m0, x, y, k1 as int);
        assert(s.draw_index(x, y, (k1 as int) / 8, (k1 as int) % 8) == q);
        assert(0 <= q < 2048);
        assert forall|j: int| 0 <= j < k1 implies sprite_index(m0, x, y, j) != q by {
            if sprite_index(m0, x, y, j) == q {
                lemma_sprite_index_injective(m0, x, y, j, k1 as int);
            }
        }
        assert(s.gfx[q] == m0.gfx[q]);
        assert forall|j: int| 0 <= j < k implies r.gfx[#[trigger] sprite_index(m0, x, y, j)]
            == m0.gfx[sprite_index(m0, x, y, j)] ^ sprite_pixel_bit(m0, j) by {
            if j < k1 {
                assert(sprite_index(m0, x, y, j) != q);
                assert(0 <= sprite_index(m0, x, y, j) < 2048);
            }
        }
        assert forall|p: int|
            0 <= p < 2048 && (forall|j: int| 0 <= j < k ==> sprite_index(m0, x, y, j) != p)
                implies #[trigger] r.gfx[p] == m0.gfx[p] by {
            assert(sprite_index(m0, x, y, k1 as int) != p);
            assert(forall|j: int| 0 <= j < k1 ==> sprite_index(m0, x, y, j) != p);
        }
        if sprite_collides(m0, x, y, k1 as int) {
            assert(exists|j: int| 0 <= j < k && #[trigger] sprite_collides(m0, x, y, j));
        } else {
            assert((exists|j: int| 0 <= j < k && #[trigger] sprite_collides(m0, x, y, j)) == (exists|
                j: int,
            | 0 <= j < k1 && #[trigger] sprite_collides(m0, x, y, j)));
        }
    }
}

/// Drawing an `n`-row sprite at (`VX`, `VY`), with neither register `VF`,
/// flips exactly the display pixels under the sprite, each by its sprite
/// bit, and sets `VF` to 1 when a set bit lands on a lit pixel, else to 0.
pub proof fn lemma_draw_sprite_effect(m: Machine, x: int, y: int, n: int)
    requires
        m.wf(),
        0 <= x < 15,
        0 <= y < 15,
        0 <= n < 16,
    ensures
        ({
            let r = m.draw_sprite(x, y, n);
            &&& forall|j: int|
                0 <= j < 8 * n ==> r.gfx[#[trigger] sprite_index(m, x, y, j)] == m.gfx[sprite_index(
                    m,
                    x,
                    y,
                    j,
                )] ^ sprite_pixel_bit(m, j)
            &&& forall|p: int|
                0 <= p < 2048 && (forall|j: int| 0 <= j < 8 * n ==> sprite_index(m, x, y, j) != p)
                    ==> #[trigger] r.gfx[p] == m.gfx[p]
            &&& r.vr[15] == if exists|j: int|
                0 <= j < 8 * n && #[trigger] sprite_collides(m, x, y, j) {
                1i8
            } else {
                0i8
            }
            &&& r.wf()
            &&& r.memory == m.memory
            &&& r.ir == m.ir
            &&& forall|i: int| 0 <= i < 15 ==> r.vr[i] == m.vr[i]
        }),
{
    let m0 = m.set_reg(15, 0);
    lemma_draw_steps_closed(m0, x, y, (8 * n) as nat);
    lemma_draw_steps_frame(m0, x, y, (8 * n) as nat);
    assert forall|j: int| true implies sprite_index(m0, x, y, j) == sprite_index(m, x, y, j)
        && sprite_pixel_bit(m0, j) == sprite_pixel_bit(m, j) && sprite_collides(m0, x, y, j)
        == sprite_collides(m, x, y, j) by {}
}

/// Drawing the same sprite twice at the same place, with neither coordinate
/// register `VF`, leaves the display as it was.
pub proof fn lemma_draw_twice_restores(m: Machine, x: int, y: int, n: int)
    requires
        m.wf(),
        0 <= x < 15,
        0 <= y < 15,
        0 <= n < 16,
    ensures
        m.draw_sprite(x, y, n).draw_sprite(x, y, n).gfx == m.gfx,
{
    let r1 = m.draw_sprite(x, y, n);
    let r2 = r1.draw_sprite(x, y, n);
    lemma_draw_sprite_effect(m, x, y, n);
    lemma_draw_sprite_effect(r1, x, y, n);
    assert forall|j: int| true implies sprite_index(r1, x, y, j) == sprite_index(m, x, y, j)
        && sprite_pixel_bit(r1, j) == sprite_pixel_bit(m, j) by {}
    assert forall|p: int| 0 <= p < 2048 implies r2.gfx[p] == m.gfx[p] by {
        if exists|j: int| 0 <= j < 8 * n && sprite_index(m, x, y, j) == p {
            let j = choose|j: int| 0 <= j < 8 * n && sprite_index(m, x, y, j) == p;
            let g = m.gfx[p];
            let b = sprite_pixel_bit(m, j);
            assert(r1.gfx[sprite_index(m, x, y, j)] == g ^ b);
            assert(r2.gfx[sprite_index(r1, x, y, j)] == (g ^ b) ^ b);
            assert((g ^ b) ^ b == g) by (bit_vector);
        } else {
            assert(r1.gfx[p] == m.gfx[p]);
            assert(forall|j: int| 0 <= j < 8 * n ==> sprite_index(r1, x, y, j) != p);
            assert(r2.gfx[p] == r1.gfx[p]);
        }
    }
    assert(r2.gfx =~= m.gfx);
}

/// The random byte matters only to `CXNN`: every other instruction has the
/// same effect whatever the byte.
pub proof fn lemma_random_only_feeds_cxnn(m: Machine, r1: i8, r2: i8)
    requires
        !(0xC000 <= m.opcode() <= 0xCFFF),
    ensures
        m.step(r1) == m.step(r2),
{
}

/// A subroutine call `2NNN` followed by a return `00EE` at its target
/// resumes at the instruction after the call, with the stack pointer back
/// where it was; the call leaves its return address in the stack slot above.
pub proof fn lemma_call_then_return(m: Machine, r1: i8, r2: i8)
    requires
        m.step_defined(),
        0x2000 <= m.opcode() <= 0x2FFF,
        m.step(r1).opcode() == 0x00EE,
    ensures
        m.step(r1).pc == address(m.opcode()),
        m.step(r1).step(r2) == (Machine {
            pc: (m.pc + 2) as u16,
            stack: m.stack.update(m.sp + 1, (m.pc + 2) as u16),
            ..m
        }),
{
    lemma_fields(m.opcode());
}

/// An instruction never changes the keypad; only `00E0` and `DXYN` change
/// the display or the redraw flag; only `FX33` and `FX55` write memory; only `FX15` and
/// `FX18` set the timers.
pub proof fn lemma_step_frame(m: Machine, random: i8)
    requires
        m.step_defined(),
    ensures
        ({
            let op = m.opcode();
            let r = m.step(random);
            &&& r.wf()
            &&& r.key == m.key
            &&& !(0xD000 <= op <= 0xDFFF) && op != 0x00E0 ==> r.gfx == m.gfx && r.draw_flag
                == m.draw_flag
            &&& r.memory != m.memory ==> 0xF000 <= op && (low_byte(op) == 0x33 || low_byte(op)
                == 0x55)
            &&& r.delay_timer != m.delay_timer ==> 0xF000 <= op && low_byte(op) == 0x15
            &&& r.sound_timer != m.sound_timer ==> 0xF000 <= op && low_byte(op) == 0x18
        }),
{
    let op = m.opcode();
    lemma_fields(op);
    if 0xD000 <= op <= 0xDFFF {
        let n = low_nibble(op) as int;
        lemma_draw_steps_frame(m.set_reg(15, 0), reg_x(op), reg_y(op), (8 * n) as nat);
    }
}

/// Storing `V0`..`VX` at `I` and loading them back gives the registers
/// that were stored.
pub proof fn lemma_store_then_load(m: Machine, x: int)
    requires
        m.wf(),
        0 <= x < 16,
        0 <= m.ir,
        m.ir + x < 4096,
    ensures
        m.store_registers(x).load_registers(x).vr == m.vr,
{
    assert(m.store_registers(x).load_registers(x).vr =~= m.vr);
}

/// Loading `V0`..`VX` from `I` and storing them back leaves memory as it
/// was.
pub proof fn lemma_load_then_store(m: Machine, x: int)
    requires
        m.wf(),
        0 <= x < 16,
        0 <= m.ir,
        m.ir + x < 4096,
    ensures
        m.load_registers(x).store_registers(x).memory == m.memory,
{
    assert(m.load_registers(x).store_registers(x).memory =~= m.memory);
}

/// `FX33` writes the three decimal digits of `VX`, read unsigned, most
/// significant first, and nothing else.
pub proof fn lemma_bcd_digits(m: Machine, x: int)
    requires
        m.wf(),
        0 <= x < 16,
        0 <= m.ir,
        m.ir + 2 < 4096,
    ensures
        ({
            let r = m.store_bcd(x);
            let i = m.ir as int;
            &&& 0 <= r.memory[i] <= 2
            &&& 0 <= r.memory[i + 1] <= 9
            &&& 0 <= r.memory[i + 2] <= 9
            &&& 100 * r.memory[i] + 10 * r.memory[i + 1] + r.memory[i + 2] == m.vr[x] as u8
            &&& forall|k: int| 0 <= k < 4096 && (k < i || k > i + 2) ==> r.memory[k] == m.memory[k]
        }),
{
    let v = m.vr[x] as u8;
    assert(v / 100 <= 2 && v / 10 % 10 <= 9 && v % 10 <= 9 && 100 * (v / 100) + 10 * (v / 10 % 10)
        + v % 10 == v) by (bit_vector);
}

/// Loading a program into memory puts byte `i` of it at `PROGRAM_START + i`
/// and leaves the rest of the machine as it was.
pub proof fn lemma_load_reads_back(m: Machine, rom: Seq<u8>)
    requires
        m.wf(),
        rom.len() <= 4096 - PROGRAM_START,
    ensures
        ({
            let r = m.load_program(rom);
            &&& forall|i: int| 0 <= i < rom.len() ==> r.memory[PROGRAM_START + i] == rom[i] as i8
            &&& forall|k: int|
                0 <= k < 4096 && !(PROGRAM_START <= k < PROGRAM_START + rom.len()) ==> r.memory[k]
                    == m.memory[k]
            &&& r == (Machine { memory: r.memory, ..m })
            &&& r.wf()
        }),
{
}

/// In a fresh machine with a program loaded, `FX29` points `I` at the five
/// glyph bytes of the hexadecimal digit in the low nibble of `VX`.
pub proof fn lemma_glyph_after_load(rom: Seq<u8>, vr: Seq<i8>, x: int)
    requires
        rom.len() <= 4096 - PROGRAM_START,
        vr.len() == 16,
        0 <= x < 16,
    ensures
        ({
            let m = Machine { vr, ..initial_machine().load_program(rom) };
            let r = m.misc(x, 0x29);
            let d = (vr[x] & 0x0F) as int;
            &&& 0 <= d < 16
            &&& r.ir == 5 * d
            &&& r.memory.subrange(r.ir as int, r.ir + 5) == FONTS@.subrange(5 * d, 5 * d + 5).map_values(
                |b: u8| b as i8,
            )
        }),
{
    let v = vr[x];
    assert(0 <= v & 0x0F < 16) by (bit_vector);
    let m = Machine { vr, ..initial_machine().load_program(rom) };
    let r = m.misc(x, 0x29);
    let d = (vr[x] & 0x0F) as int;
    assert(r.memory.subrange(r.ir as int, r.ir + 5) =~= FONTS@.subrange(5 * d, 5 * d + 5).map_values(
        |b: u8| b as i8,
    ));
}

/// `n` timer periods, one after another.
pub open spec fn ticks(m: Machine, n: nat) -> Machine
    decreases n,
{
    if n == 0 {
        m
    } else {
        ticks(m, (n - 1) as nat).tick()
    }
}

/// The timers count down by one per period until they reach zero, and stay
/// there; nothing else changes.
pub proof fn lemma_ticks(m: Machine, n: nat)
    ensures
        ticks(m, n).delay_timer == if m.delay_timer >= n { m.delay_timer - n } else { 0 },
        ticks(m, n).sound_timer == if m.sound_timer >= n { m.sound_timer - n } else { 0 },
        ticks(m, n) == (Machine {
            delay_timer: ticks(m, n).delay_timer,
            sound_timer: ticks(m, n).sound_timer,
            ..m
        }),
    decreases n,
{
    if n > 0 {
        lemma_ticks(m, (n - 1) as nat);
    }
}

} // verus!
