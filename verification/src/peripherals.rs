use crate::machine::Chip8;
use crate::model::{Machine, HEIGHT, WIDTH};
use vstd::prelude::*;

verus! {

broadcast use vstd::array::group_array_axioms;

/// Side, in window pixels, of the square that shows one display pixel.
pub const SCALE: usize = 10;

/// Window width in pixels.
pub const WINDOW_WIDTH: usize = 640;

/// Window height in pixels.
pub const WINDOW_HEIGHT: usize = 320;

/// Colour of a lit display pixel.
pub const LIT: u32 = 0xFFFFFF;

/// Colour of a dark display pixel.
pub const DARK: u32 = 0x000000;

/// Length of one execution cycle, in nanoseconds.
pub const CYCLE_NANOS: u64 = 2_000_000;

/// Length of one timer period, in nanoseconds.
pub const TIMER_NANOS: u64 = 1_000_000;

/// Whether the timers are due to count down, `since_tick` nanoseconds after
/// they last did.
pub fn timer_due(since_tick: u128) -> (due: bool)
    ensures
        due == (since_tick >= TIMER_NANOS),
{
    since_tick >= TIMER_NANOS as u128
}

/// How long to wait, in nanoseconds, to fill a cycle of which `elapsed`
/// nanoseconds have passed: the rest of the cycle, or nothing once it is over.
pub fn idle_time(elapsed: u128) -> (wait: u64)
    ensures
        wait == if elapsed < CYCLE_NANOS { CYCLE_NANOS - elapsed } else { 0 },
{
    if elapsed < CYCLE_NANOS as u128 {
        CYCLE_NANOS - elapsed as u64
    } else {
        0
    }
}

/// The colour a display pixel is shown in: lit when positive.
pub open spec fn pixel_color(v: i8) -> u32 {
    if v > 0 {
        LIT
    } else {
        DARK
    }
}

/// The display pixel shown at window position (`wx`, `wy`).
pub open spec fn window_pixel(gfx: Seq<i8>, wx: int, wy: int) -> i8 {
    gfx[(wy / SCALE as int) * WIDTH as int + wx / SCALE as int]
}

impl Chip8 {
    /// One timer period: each timer that is not yet zero counts down by one.
    pub fn tick_timers(&mut self)
        ensures
            final(self)@ == old(self)@.tick(),
            final(self).delay_timer == if old(self).delay_timer > 0 {
                old(self).delay_timer - 1
            } else {
                0
            },
            final(self).sound_timer == if old(self).sound_timer > 0 {
                old(self).sound_timer - 1
            } else {
                0
            },
    {
        if self.delay_timer > 0 {
            self.delay_timer = self.delay_timer - 1;
        }
        if self.sound_timer > 0 {
            self.sound_timer = self.sound_timer - 1;
        }
    }

    /// Sets the keypad: key `i` is held down exactly when `pressed[i]`.
    pub fn set_keys(&mut self, pressed: [bool; 16])
        ensures
            final(self)@ == old(self)@.with_keys(pressed@),
            forall|i: int| 0 <= i < 16 ==> (#[trigger] final(self).key@[i] == 1) == pressed@[i],
            forall|i: int| 0 <= i < 16 ==> (#[trigger] final(self).key@[i] == 0) == !pressed@[i],
    {
        self.key = [0;16];
        let mut i: usize = 0;
        while i < 16
            invariant
                i <= 16,
                self@ == (Machine {
                    key: Seq::new(16, |j: int| if j < i && pressed@[j] { 1i8 } else { 0i8 }),
                    ..old(self)@
                }),
            decreases 16 - i,
        {
            if pressed[i] {
                self.key[i] = 1;
            }
            i = i + 1;
        }
    }

    /// When the display has changed since the last frame, paints it into
    /// `buffer`, each display pixel a `SCALE` by `SCALE` square, row by row,
    /// and clears the redraw flag; otherwise leaves `buffer` as it is.
    pub fn render(&mut self, buffer: &mut Vec<u32>)
        requires
            old(buffer).len() == WINDOW_WIDTH * WINDOW_HEIGHT,
        ensures
            final(self)@ == (Machine { draw_flag: false, ..old(self)@ }),
            final(buffer).len() == old(buffer).len(),
            old(self).draw_flag ==> forall|wx: int, wy: int|
                0 <= wx < WINDOW_WIDTH && 0 <= wy < WINDOW_HEIGHT ==> #[trigger] final(buffer)@[wy
                    * WINDOW_WIDTH + wx] == pixel_color(window_pixel(old(self).gfx@, wx, wy)),
            old(self).draw_flag ==> forall|wx: int, wy: int|
                0 <= wx < 640 && 0 <= wy < 320 ==> #[trigger] final(buffer)@[wy * 640 + wx] == if old(
                    self,
                ).gfx@[(wy / 10) * 64 + wx / 10] > 0 {
                    0xFFFFFFu32
                } else {
                    0u32
                },
            !old(self).draw_flag ==> final(buffer)@ == old(buffer)@,
    {
        if self.draw_flag {
            let mut wy: usize = 0;
            while wy < WINDOW_HEIGHT
                invariant
                    wy <= WINDOW_HEIGHT,
                    buffer.len() == WINDOW_WIDTH * WINDOW_HEIGHT,
                    forall|x: int, y: int|
                        0 <= x < WINDOW_WIDTH && 0 <= y < wy ==> #[trigger] buffer@[y * WINDOW_WIDTH
                            + x] == pixel_color(window_pixel(self.gfx@, x, y)),
                decreases WINDOW_HEIGHT - wy,
            {
                let mut wx: usize = 0;
                while wx < WINDOW_WIDTH
                    invariant
                        wx <= WINDOW_WIDTH,
                        wy < WINDOW_HEIGHT,
                        buffer.len() == WINDOW_WIDTH * WINDOW_HEIGHT,
                        forall|x: int, y: int|
                            0 <= x < WINDOW_WIDTH && 0 <= y < wy ==> #[trigger] buffer@[y
                                * WINDOW_WIDTH + x] == pixel_color(window_pixel(self.gfx@, x, y)),
                        forall|x: int|
                            0 <= x < wx ==> #[trigger] buffer@[wy * WINDOW_WIDTH + x]
                                == pixel_color(window_pixel(self.gfx@, x, wy as int)),
                    decreases WINDOW_WIDTH - wx,
                {
                    let pixel = self.gfx[(wy / SCALE) * WIDTH + wx / SCALE];
                    let color = if pixel > 0 {
                        LIT
                    } else {
                        DARK
                    };
                    buffer.set(wy * WINDOW_WIDTH + wx, color);
                    wx = wx + 1;
                }
                wy = wy + 1;
            }
            self.draw_flag = false;
        }
    }
}

} // verus!
