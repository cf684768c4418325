use chip8::machine::Chip8;
use chip8::peripherals::{idle_time, timer_due, DARK, LIT, WINDOW_HEIGHT, WINDOW_WIDTH};

#[test]
fn timers_count_down_to_zero() {
    let mut chip = Chip8::new();
    chip.delay_timer = 2;
    chip.sound_timer = 1;
    chip.tick_timers();
    assert_eq!((chip.delay_timer, chip.sound_timer), (1, 0));
    chip.tick_timers();
    assert_eq!((chip.delay_timer, chip.sound_timer), (0, 0));
    chip.tick_timers();
    assert_eq!((chip.delay_timer, chip.sound_timer), (0, 0));
}

#[test]
fn keys_follow_pressed_set() {
    let mut chip = Chip8::new();
    chip.key[3] = 1;
    let mut pressed = [false; 16];
    pressed[0] = true;
    pressed[15] = true;
    chip.set_keys(pressed);
    let mut expected = [0i8; 16];
    expected[0] = 1;
    expected[15] = 1;
    assert_eq!(chip.key, expected);
}

#[test]
fn render_scales_pixels_and_clears_flag() {
    let mut chip = Chip8::new();
    chip.gfx[1 + 2 * 64] = 1;
    chip.gfx[63 + 31 * 64] = 1;
    chip.gfx[5] = -1;
    chip.draw_flag = true;
    let mut buffer = vec![7u32; WINDOW_WIDTH * WINDOW_HEIGHT];
    chip.render(&mut buffer);
    assert!(!chip.draw_flag);
    assert_eq!(buffer[20 * WINDOW_WIDTH + 10], LIT);
    assert_eq!(buffer[29 * WINDOW_WIDTH + 19], LIT);
    assert_eq!(buffer[29 * WINDOW_WIDTH + 20], DARK);
    assert_eq!(buffer[19 * WINDOW_WIDTH + 10], DARK);
    assert_eq!(buffer[319 * WINDOW_WIDTH + 639], LIT);
    // a negative pixel value shows dark
    assert_eq!(buffer[50], DARK);
    let lit = buffer.iter().filter(|&&c| c == LIT).count();
    assert_eq!(lit, 200);
}

#[test]
fn render_without_change_leaves_buffer() {
    let mut chip = Chip8::new();
    chip.gfx[0] = 1;
    let mut buffer = vec![7u32; WINDOW_WIDTH * WINDOW_HEIGHT];
    chip.render(&mut buffer);
    assert!(buffer.iter().all(|&c| c == 7));
    assert!(!chip.draw_flag);
}

#[test]
fn timers_are_due_after_one_millisecond() {
    assert!(!timer_due(999_999));
    assert!(timer_due(1_000_000));
    assert!(timer_due(u128::MAX));
}

#[test]
fn idle_time_fills_the_cycle() {
    assert_eq!(idle_time(0), 2_000_000);
    assert_eq!(idle_time(500_000), 1_500_000);
    assert_eq!(idle_time(2_000_000), 0);
    assert_eq!(idle_time(5_000_000_000), 0);
}
