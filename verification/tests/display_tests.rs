use chip8::display::{Display, DisplayError};

fn region(state: &[[bool; 64]; 32], width: usize, height: usize) -> Vec<Vec<bool>> {
    (0..height)
        .map(|y| (0..width).map(|x| state[y][x]).collect())
        .collect()
}

#[test]
fn test_simple_reactangle() {
    let mut display = Display::new();
    let sprite = [0b11110000, 0b10010000, 0b11110000, 0b10010000, 0b11110000];

    let collisions = display.draw_sprite(&sprite, 0, 0).unwrap();
    let display_state = display.state();
    let result = region(display_state, 4, 5);

    let expected = vec![
        vec![true, true, true, true],
        vec![true, false, false, true],
        vec![true, true, true, true],
        vec![true, false, false, true],
        vec![true, true, true, true],
    ];

    assert!(!collisions);
    assert_eq!(result, expected);
}

#[test]
fn test_clear_display() {
    let mut display = Display::new();
    let sprite = [0b11110000, 0b10010000, 0b11110000, 0b10010000, 0b11110000];

    let collisions = display.draw_sprite(&sprite, 0, 0).unwrap();
    display.clear();
    let display_state = display.state();

    assert!(!collisions);
    assert_eq!(display_state, &[[false; 64]; 32]);
}

#[test]
fn test_rectangle_intersection() {
    let mut display = Display::new();

    // sprite 5 in width, 4 in height, drawn from 0, 0
    // (0, 0) -> (4, 3)
    let sprite1 = [0b11111000, 0b11111000, 0b11111000, 0b11111000];
    // sprite 6 in width, 3 in height, drawn from 2, 2
    // (2, 2) -> (7, 4)
    let sprite2 = [0b11111100, 0b11111100, 0b11111100];

    let collisions1 = display.draw_sprite(&sprite1, 0, 0).unwrap();
    let collisions2 = display.draw_sprite(&sprite2, 2, 2).unwrap();
    let display_state = display.state();
    let result = region(display_state, 8, 5);

    let expected = vec![
        vec![true, true, true, true, true, false, false, false],
        vec![true, true, true, true, true, false, false, false],
        vec![true, true, false, false, false, true, true, true],
        vec![true, true, false, false, false, true, true, true],
        vec![false, false, true, true, true, true, true, true],
    ];

    assert!(!collisions1);
    assert!(collisions2);
    assert_eq!(result, expected);
}

#[test]
fn test_wraparound() {
    let mut display = Display::new();
    let sprite = [0b10000000];
    display.draw_sprite(&sprite, 63, 31).unwrap();
    assert!(display.state()[31][63]);
}

#[test]
fn test_big_sprite_error() {
    let mut display = Display::new();

    let sprite = [0; 33];
    assert!(matches!(
        display.draw_sprite(&sprite, 0, 0),
        Err(DisplayError::SpriteTooBig)
    ));
}

#[test]
fn test_draw_twice_cancels() {
    // Drawing the glyph for digit 0 at (0, 0) twice: the first draw reports
    // no collision, the second turns every lit pixel off and reports the
    // collision, leaving the framebuffer entirely dark.
    let mut display = Display::new();
    let glyph = [0xF0, 0x90, 0x90, 0x90, 0xF0];

    let first = display.draw_sprite(&glyph, 0, 0).unwrap();
    assert!(!first);

    let second = display.draw_sprite(&glyph, 0, 0).unwrap();
    assert!(second);
    assert_eq!(display.state(), &[[false; 64]; 32]);
}
