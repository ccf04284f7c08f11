use gameboy_display::display::{
    key2btn, screen_pixels, Button, ScreenPixel, DISPLAY_BUFFER, SCALE, SCREEN_HEIGHT, SCREEN_WIDTH,
    WINDOW_HEIGHT, WINDOW_WIDTH,
};

#[test]
fn window_size() {
    assert_eq!(WINDOW_WIDTH, 480);
    assert_eq!(WINDOW_HEIGHT, 432);
    assert_eq!(DISPLAY_BUFFER, SCREEN_WIDTH * SCREEN_HEIGHT * 4);
}

#[test]
fn pixels_are_laid_out_row_by_row() {
    let frame: Vec<u8> = (0..DISPLAY_BUFFER).map(|i| (i % 251) as u8).collect();
    let px = screen_pixels(&frame);
    assert_eq!(px.len(), SCREEN_WIDTH * SCREEN_HEIGHT);
    assert_eq!(px[0], ScreenPixel { x: 0, y: 0, r: 0, g: 1, b: 2 });
    assert_eq!(px[1], ScreenPixel { x: 3, y: 0, r: 4, g: 5, b: 6 });
    let k = 161;
    assert_eq!(px[k], ScreenPixel { x: 3, y: 3, r: (4 * k % 251) as u8, g: ((4 * k + 1) % 251) as u8, b: ((4 * k + 2) % 251) as u8 });
    let last = px[px.len() - 1];
    assert_eq!((last.x, last.y), (159 * SCALE as i32, 143 * SCALE as i32));
}

#[test]
fn keys_map_to_buttons() {
    assert_eq!(key2btn(1073741905), Some(Button::Down));
    assert_eq!(key2btn(1073741906), Some(Button::Up));
    assert_eq!(key2btn(1073741904), Some(Button::Left));
    assert_eq!(key2btn(1073741903), Some(Button::Right));
    assert_eq!(key2btn(13), Some(Button::Start));
    assert_eq!(key2btn(8), Some(Button::Select));
    assert_eq!(key2btn(120), Some(Button::A));
    assert_eq!(key2btn(122), Some(Button::B));
    assert_eq!(key2btn(27), None);
    assert_eq!(key2btn(32), None);
    assert_eq!(key2btn(0), None);
}
