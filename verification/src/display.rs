//! The window side of the frontend: where each pixel of the Game Boy's
//! frame goes in the window, and which keys press which joypad buttons.
use vstd::prelude::*;

verus! {

/// Width of the Game Boy's screen in pixels.
pub const SCREEN_WIDTH: usize = 160;

/// Height of the Game Boy's screen in pixels.
pub const SCREEN_HEIGHT: usize = 144;

/// Bytes in one frame: four per pixel (red, green, blue, and one unused),
/// row by row from the top left.
pub const DISPLAY_BUFFER: usize = 92160;

/// How many window pixels wide and high one screen pixel is drawn.
pub const SCALE: u32 = 3;

/// Width of the window.
pub const WINDOW_WIDTH: u32 = 160 * SCALE;

/// Height of the window.
pub const WINDOW_HEIGHT: u32 = 144 * SCALE;

/// One screen pixel as the window draws it: a `SCALE` by `SCALE` square
/// whose top left corner is at (`x`, `y`), in the color (`r`, `g`, `b`).
#[derive(Debug, Clone, Copy, PartialEq, Eq, Structural)]
pub struct ScreenPixel {
    pub x: i32,
    pub y: i32,
    pub r: u8,
    pub g: u8,
    pub b: u8,
}

/// How pixel number `k` of a frame is drawn.
pub open spec fn pixel_at(frame: Seq<u8>, k: int) -> ScreenPixel {
    ScreenPixel {
        x: ((k % SCREEN_WIDTH as int) * SCALE) as i32,
        y: ((k / SCREEN_WIDTH as int) * SCALE) as i32,
        r: frame[4 * k],
        g: frame[4 * k + 1],
        b: frame[4 * k + 2],
    }
}

/// The squares that draw a frame, pixel by pixel in the frame's order.
pub fn screen_pixels(frame: &[u8]) -> (res: Vec<ScreenPixel>)
    requires
        frame@.len() >= DISPLAY_BUFFER,
    ensures
        res@.len() == SCREEN_WIDTH * SCREEN_HEIGHT,
        forall|k: int| 0 <= k < res@.len() ==> #[trigger] res@[k] == pixel_at(frame@, k),
{
    let mut res: Vec<ScreenPixel> = Vec::new();
    let total: usize = SCREEN_WIDTH * SCREEN_HEIGHT;
    let mut k: usize = 0;
    while k < total
        invariant
            total == SCREEN_WIDTH * SCREEN_HEIGHT,
            frame@.len() >= DISPLAY_BUFFER,
            k <= total,
            res@.len() == k,
            forall|j: int| 0 <= j < k ==> #[trigger] res@[j] == pixel_at(frame@, j),
        decreases total - k,
    {
        let i = 4 * k;
        let column = k % SCREEN_WIDTH;
        let row = k / SCREEN_WIDTH;
        assert(row < SCREEN_HEIGHT);
        let px = ScreenPixel {
            x: (column as u32 * SCALE) as i32,
            y: (row as u32 * SCALE) as i32,
            r: frame[i],
            g: frame[i + 1],
            b: frame[i + 2],
        };
        res.push(px);
        k = k + 1;
    }
    res
}

/// The Game Boy's joypad buttons.
#[derive(Debug, Clone, Copy, PartialEq, Eq, Structural)]
pub enum Button {
    Down,
    Up,
    Left,
    Right,
    Start,
    Select,
    A,
    B,
}

/// SDL's keycode of the down arrow key.
pub const KEY_DOWN: i32 = 1073741905;

/// SDL's keycode of the up arrow key.
pub const KEY_UP: i32 = 1073741906;

/// SDL's keycode of the left arrow key.
pub const KEY_LEFT: i32 = 1073741904;

/// SDL's keycode of the right arrow key.
pub const KEY_RIGHT: i32 = 1073741903;

/// SDL's keycode of the return key.
pub const KEY_RETURN: i32 = 13;

/// SDL's keycode of the backspace key.
pub const KEY_BACKSPACE: i32 = 8;

/// SDL's keycode of the X key.
pub const KEY_X: i32 = 120;

/// SDL's keycode of the Z key.
pub const KEY_Z: i32 = 122;

/// The joypad button that a key stands for: the arrows for the pad,
/// return for Start, backspace for Select, X for A and Z for B.
pub open spec fn button_of_key(key: i32) -> Option<Button> {
    if key == KEY_DOWN {
        Some(Button::Down)
    } else if key == KEY_UP {
        Some(Button::Up)
    } else if key == KEY_LEFT {
        Some(Button::Left)
    } else if key == KEY_RIGHT {
        Some(Button::Right)
    } else if key == KEY_RETURN {
        Some(Button::Start)
    } else if key == KEY_BACKSPACE {
        Some(Button::Select)
    } else if key == KEY_X {
        Some(Button::A)
    } else if key == KEY_Z {
        Some(Button::B)
    } else {
        None
    }
}

/// The joypad button for an SDL keycode, if the key stands for one.
pub fn key2btn(key: i32) -> (res: Option<Button>)
    ensures
        res == button_of_key(key),
{
    if key == KEY_DOWN {
        Some(Button::Down)
    } else if key == KEY_UP {
        Some(Button::Up)
    } else if key == KEY_LEFT {
        Some(Button::Left)
    } else if key == KEY_RIGHT {
        Some(Button::Right)
    } else if key == KEY_RETURN {
        Some(Button::Start)
    } else if key == KEY_BACKSPACE {
        Some(Button::Select)
    } else if key == KEY_X {
        Some(Button::A)
    } else if key == KEY_Z {
        Some(Button::B)
    } else {
        None
    }
}

/// Pixel `k` of the frame (row `k / 160`, column `k % 160`) is drawn as the
/// square at three times its column and row, in the colour of the frame's
/// bytes `4k`, `4k + 1` and `4k + 2`.
pub proof fn lemma_pixel_colour_and_place(frame: Seq<u8>, k: int)
    requires
        0 <= k < SCREEN_WIDTH * SCREEN_HEIGHT,
        frame.len() >= DISPLAY_BUFFER,
    ensures
        pixel_at(frame, k).r == frame[4 * k],
        pixel_at(frame, k).g == frame[4 * k + 1],
        pixel_at(frame, k).b == frame[4 * k + 2],
        pixel_at(frame, k).x == 3 * (k % 160),
        pixel_at(frame, k).y == 3 * (k / 160),
        0 <= pixel_at(frame, k).x < 480,
        0 <= pixel_at(frame, k).y < 432,
{
}

/// Exactly the eight bound keys press a button, and no two of them press
/// the same one.
pub proof fn lemma_key_bindings(k1: i32, k2: i32)
    ensures
        button_of_key(k1) is Some <==> (k1 == KEY_DOWN || k1 == KEY_UP || k1 == KEY_LEFT || k1
            == KEY_RIGHT || k1 == KEY_RETURN || k1 == KEY_BACKSPACE || k1 == KEY_X || k1 == KEY_Z),
        button_of_key(k1) is Some && button_of_key(k1) == button_of_key(k2) ==> k1 == k2,
{
}

} // verus!
