//! The plain-value side of the desktop front end: which host key is which CHIP-8 button,
//! and which rectangles of the window are lit.
use vstd::prelude::*;

verus! {

/// The host keys the front end reacts to; every other key is `Other`.
#[derive(Clone, Copy, Debug, PartialEq, Eq, Structural)]
pub enum HostKey {
    Num1,
    Num2,
    Num3,
    Num4,
    Q,
    W,
    E,
    R,
    A,
    S,
    D,
    F,
    Z,
    X,
    C,
    V,
    Space,
    F5,
    F8,
    Other,
}

/// The CHIP-8 button of a host key: the left four columns of a QWERTY keyboard form the
/// hexadecimal keypad
/// ```text
/// 1 2 3 C      1 2 3 4
/// 4 5 6 D  <-  Q W E R
/// 7 8 9 E      A S D F
/// A 0 B F      Z X C V
/// ```
pub open spec fn key_button(key: HostKey) -> Option<u8> {
    match key {
        HostKey::Num1 => Some(0x1u8),
        HostKey::Num2 => Some(0x2u8),
        HostKey::Num3 => Some(0x3u8),
        HostKey::Num4 => Some(0xCu8),
        HostKey::Q => Some(0x4u8),
        HostKey::W => Some(0x5u8),
        HostKey::E => Some(0x6u8),
        HostKey::R => Some(0xDu8),
        HostKey::A => Some(0x7u8),
        HostKey::S => Some(0x8u8),
        HostKey::D => Some(0x9u8),
        HostKey::F => Some(0xEu8),
        HostKey::Z => Some(0xAu8),
        HostKey::X => Some(0x0u8),
        HostKey::C => Some(0xBu8),
        HostKey::V => Some(0xFu8),
        _ => None,
    }
}

/// The CHIP-8 button of a host key, if it has one.
pub fn key_to_btn(key: HostKey) -> (btn: Option<u8>)
    ensures
        btn == key_button(key),
{
    match key {
        HostKey::Num1 => Some(0x1),
        HostKey::Num2 => Some(0x2),
        HostKey::Num3 => Some(0x3),
        HostKey::Num4 => Some(0xC),
        HostKey::Q => Some(0x4),
        HostKey::W => Some(0x5),
        HostKey::E => Some(0x6),
        HostKey::R => Some(0xD),
        HostKey::A => Some(0x7),
        HostKey::S => Some(0x8),
        HostKey::D => Some(0x9),
        HostKey::F => Some(0xE),
        HostKey::Z => Some(0xA),
        HostKey::X => Some(0x0),
        HostKey::C => Some(0xB),
        HostKey::V => Some(0xF),
        _ => None,
    }
}

/// Side of the square of window pixels that shows one CHIP-8 pixel.
pub const PIXEL_SCALE: i32 = 10;

/// A rectangle of the window, in window pixels.
#[derive(Clone, Copy, Debug, PartialEq, Eq, Structural)]
pub struct PixelRect {
    pub x: i32,
    pub y: i32,
    pub width: u32,
    pub height: u32,
}

/// The square of the window that shows pixel `i` of the screen.
pub open spec fn pixel_rect(i: int) -> PixelRect {
    PixelRect { x: ((i % 64) * 10) as i32, y: ((i / 64) * 10) as i32, width: 10, height: 10 }
}

/// The squares of the lit pixels among the first `n`, in pixel order.
pub open spec fn lit_pixel_rects(video: Seq<u32>, n: int) -> Seq<PixelRect>
    decreases n,
{
    if n <= 0 {
        seq![]
    } else if video[n - 1] > 0 {
        lit_pixel_rects(video, n - 1).push(pixel_rect(n - 1))
    } else {
        lit_pixel_rects(video, n - 1)
    }
}

/// The squares of the window to fill white: one per lit pixel, in pixel order.
pub fn screen_rects(display: &[u32; 2048]) -> (rects: Vec<PixelRect>)
    ensures
        rects@ == lit_pixel_rects(display@, 2048),
{
    let mut rects: Vec<PixelRect> = Vec::new();
    let mut i: usize = 0;
    while i < 2048
        invariant
            i <= 2048,
            rects@ == lit_pixel_rects(display@, i as int),
        decreases 2048 - i,
    {
        if display[i] > 0 {
            let x = (i % 64) as i32;
            let y = (i / 64) as i32;
            rects.push(
                PixelRect { x: x * PIXEL_SCALE, y: y * PIXEL_SCALE, width: 10, height: 10 },
            );
        }
        i = i + 1;
    }
    rects
}


/// The window square of pixel `i`, `PIXEL_SCALE` wide, written out.
pub open spec fn square_of(i: int) -> PixelRect {
    PixelRect { x: ((i % 64) * 10) as i32, y: ((i / 64) * 10) as i32, width: 10, height: 10 }
}

/// The squares painted for the first `n` pixels are exactly those of the lit ones: each
/// painted square belongs to a lit pixel, and each lit pixel has its square painted.
pub proof fn law_lit_pixel_rects(video: Seq<u32>, n: int)
    requires
        0 <= n <= video.len(),
    ensures
        forall|k: int|
            0 <= k < lit_pixel_rects(video, n).len() ==> exists|i: int|
                0 <= i < n && video[i] > 0 && #[trigger] lit_pixel_rects(video, n)[k] == square_of(i),
        forall|i: int|
            0 <= i < n && #[trigger] video[i] > 0 ==> lit_pixel_rects(video, n).contains(square_of(i)),
    decreases n,
{
    if n > 0 {
        law_lit_pixel_rects(video, n - 1);
        let prev = lit_pixel_rects(video, n - 1);
        let cur = lit_pixel_rects(video, n);
        assert forall|k: int| 0 <= k < cur.len() implies exists|i: int|
            0 <= i < n && video[i] > 0 && #[trigger] cur[k] == square_of(i) by {
            if k < prev.len() {
                assert(cur[k] == prev[k]);
            } else {
                assert(cur[k] == square_of(n - 1));
            }
        }
        assert forall|i: int| 0 <= i < n && #[trigger] video[i] > 0 implies cur.contains(square_of(i)) by {
            if i < n - 1 {
                let k = choose|k: int| 0 <= k < prev.len() && prev[k] == square_of(i);
                assert(cur[k] == prev[k]);
            } else {
                assert(cur[cur.len() - 1] == square_of(i));
            }
        }
    }
}

} // verus!
