//! ZX Spectrum display renderer.
//!
//! Output: 320×240 RGBA framebuffer (256×192 game area + 32px border on
//! left/right and 24px border on top/bottom).
//!
//! Pixel memory layout (0x4000–0x57FF, 6144 bytes):
//!   The screen is divided into three vertical thirds (0–63, 64–127, 128–191).
//!   Within each third, the address encodes rows in a non-linear order:
//!     addr = 0x4000 | (third<<11) | (line_in_char<<8) | (char_row<<5) | col_byte
//!   where:
//!     third        = scanline >> 6          (0–2)
//!     line_in_char = scanline & 7           (0–7, pixel row within 8-line block)
//!     char_row     = (scanline >> 3) & 7    (0–7, which character row in the third)
//!     col_byte     = 0–31                   (byte column)
//!
//! Attribute memory (0x5800–0x5AFF, 768 bytes):
//!   Linear: attr[y/8 * 32 + x_byte]
//!   Byte:  FBPPPIII  (F=flash, B=bright, PPP=paper, III=ink)
use vstd::prelude::*;
use crate::bus::{Bus, BusState};
use crate::flags::{pow2_of, lemma_shift_bit};

verus! {

broadcast use crate::bus::lemma_bus_view;

pub const SCREEN_W: usize = 320;
pub const SCREEN_H: usize = 240;
pub const BORDER_X: usize = 32;
pub const BORDER_Y: usize = 24;
pub const GAME_W: usize = 256;
pub const GAME_H: usize = 192;
/// Bytes in the RGBA framebuffer.
pub const FB_LEN: usize = 307200;

/// The Spectrum palette: colour index bits are blue (0), red (1), green (2) and
/// bright (3); a set colour bit gives 0xCD, or 0xFF when bright.
pub open spec fn palette_rgb(i: int) -> (u8, u8, u8) {
    let level: u8 = if i >= 8 { 0xFF } else { 0xCD };
    let i3 = i % 8;
    (
        if (i3 / 2) % 2 == 1 { level } else { 0 },
        if i3 / 4 == 1 { level } else { 0 },
        if i3 % 2 == 1 { level } else { 0 },
    )
}

/// Standard Spectrum palette: 8 colours × normal/bright.
fn palette(i: u8) -> (rgb: (u8, u8, u8))
    requires
        i < 16,
    ensures
        rgb == palette_rgb(i as int),
{
    match i {
        // Normal
        0 => (0x00, 0x00, 0x00),  // Black
        1 => (0x00, 0x00, 0xCD),  // Blue
        2 => (0xCD, 0x00, 0x00),  // Red
        3 => (0xCD, 0x00, 0xCD),  // Magenta
        4 => (0x00, 0xCD, 0x00),  // Green
        5 => (0x00, 0xCD, 0xCD),  // Cyan
        6 => (0xCD, 0xCD, 0x00),  // Yellow
        7 => (0xCD, 0xCD, 0xCD),  // White
        // Bright
        8 => (0x00, 0x00, 0x00),  // Bright Black (same as black)
        9 => (0x00, 0x00, 0xFF),  // Bright Blue
        10 => (0xFF, 0x00, 0x00),  // Bright Red
        11 => (0xFF, 0x00, 0xFF),  // Bright Magenta
        12 => (0x00, 0xFF, 0x00),  // Bright Green
        13 => (0x00, 0xFF, 0xFF),  // Bright Cyan
        14 => (0xFF, 0xFF, 0x00),  // Bright Yellow
        _ => (0xFF, 0xFF, 0xFF),  // Bright White
    }
}

/// The VRAM address of the pixel byte at game scanline `y` (0–191), byte column `x` (0–31).
pub open spec fn pixel_addr_spec(y: int, x: int) -> int {
    0x4000 + (y / 64) * 2048 + (y % 8) * 256 + ((y / 8) % 8) * 32 + x
}

/// The address of the attribute byte of game pixel (`gx`, `gy`).
pub open spec fn attr_addr_spec(gx: int, gy: int) -> int {
    0x5800 + (gy / 8) * 32 + gx / 8
}

/// Display memory as the renderer sees it: RAM from 0x4000, 0xFF below.
pub open spec fn vram(m: BusState, addr: int) -> u8 {
    if addr >= 0x4000 { m.ram[addr - 0x4000] } else { 0xFF }
}

/// Whether game pixel (`gx`, `gy`) shows ink: its bit in the pixel byte, bit 7 leftmost.
pub open spec fn ink_on(m: BusState, gx: int, gy: int) -> bool {
    (vram(m, pixel_addr_spec(gy, gx / 8)) >> ((7 - gx % 8) as u8)) & 1 != 0
}

/// The colour of game pixel (`gx`, `gy`): ink or paper of its attribute cell,
/// bright when the attribute's bit 6 is set, ink and paper swapped when the
/// attribute flashes (bit 7) during the flash phase.
pub open spec fn game_pixel_rgb(m: BusState, gx: int, gy: int, flash_phase: bool) -> (u8, u8, u8) {
    let attr = vram(m, attr_addr_spec(gx, gy));
    let flash = attr >= 128;
    let bright = if (attr / 64) % 2 == 1 { 8int } else { 0 };
    let paper = ((attr / 8) % 8) as int;
    let ink = (attr % 8) as int;
    let swap = flash && flash_phase;
    let ink_idx = if swap { paper + bright } else { ink + bright };
    let paper_idx = if swap { ink + bright } else { paper + bright };
    palette_rgb(if ink_on(m, gx, gy) { ink_idx } else { paper_idx })
}

/// Whether screen position (`x`, `y`) lies in the 256×192 game area.
pub open spec fn in_game(x: int, y: int) -> bool {
    32 <= x < 32 + 256 && 24 <= y < 24 + 192
}

/// The colour of screen position (`x`, `y`): the game pixel inside the game area, the border colour outside it.
pub open spec fn screen_rgb(m: BusState, x: int, y: int, flash_phase: bool) -> (u8, u8, u8) {
    if in_game(x, y) {
        game_pixel_rgb(m, x - 32, y - 24, flash_phase)
    } else {
        palette_rgb((m.border_color % 8) as int)
    }
}

/// Index of the first (red) byte of screen position (`x`, `y`) in the framebuffer.
pub open spec fn fb_index(x: int, y: int) -> int {
    (y * 320 + x) * 4
}

/// Whether the framebuffer `fb` holds the RGBA colour `rgb` (alpha 0xFF) at (`x`, `y`).
pub open spec fn fb_holds(fb: Seq<u8>, x: int, y: int, rgb: (u8, u8, u8)) -> bool {
    &&& fb[fb_index(x, y)] == rgb.0
    &&& fb[fb_index(x, y) + 1] == rgb.1
    &&& fb[fb_index(x, y) + 2] == rgb.2
    &&& fb[fb_index(x, y) + 3] == 0xFF
}

/// Whether the framebuffer `fb` shows the bus `m` in flash phase `flash_phase`.
pub open spec fn shows(fb: Seq<u8>, m: BusState, flash_phase: bool) -> bool {
    &&& fb.len() == FB_LEN
    &&& forall|x: int, y: int|
        0 <= x < 320 && 0 <= y < 240 ==> #[trigger] fb_holds(fb, x, y, screen_rgb(m, x, y, flash_phase))
}

/// Whether frame number `frame` is in the phase where flashing cells swap ink and paper
/// (it toggles every 16 frames).
pub open spec fn flash_phase_of(frame: u32) -> bool {
    (frame / 16) % 2 == 1
}

pub struct Display {
    /// SCREEN_W × SCREEN_H × 4 (RGBA).
    pub framebuffer: Vec<u8>,
    /// Incremented every frame; drives the flash attribute (toggles every 16 frames, about 1.5 Hz at 50 Hz).
    pub frame_counter: u32,
}

/// Calculate the VRAM address for the pixel byte at game scanline `y` (0–191), byte column `x` (0–31).
fn pixel_addr(y: usize, x: usize) -> (a: usize)
    requires
        y < 192,
        x < 32,
    ensures
        a == pixel_addr_spec(y as int, x as int),
        0x4000 <= a < 0x5800,
{
    let third = y / 64;
    let line_in_char = y % 8;
    let char_row = (y / 8) % 8;
    0x4000 + third * 2048 + line_in_char * 256 + char_row * 32 + x
}

impl Display {
    /// A white framebuffer and frame counter 0.
    pub fn new() -> (d: Self)
        ensures
            d.framebuffer@ == Seq::new(FB_LEN as nat, |i: int| 0xFFu8),
            d.frame_counter == 0,
    {
        let d = Display { framebuffer: vec![0xFF; SCREEN_W * SCREEN_H * 4], frame_counter: 0 };
        assert(d.framebuffer@ =~= Seq::new(FB_LEN as nat, |i: int| 0xFFu8));
        d
    }

    /// Count a frame and draw the border and the game area of `bus` into the framebuffer.
    pub fn render(&mut self, bus: &Bus)
        requires
            bus.wf(),
            old(self).framebuffer@.len() == FB_LEN,
            old(self).frame_counter < u32::MAX,
        ensures
            final(self).frame_counter == old(self).frame_counter + 1,
            shows(final(self).framebuffer@, bus@, flash_phase_of(final(self).frame_counter)),
    {
        self.frame_counter += 1;
        let flash_phase = (self.frame_counter / 16) % 2 == 1;

        let border = palette(bus.border_color % 8);

        let mut y: usize = 0;
        while y < SCREEN_H
            invariant
                y <= SCREEN_H,
                bus.wf(),
                flash_phase == flash_phase_of(self.frame_counter),
                self.frame_counter == old(self).frame_counter + 1,
                border == palette_rgb((bus@.border_color % 8) as int),
                self.framebuffer@.len() == FB_LEN,
                forall|xx: int, yy: int|
                    0 <= xx < 320 && 0 <= yy < y ==> #[trigger] fb_holds(
                        self.framebuffer@,
                        xx,
                        yy,
                        screen_rgb(bus@, xx, yy, flash_phase),
                    ),
            decreases SCREEN_H - y,
        {
            let mut x: usize = 0;
            while x < SCREEN_W
                invariant
                    x <= SCREEN_W,
                    y < SCREEN_H,
                    bus.wf(),
                    flash_phase == flash_phase_of(self.frame_counter),
                    self.frame_counter == old(self).frame_counter + 1,
                    border == palette_rgb((bus@.border_color % 8) as int),
                    self.framebuffer@.len() == FB_LEN,
                    forall|xx: int, yy: int|
                        0 <= xx < 320 && 0 <= yy < 240 && (yy < y || (yy == y && xx < x)) ==> #[trigger] fb_holds(
                            self.framebuffer@,
                            xx,
                            yy,
                            screen_rgb(bus@, xx, yy, flash_phase),
                        ),
                decreases SCREEN_W - x,
            {
                let in_game = x >= BORDER_X && x < BORDER_X + GAME_W && y >= BORDER_Y && y < BORDER_Y + GAME_H;

                let (r, g, b) = if in_game {
                    let gx = x - BORDER_X;
                    let gy = y - BORDER_Y;
                    self.pixel_color(bus, gx, gy, flash_phase)
                } else {
                    border
                };

                let idx = (y * SCREEN_W + x) * 4;
                let ghost before = self.framebuffer@;
                self.framebuffer[idx] = r;
                self.framebuffer[idx + 1] = g;
                self.framebuffer[idx + 2] = b;
                self.framebuffer[idx + 3] = 0xFF;
                proof {
                    assert forall|xx: int, yy: int|
                        0 <= xx < 320 && 0 <= yy < 240 && (yy < y || (yy == y && xx < x + 1)) implies #[trigger] fb_holds(
                            self.framebuffer@,
                            xx,
                            yy,
                            screen_rgb(bus@, xx, yy, flash_phase),
                        ) by {
                        if xx != x || yy != y {
                            assert(fb_holds(before, xx, yy, screen_rgb(bus@, xx, yy, flash_phase)));
                            assert(fb_index(xx, yy) + 3 < idx || fb_index(xx, yy) > idx + 3);
                        }
                    }
                }
                x += 1;
            }
            y += 1;
        }
    }

    /// The colour of game pixel (`gx`, `gy`) in flash phase `flash_phase`.
    fn pixel_color(&self, bus: &Bus, gx: usize, gy: usize, flash_phase: bool) -> (rgb: (u8, u8, u8))
        requires
            bus.wf(),
            gx < 256,
            gy < 192,
        ensures
            rgb == game_pixel_rgb(bus@, gx as int, gy as int, flash_phase),
    {
        // Pixel byte address
        let pixel_addr = pixel_addr(gy, gx / 8);
        let pixel_byte = bus.vram_byte(pixel_addr as u16);
        let pixel_bit = (7 - gx % 8) as u8;
        let ink_on = (pixel_byte >> pixel_bit) & 1 != 0;

        // Attribute byte
        let attr_addr = (0x5800 + (gy / 8) * 32 + gx / 8) as u16;
        let attr = bus.vram_byte(attr_addr);

        let flash = attr >= 128;
        let bright: u8 = if (attr / 64) % 2 == 1 { 8 } else { 0 };  // the bright half of the palette
        let paper = (attr / 8) % 8;
        let ink = attr % 8;

        // If flash is set and we're in the active flash phase, swap ink/paper
        let (ink_idx, paper_idx) = if flash && flash_phase {
            (paper + bright, ink + bright)
        } else {
            (ink + bright, paper + bright)
        };

        let color_idx = if ink_on { ink_idx } else { paper_idx };
        palette(color_idx)
    }
}

/// The bitmap layout: every game scanline (0–191) and byte column (0–31) has its own pixel
/// byte, and together they fill 0x4000–0x57FF.
pub proof fn lemma_pixel_addr_layout(y1: int, x1: int, y2: int, x2: int)
    requires
        0 <= y1 < 192,
        0 <= x1 < 32,
        0 <= y2 < 192,
        0 <= x2 < 32,
    ensures
        0x4000 <= pixel_addr_spec(y1, x1) < 0x5800,
        (y1 != y2 || x1 != x2) ==> pixel_addr_spec(y1, x1) != pixel_addr_spec(y2, x2),
{
    let (a1, b1, c1) = (y1 / 64, (y1 / 8) % 8, y1 % 8);
    let (a2, b2, c2) = (y2 / 64, (y2 / 8) % 8, y2 % 8);
    assert(y1 == 64 * a1 + 8 * b1 + c1);
    assert(y2 == 64 * a2 + 8 * b2 + c2);
    if pixel_addr_spec(y1, x1) == pixel_addr_spec(y2, x2) {
        lemma_digits(a1, 256 * c1 + 32 * b1 + x1, a2, 256 * c2 + 32 * b2 + x2, 2048);
        lemma_digits(c1, 32 * b1 + x1, c2, 32 * b2 + x2, 256);
        lemma_digits(b1, x1, b2, x2, 32);
    }
}

/// The bitmap address in bit fields: 010, then y7..y6, y2..y0, y5..y3 and x4..x0; and every
/// byte of 0x4000–0x57FF is the pixel byte of some scanline and byte column.
pub proof fn lemma_pixel_addr_fields(y: u16, x: u16, a: int)
    requires
        y < 192,
        x < 32,
        0x4000 <= a < 0x5800,
    ensures
        pixel_addr_spec(y as int, x as int) == (0x4000u16 | ((y >> 6u16) << 11u16) | ((y & 7) << 8u16) | (((y
            >> 3u16) & 7) << 5u16) | x) as int,
        exists|yy: int, xx: int| 0 <= yy < 192 && 0 <= xx < 32 && pixel_addr_spec(yy, xx) == a,
{
    assert((0x4000 + (y / 64) * 2048 + (y % 8) * 256 + ((y / 8) % 8) * 32 + x) as u16 == (0x4000u16 | ((y
        >> 6u16) << 11u16) | ((y & 7) << 8u16) | (((y >> 3u16) & 7) << 5u16) | x)) by (bit_vector)
        requires
            y < 192,
            x < 32,
    ;
    let off = a - 0x4000;
    let third = off / 2048;
    let line = (off / 256) % 8;
    let row = (off / 32) % 8;
    let xx = off % 32;
    let yy = 64 * third + 8 * row + line;
    lemma_split_offset(off);
    assert(pixel_addr_spec(yy, xx) == a);
}

proof fn lemma_split_offset(off: int) by (nonlinear_arith)
    requires
        0 <= off < 0x1800,
    ensures
        off == (off / 2048) * 2048 + ((off / 256) % 8) * 256 + ((off / 32) % 8) * 32 + off % 32,
        0 <= off / 2048 < 3,
        ({
            let yy = 64 * (off / 2048) + 8 * ((off / 32) % 8) + (off / 256) % 8;
            &&& 0 <= yy < 192
            &&& yy / 64 == off / 2048
            &&& yy % 8 == (off / 256) % 8
            &&& (yy / 8) % 8 == (off / 32) % 8
        }),
{
}

proof fn lemma_digits(a1: int, u1: int, a2: int, u2: int, k: int) by (nonlinear_arith)
    requires
        k > 0,
        0 <= u1 < k,
        0 <= u2 < k,
        a1 * k + u1 == a2 * k + u2,
    ensures
        a1 == a2,
        u1 == u2,
{
}

/// The attribute layout: each 8×8 cell of the game area has its own attribute byte in
/// 0x5800–0x5AFF, shared by the 64 pixels of the cell.
pub proof fn lemma_attr_addr_layout(gx1: int, gy1: int, gx2: int, gy2: int)
    requires
        0 <= gx1 < 256,
        0 <= gy1 < 192,
        0 <= gx2 < 256,
        0 <= gy2 < 192,
    ensures
        0x5800 <= attr_addr_spec(gx1, gy1) < 0x5B00,
        (attr_addr_spec(gx1, gy1) == attr_addr_spec(gx2, gy2)) == (gx1 / 8 == gx2 / 8 && gy1 / 8 == gy2 / 8),
{
}

/// The flash phase holds for 16 frames and then flips.
pub proof fn lemma_flash_period(n: u32)
    requires
        n as int + 16 <= u32::MAX,
    ensures
        flash_phase_of((n + 16) as u32) != flash_phase_of(n),
        n % 16 != 15 ==> flash_phase_of((n + 1) as u32) == flash_phase_of(n),
{
}

/// A framebuffer that shows a bus has opaque pixels and shows the border colour at every
/// position outside the game area.
pub proof fn lemma_border_and_alpha(fb: Seq<u8>, m: BusState, fp: bool, x: int, y: int)
    requires
        shows(fb, m, fp),
        0 <= x < 320,
        0 <= y < 240,
    ensures
        fb[fb_index(x, y) + 3] == 0xFF,
        !in_game(x, y) ==> fb_holds(fb, x, y, palette_rgb((m.border_color % 8) as int)),
{
    assert(fb_holds(fb, x, y, screen_rgb(m, x, y, fp)));
}

/// The colour of a game pixel from its attribute byte FBPPPIII: the ink colour (III) where
/// the bitmap bit is 1 and the paper colour (PPP) where it is 0, the two exchanged when
/// the cell flashes (F) in the flash phase. A colour's bits are blue (0), red (1) and
/// green (2); each set bit gives 0xFF in that channel when BRIGHT (B) is set, else 0xCD.
pub proof fn lemma_game_pixel_colour(m: BusState, gx: int, gy: int, flash_phase: bool)
    ensures
        ({
            let attr = vram(m, attr_addr_spec(gx, gy)) as int;
            let level: u8 = if (attr / 64) % 2 == 1 { 0xFF } else { 0xCD };
            let swapped = attr >= 128 && flash_phase;
            let colour = if ink_on(m, gx, gy) != swapped { attr % 8 } else { (attr / 8) % 8 };
            game_pixel_rgb(m, gx, gy, flash_phase) == (
                if (colour / 2) % 2 == 1 { level } else { 0u8 },
                if colour / 4 == 1 { level } else { 0u8 },
                if colour % 2 == 1 { level } else { 0u8 },
            )
        }),
{
}

/// A game pixel shows ink exactly when its bit in the pixel byte is 1, counting bit 7 as
/// the leftmost of the byte's eight pixels.
pub proof fn lemma_ink_bit(m: BusState, gx: int, gy: int)
    requires
        0 <= gx < 256,
    ensures
        ink_on(m, gx, gy) == ((vram(m, pixel_addr_spec(gy, gx / 8)) as int / pow2_of(7 - gx % 8)) % 2 == 1),
{
    let b = vram(m, pixel_addr_spec(gy, gx / 8));
    let k = (7 - gx % 8) as u8;
    assert(((b >> k) & 1 != 0) == ((b as int / pow2_of(k as int)) % 2 == 1)) by {
        lemma_shift_bit(b, k);
    }
}


/// The screen layout of a shown framebuffer: pixel (x, y) is the four bytes from
/// (y * 320 + x) * 4, red, green, blue, alpha 0xFF; the 256×192 game area starts at
/// (32, 24) and shows game pixel (x - 32, y - 24); everywhere else shows the border colour,
/// whose bits are blue (0), red (1) and green (2), each giving 0xCD.
pub proof fn lemma_screen_layout(fb: Seq<u8>, m: BusState, fp: bool, x: int, y: int)
    requires
        shows(fb, m, fp),
        0 <= x < 320,
        0 <= y < 240,
    ensures
        ({
            let i = (y * 320 + x) * 4;
            let b = (m.border_color % 8) as int;
            &&& fb[i + 3] == 0xFF
            &&& (32 <= x < 288 && 24 <= y < 216) ==> (fb[i], fb[i + 1], fb[i + 2]) == game_pixel_rgb(m, x - 32, y - 24, fp)
            &&& !(32 <= x < 288 && 24 <= y < 216) ==> fb[i] == (if (b / 2) % 2 == 1 { 0xCDu8 } else { 0u8 })
                && fb[i + 1] == (if b / 4 == 1 { 0xCDu8 } else { 0u8 }) && fb[i + 2] == (if b % 2 == 1 { 0xCDu8 } else { 0u8 })
        }),
{
    assert(fb_holds(fb, x, y, screen_rgb(m, x, y, fp)));
}

} // verus!
