use vstd::prelude::*;
use crate::graphics::gpu::{DISPLAY_HEIGHT, DISPLAY_WIDTH};
use crate::graphics::gpu_2d::renderer_regs_2d::{Gpu2DMem, Gpu2DRenderRegs};
use crate::cartridge_layout::{le_u16, le_u32, read_u16_le, read_u32_le};

verus! {

/// Pixels of one screen.
pub const FRAME_PIXELS: usize = 49152;

/// A window value that shows every layer and effect, outside any window.
pub const FRAME_WINDOW_DEFAULT: u8 = 0x3F;

/// A 15-bit color with its alpha bit (bit 15) in the layer form the blend
/// shader reads: red, green and blue each in a byte of their own, left at
/// their 5-bit values, and the alpha bit in bit 24.
pub open spec fn rgba8_of(color: u16) -> u32 {
    ((color & 0x1F) as u32) | ((((color >> 5u16) & 0x1F) as u32) << 8u32) | ((((color >> 10u16) & 0x1F)
        as u32) << 16u32) | (((color >> 15u16) as u32) << 24u32)
}

/// Converts a 15-bit color with alpha bit to the layer form.
pub fn rgba5_to_rgba8_non_norm(color: u16) -> (r: u32)
    ensures
        r == rgba8_of(color),
{
    ((color & 0x1F) as u32) | ((((color >> 5u16) & 0x1F) as u32) << 8u32) | ((((color >> 10u16) & 0x1F)
        as u32) << 16u32) | (((color >> 15u16) as u32) << 24u32)
}

/// The inverted priority of a layer word (bits 25 and 26): 3 is the front.
pub open spec fn inv_prio(l: u32) -> u32 {
    (l >> 25u32) & 3
}

/// The inverted layer of a layer word (bits 27 to 29): 0 nothing drawn,
/// 1 an object, 2 to 5 backgrounds 3 to 0.
pub open spec fn inv_layer(l: u32) -> u32 {
    (l >> 27u32) & 7
}

/// The inverted priority of the 3D layer at this pixel (bits 30 and 31).
pub open spec fn inv_prio_3d(l: u32) -> u32 {
    (l >> 30u32) & 3
}

/// The layer word of a pixel of `color` drawn at inverted priority `ip` by
/// inverted layer `il`.
pub open spec fn layer_word(color: u16, ip: u32, il: u32) -> u32 {
    rgba8_of(color) | (ip << 25u32) | (il << 27u32)
}

/// `l` with the 3D priority bits replaced by `v`.
pub open spec fn with_prio_3d(l: u32, v: u32) -> u32 {
    (l & !0xC000_0000u32) | (v << 30u32)
}

/// Whether a pixel drawn at inverted priority `ip` goes in front of the
/// pixel of layer word `l`: objects win ties against backgrounds.
pub open spec fn goes_above(ip: u32, l: u32) -> bool {
    ip - (if inv_layer(l) == 1 {
        1int
    } else {
        0int
    }) >= inv_prio(l)
}

/// A window word with `bits` as layer enables and `win_in` in bit 6.
pub open spec fn window_word(bits: u8, win_in: bool) -> u8 {
    (bits & !0x40u8) | (if win_in {
        0x40u8
    } else {
        0u8
    })
}

/// Index of pixel (`x`, `y`) in a frame.
pub open spec fn pixel(x: int, y: int) -> int {
    y * DISPLAY_WIDTH as int + x
}

/// The two layers (top and bottom) of each pixel of a screen, and the window
/// value of each pixel.
pub struct Gpu2DFrame {
    pub layers: [Vec<u32>; 2],
    pub window: Vec<u8>,
}

impl Gpu2DFrame {
    /// Whether each buffer holds one value per pixel.
    pub open spec fn wf(&self) -> bool {
        &&& self.layers[0]@.len() == FRAME_PIXELS
        &&& self.layers[1]@.len() == FRAME_PIXELS
        &&& self.window@.len() == FRAME_PIXELS
    }

    /// A frame with empty layers and every layer shown everywhere.
    pub fn new() -> (r: Self)
        ensures
            r.wf(),
            forall|i: int| 0 <= i < FRAME_PIXELS ==> #[trigger] r.layers[0]@[i] == 0,
            forall|i: int| 0 <= i < FRAME_PIXELS ==> #[trigger] r.layers[1]@[i] == 0,
            forall|i: int| 0 <= i < FRAME_PIXELS ==> #[trigger] r.window@[i] == FRAME_WINDOW_DEFAULT,
    {
        Gpu2DFrame {
            layers: [vec![0u32; FRAME_PIXELS], vec![0u32; FRAME_PIXELS]],
            window: vec![FRAME_WINDOW_DEFAULT; FRAME_PIXELS],
        }
    }

    /// Sets the window value of pixel (`x`, `y`).
    pub fn set_window(&mut self, x: usize, y: usize, bits: u8, win_in: bool)
        requires
            old(self).wf(),
            x < DISPLAY_WIDTH,
            y < DISPLAY_HEIGHT,
        ensures
            final(self).wf(),
            final(self).layers == old(self).layers,
            final(self).window@ == old(self).window@.update(pixel(x as int, y as int), window_word(bits, win_in)),
    {
        let value = (bits & !0x40u8) | (if win_in {
            0x40u8
        } else {
            0u8
        });
        self.window[y * DISPLAY_WIDTH + x] = value;
    }

    /// Whether the window of pixel (`x`, `y`) shows layer or effect `bit`.
    pub fn can_display_pixel(&self, x: usize, y: usize, bit: u8) -> (r: bool)
        requires
            self.wf(),
            x < DISPLAY_WIDTH,
            y < DISPLAY_HEIGHT,
            bit < 8,
        ensures
            r == (self.window@[pixel(x as int, y as int)] & (1u8 << bit) != 0),
    {
        self.window[y * DISPLAY_WIDTH + x] & (1u8 << bit) != 0
    }

    /// Draws an object pixel of `color` at priority `prio` (0 is the front)
    /// on the top layer, unless a pixel of the same or a higher priority is
    /// already there.
    pub fn set_obj_pixel(&mut self, x: usize, y: usize, color: u16, prio: u8)
        requires
            old(self).wf(),
            x < DISPLAY_WIDTH,
            y < DISPLAY_HEIGHT,
            prio <= 3,
        ensures
            final(self).wf(),
            final(self).window == old(self).window,
            final(self).layers[1] == old(self).layers[1],
            ({
                let i = pixel(x as int, y as int);
                let l = old(self).layers[0]@[i];
                let ip = (3 - prio) as u32;
                final(self).layers[0]@ == if inv_layer(l) == 0 || ip > inv_prio(l) {
                    old(self).layers[0]@.update(i, layer_word(color, ip, 1))
                } else {
                    old(self).layers[0]@
                }
            }),
    {
        let i = y * DISPLAY_WIDTH + x;
        let color = rgba5_to_rgba8_non_norm(color);
        let layer = self.layers[0][i];
        let ip = (3 - prio) as u32;
        if (layer >> 27u32) & 7 == 0 || ip > (layer >> 25u32) & 3 {
            self.layers[0].set(i, color | (ip << 25u32) | (1u32 << 27u32));
        }
    }

    /// Draws a pixel of background `bg` of `color` at priority `prio`: in
    /// front of the top layer it becomes the top and the old top moves to
    /// the bottom; else in front of the bottom layer it replaces the bottom.
    pub fn set_bg_pixel(&mut self, x: usize, y: usize, color: u16, bg: u8, prio: u8)
        requires
            old(self).wf(),
            x < DISPLAY_WIDTH,
            y < DISPLAY_HEIGHT,
            bg < 4,
            prio <= 3,
        ensures
            final(self).wf(),
            final(self).window == old(self).window,
            ({
                let i = pixel(x as int, y as int);
                let top = old(self).layers[0]@[i];
                let bottom = old(self).layers[1]@[i];
                let ip = (3 - prio) as u32;
                let w = layer_word(color, ip, (5 - bg) as u32);
                if goes_above(ip, top) {
                    &&& final(self).layers[0]@ == old(self).layers[0]@.update(i, w)
                    &&& final(self).layers[1]@ == old(self).layers[1]@.update(i, top)
                } else if goes_above(ip, bottom) {
                    &&& final(self).layers[0]@ == old(self).layers[0]@
                    &&& final(self).layers[1]@ == old(self).layers[1]@.update(i, w)
                } else {
                    &&& final(self).layers[0]@ == old(self).layers[0]@
                    &&& final(self).layers[1]@ == old(self).layers[1]@
                }
            }),
    {
        let i = y * DISPLAY_WIDTH + x;
        let color = rgba5_to_rgba8_non_norm(color);
        let top = self.layers[0][i];
        let bottom = self.layers[1][i];
        let ip = (3 - prio) as u32;
        let il = (5 - bg) as u32;
        let top_adj: i8 = (ip as i8) - if (top >> 27u32) & 7 == 1 {
            1i8
        } else {
            0i8
        };
        let bottom_adj: i8 = (ip as i8) - if (bottom >> 27u32) & 7 == 1 {
            1i8
        } else {
            0i8
        };
        let top_prio = (top >> 25u32) & 3;
        let bottom_prio = (bottom >> 25u32) & 3;
        proof {
            lemma_word_bytes(top);
            lemma_word_bytes(bottom);
        }
        if top_adj >= top_prio as i8 {
            self.layers[1].set(i, top);
            self.layers[0].set(i, color | (ip << 25u32) | (il << 27u32));
        } else if bottom_adj >= bottom_prio as i8 {
            self.layers[1].set(i, color | (ip << 25u32) | (il << 27u32));
        }
    }

    /// Marks pixel (`x`, `y`) as one the 3D layer may show at priority
    /// `prio`, when that priority goes in front of the bottom layer.
    pub fn set_3d_pixel(&mut self, x: usize, y: usize, prio: u8)
        requires
            old(self).wf(),
            x < DISPLAY_WIDTH,
            y < DISPLAY_HEIGHT,
            prio <= 3,
        ensures
            final(self).wf(),
            final(self).window == old(self).window,
            ({
                let i = pixel(x as int, y as int);
                let ip = (3 - prio) as u32;
                if goes_above(ip, old(self).layers[1]@[i]) {
                    &&& final(self).layers[0]@ == old(self).layers[0]@.update(
                        i,
                        with_prio_3d(old(self).layers[0]@[i], ip),
                    )
                    &&& final(self).layers[1]@ == old(self).layers[1]@.update(
                        i,
                        with_prio_3d(old(self).layers[1]@[i], 1),
                    )
                } else {
                    &&& final(self).layers[0]@ == old(self).layers[0]@
                    &&& final(self).layers[1]@ == old(self).layers[1]@
                }
            }),
    {
        let i = y * DISPLAY_WIDTH + x;
        let bottom = self.layers[1][i];
        let ip = (3 - prio) as u32;
        let adj: i8 = (ip as i8) - if (bottom >> 27u32) & 7 == 1 {
            1i8
        } else {
            0i8
        };
        let bottom_prio = (bottom >> 25u32) & 3;
        proof {
            lemma_word_bytes(bottom);
        }
        if adj >= bottom_prio as i8 {
            let top = self.layers[0][i];
            self.layers[0].set(i, (top & !0xC000_0000u32) | (ip << 30u32));
            self.layers[1].set(i, (bottom & !0xC000_0000u32) | (1u32 << 30u32));
        }
    }

    /// Shows every layer again on lines `from_line` to `to_line` (not
    /// included).
    pub fn reset_window(&mut self, from_line: usize, to_line: usize)
        requires
            old(self).wf(),
            from_line <= to_line <= DISPLAY_HEIGHT,
        ensures
            final(self).wf(),
            final(self).layers == old(self).layers,
            forall|i: int|
                0 <= i < FRAME_PIXELS ==> #[trigger] final(self).window@[i] == if from_line * DISPLAY_WIDTH
                    <= i < to_line * DISPLAY_WIDTH {
                    FRAME_WINDOW_DEFAULT
                } else {
                    old(self).window@[i]
                },
    {
        let start = from_line * DISPLAY_WIDTH;
        let end = to_line * DISPLAY_WIDTH;
        let mut k = start;
        while k < end
            invariant
                start <= k <= end,
                end <= FRAME_PIXELS,
                self.wf(),
                self.layers == old(self).layers,
                forall|i: int|
                    0 <= i < FRAME_PIXELS ==> #[trigger] self.window@[i] == if start <= i < k {
                        FRAME_WINDOW_DEFAULT
                    } else {
                        old(self).window@[i]
                    },
            decreases end - k,
        {
            self.window[k] = FRAME_WINDOW_DEFAULT;
            k = k + 1;
        }
    }

    /// Fills both layers of every pixel with `color`, drawn by no layer.
    pub fn fill_pixels(&mut self, color: u16)
        requires
            old(self).wf(),
        ensures
            final(self).wf(),
            final(self).window == old(self).window,
            forall|i: int| 0 <= i < FRAME_PIXELS ==> #[trigger] final(self).layers[0]@[i] == rgba8_of(color),
            forall|i: int| 0 <= i < FRAME_PIXELS ==> #[trigger] final(self).layers[1]@[i] == rgba8_of(color),
    {
        let layer = rgba5_to_rgba8_non_norm(color);
        let mut k: usize = 0;
        while k < FRAME_PIXELS
            invariant
                k <= FRAME_PIXELS,
                self.wf(),
                self.window == old(self).window,
                layer == rgba8_of(color),
                forall|i: int| 0 <= i < k ==> #[trigger] self.layers[0]@[i] == layer,
                forall|i: int| 0 <= i < k ==> #[trigger] self.layers[1]@[i] == layer,
            decreases FRAME_PIXELS - k,
        {
            self.layers[0].set(k, layer);
            self.layers[1].set(k, layer);
            k = k + 1;
        }
    }
}

/// `a - b` on bytes, wrapping.
pub open spec fn sub8(a: int, b: int) -> int {
    if a >= b {
        a - b
    } else {
        a - b + 256
    }
}

/// Whether line `line` lies within the vertical bounds of a window (top in
/// bits 24 to 31 of `hv`, bottom, not included, in bits 16 to 23; the
/// bounds wrap).
pub open spec fn win_line_in(line: int, hv: u32) -> bool {
    sub8(line, (hv >> 24u32) as int) < sub8(((hv >> 16u32) & 0xFF) as int, (hv >> 24u32) as int)
}

/// Whether column `x` lies within the horizontal bounds of a window (left
/// in bits 8 to 15 of `hv`, right, not included, in bits 0 to 7).
pub open spec fn win_x_in(x: int, hv: u32) -> bool {
    sub8(x, ((hv >> 8u32) & 0xFF) as int) < sub8((hv & 0xFF) as int, ((hv >> 8u32) & 0xFF) as int)
}

/// The window value of pixel (`x`, `line`) when a window is enabled in
/// `disp`: inside window 0, then window 1, the enables of that window (the
/// low and high byte of the line's inside enables), else the outside
/// enables.
pub open spec fn window_at(regs: Gpu2DRenderRegs, disp: u32, line: int, x: int) -> u8 {
    let hv0 = regs.win_bg_ubo.win_h_v@[2 * line];
    let hv1 = regs.win_bg_ubo.win_h_v@[2 * line + 1];
    let io = regs.win_bg_ubo.win_in_out@[line];
    if disp & 0x2000 != 0 && win_line_in(line, hv0) && win_x_in(x, hv0) {
        window_word((io & 0xFF) as u8, true)
    } else if disp & 0x4000 != 0 && win_line_in(line, hv1) && win_x_in(x, hv1) {
        window_word(((io >> 8u32) & 0xFF) as u8, true)
    } else {
        window_word(((io >> 16u32) & 0xFF) as u8, false)
    }
}

/// Draws the windows of lines `from_line` to `to_line` (not included), all
/// under the display control of the first: with window 0, window 1 or the
/// object window enabled each pixel gets the enables of the window it lies
/// in, otherwise every layer is shown.
pub fn draw_windows(frame: &mut Gpu2DFrame, regs: &Gpu2DRenderRegs, from_line: usize, to_line: usize)
    requires
        old(frame).wf(),
        from_line < to_line <= DISPLAY_HEIGHT,
    ensures
        final(frame).wf(),
        final(frame).layers == old(frame).layers,
        forall|i: int|
            0 <= i < FRAME_PIXELS ==> #[trigger] final(frame).window@[i] == if from_line * DISPLAY_WIDTH <= i
                < to_line * DISPLAY_WIDTH {
                if regs.disp_cnts@[from_line as int] & 0xE000 != 0 {
                    window_at(*regs, regs.disp_cnts@[from_line as int], i / 256, i % 256)
                } else {
                    FRAME_WINDOW_DEFAULT
                }
            } else {
                old(frame).window@[i]
            },
{
    let disp = regs.disp_cnt(from_line);
    if disp & 0x2000 != 0 || disp & 0x4000 != 0 || disp & 0x8000 != 0 {
        proof {
            lemma_word_bytes(disp);
        }
        let mut line = from_line;
        while line < to_line
            invariant
                from_line <= line <= to_line,
                to_line <= DISPLAY_HEIGHT,
                frame.wf(),
                frame.layers == old(frame).layers,
                disp == regs.disp_cnts@[from_line as int],
                forall|i: int|
                    0 <= i < FRAME_PIXELS ==> #[trigger] frame.window@[i] == if from_line * DISPLAY_WIDTH <= i
                        < line * DISPLAY_WIDTH {
                        window_at(*regs, disp, i / 256, i % 256)
                    } else {
                        old(frame).window@[i]
                    },
            decreases to_line - line,
        {
            let hv0 = regs.win_bg_ubo.win_h_v[line * 2];
            let hv1 = regs.win_bg_ubo.win_h_v[line * 2 + 1];
            let line8 = line as u8;
            let check_win_0 = disp & 0x2000 != 0 && line8.wrapping_sub((hv0 >> 24u32) as u8) < (((hv0
                >> 16u32) & 0xFF) as u8).wrapping_sub((hv0 >> 24u32) as u8);
            let check_win_1 = disp & 0x4000 != 0 && line8.wrapping_sub((hv1 >> 24u32) as u8) < (((hv1
                >> 16u32) & 0xFF) as u8).wrapping_sub((hv1 >> 24u32) as u8);
            let left_0 = ((hv0 >> 8u32) & 0xFF) as u8;
            let width_0 = ((hv0 & 0xFF) as u8).wrapping_sub(left_0);
            let left_1 = ((hv1 >> 8u32) & 0xFF) as u8;
            let width_1 = ((hv1 & 0xFF) as u8).wrapping_sub(left_1);
            let io = regs.win_bg_ubo.win_in_out[line];
            let win_in = io & 0xFFFF;
            let win_out = io >> 16u32;
            let in_0 = (win_in & 0xFF) as u8;
            let in_1 = ((win_in >> 8u32) & 0xFF) as u8;
            let out = (win_out & 0xFF) as u8;
            proof {
                lemma_word_bytes(io);
                lemma_word_bytes(hv0);
                lemma_word_bytes(hv1);
            }
            let mut x: usize = 0;
            while x < DISPLAY_WIDTH
                invariant
                    x <= DISPLAY_WIDTH,
                    from_line <= line < to_line,
                    to_line <= DISPLAY_HEIGHT,
                    frame.wf(),
                    frame.layers == old(frame).layers,
                    disp == regs.disp_cnts@[from_line as int],
                    hv0 == regs.win_bg_ubo.win_h_v@[2 * line],
                    hv1 == regs.win_bg_ubo.win_h_v@[2 * line + 1],
                    io == regs.win_bg_ubo.win_in_out@[line as int],
                    check_win_0 == (disp & 0x2000 != 0 && win_line_in(line as int, hv0)),
                    check_win_1 == (disp & 0x4000 != 0 && win_line_in(line as int, hv1)),
                    left_0 == ((hv0 >> 8u32) & 0xFF),
                    width_0 == sub8((hv0 & 0xFF) as int, left_0 as int),
                    left_1 == ((hv1 >> 8u32) & 0xFF),
                    width_1 == sub8((hv1 & 0xFF) as int, left_1 as int),
                    in_0 == (io & 0xFF) as u8,
                    in_1 == ((io >> 8u32) & 0xFF) as u8,
                    out == ((io >> 16u32) & 0xFF) as u8,
                    forall|i: int|
                        0 <= i < FRAME_PIXELS ==> #[trigger] frame.window@[i] == if from_line * DISPLAY_WIDTH
                            <= i < line * DISPLAY_WIDTH + x {
                            window_at(*regs, disp, i / 256, i % 256)
                        } else {
                            old(frame).window@[i]
                        },
                decreases DISPLAY_WIDTH - x,
            {
                let x8 = x as u8;
                if check_win_0 && x8.wrapping_sub(left_0) < width_0 {
                    frame.set_window(x, line, in_0, true);
                } else if check_win_1 && x8.wrapping_sub(left_1) < width_1 {
                    frame.set_window(x, line, in_1, true);
                } else {
                    frame.set_window(x, line, out, false);
                }
                proof {
                    let k = pixel(x as int, line as int);
                    assert(k / 256 == line && k % 256 == x);
                }
                x = x + 1;
            }
            line = line + 1;
        }
    } else {
        proof {
            lemma_word_bytes(disp);
        }
        frame.reset_window(from_line, to_line);
    }
}

/// What the first line of a run says of a text background: the screen and
/// character bases, the screen size (bit 0: 512 wide, bit 1: 512 high), the
/// scroll offsets, 256-color tiles, extended palettes and the extended
/// palette slot, and the priority.
pub ghost struct TextBg {
    pub screen_base: int,
    pub char_base: int,
    pub size: int,
    pub h_ofs: int,
    pub v_ofs: int,
    pub color256: bool,
    pub ext: bool,
    pub slot: int,
    pub prio: int,
}

/// The text background parameters of background `bg` on line `line`.
pub open spec fn text_bg(regs: Gpu2DRenderRegs, line: int, bg: int) -> TextBg {
    let disp = regs.disp_cnts@[line];
    let bgc = regs.bg_cnts@[4 * line + bg];
    let ofs = regs.bg_ubo.ofs@[4 * line + bg];
    TextBg {
        screen_base: ((disp >> 27u32) & 7) * 0x10000 + ((bgc >> 8u16) & 0x1F) * 0x800,
        char_base: ((disp >> 24u32) & 7) * 0x10000 + ((bgc >> 2u16) & 0xF) * 0x4000,
        size: (bgc >> 14u16) as int,
        h_ofs: (ofs as u16) as int,
        v_ofs: ((ofs >> 16u32) as u16) as int,
        color256: bgc & 0x80 != 0,
        ext: disp & 0x4000_0000 != 0,
        slot: if bg < 2 && bgc & 0x2000 != 0 {
            bg + 2
        } else {
            bg
        },
        prio: (bgc & 3) as int,
    }
}

/// Width and height of a text background in pixels.
pub open spec fn text_width(t: TextBg) -> int {
    if t.size % 2 == 1 {
        512
    } else {
        256
    }
}

pub open spec fn text_height(t: TextBg) -> int {
    if t.size >= 2 {
        512
    } else {
        256
    }
}

/// The address of the screen entry that covers screen pixel (`x`, `y`): a
/// 512-pixel-wide or -high background is laid out as 32x32-entry blocks,
/// the right ones after the left ones.
pub open spec fn text_entry_addr(t: TextBg, x: int, y: int) -> int {
    let bx = (t.h_ofs + x) % text_width(t);
    let by = (t.v_ofs + y) % text_height(t);
    let tx = bx / 8;
    let ty = by / 8;
    let h_overflow = if t.size % 2 == 1 {
        0x800int
    } else {
        0
    };
    let v_overflow = if t.size >= 2 {
        0x800int
    } else {
        0
    };
    t.screen_base + (ty % 32) * 64 + (if ty >= 32 {
        h_overflow + v_overflow
    } else {
        0
    }) + (tx % 32) * 2 + (if tx >= 32 {
        h_overflow
    } else {
        0
    })
}

/// Bytes of one tile.
pub open spec fn tile_bytes(t: TextBg) -> int {
    if t.color256 {
        64
    } else {
        32
    }
}

/// The address of the tile of a screen entry.
pub open spec fn text_tile_addr(t: TextBg, entry: u16) -> int {
    t.char_base + (entry & 0x3FF) * tile_bytes(t)
}

/// The column and row within its tile that screen pixel (`x`, `y`) shows,
/// after the entry's horizontal (bit 10) and vertical (bit 11) flips.
pub open spec fn text_tile_x(t: TextBg, entry: u16, x: int) -> int {
    let cx = (t.h_ofs + x) % 8;
    if entry & 0x400 != 0 {
        7 - cx
    } else {
        cx
    }
}

pub open spec fn text_tile_y(t: TextBg, entry: u16, y: int) -> int {
    let cy = (t.v_ofs + y) % 8;
    if entry & 0x800 != 0 {
        7 - cy
    } else {
        cy
    }
}

/// The palette index of screen pixel (`x`, `y`): a byte of a 256-color
/// tile, or a nibble (low first) of a 16-color tile.
pub open spec fn text_index(mem: Seq<u8>, t: TextBg, x: int, y: int) -> u8 {
    let entry = le_u16(mem, text_entry_addr(t, x, y));
    let px = text_tile_x(t, entry, x);
    let py = text_tile_y(t, entry, y);
    if t.color256 {
        mem[text_tile_addr(t, entry) + py * 8 + px]
    } else {
        let b = mem[text_tile_addr(t, entry) + py * 4 + px / 2];
        if px % 2 == 0 {
            b & 0xF
        } else {
            b >> 4u8
        }
    }
}

/// Where the color of palette index `idx` of screen pixel (`x`, `y`) lies
/// in its palette memory: the extended palette slot (`slot` * 8 KiB) and
/// the entry's bank of it for 256 colors with extended palettes, bank 0 of
/// the standard palettes for 256 colors without, the entry's 16-color bank
/// otherwise.
pub open spec fn text_color_addr(t: TextBg, entry: u16, idx: u8) -> int {
    if t.color256 && t.ext {
        t.slot * 0x2000 + (entry >> 12u16) * 512 + idx * 2
    } else if t.color256 {
        idx * 2
    } else {
        (entry >> 12u16) * 32 + idx * 2
    }
}

/// The palette memory the colors of `t` come from.
pub open spec fn text_palette(mem: Gpu2DMem, t: TextBg) -> Seq<u8> {
    if t.color256 && t.ext {
        mem.bg_ext_pal@
    } else {
        mem.pal@
    }
}

/// The color (alpha bit set) of screen pixel (`x`, `y`).
pub open spec fn text_color(mem: Gpu2DMem, t: TextBg, x: int, y: int) -> u16 {
    let entry = le_u16(mem.bg@, text_entry_addr(t, x, y));
    le_u16(text_palette(mem, t), text_color_addr(t, entry, text_index(mem.bg@, t, x, y))) | 0x8000
}

/// Whether every memory access that drawing lines `from` to `to` of text
/// background `t` makes lies within the memories: each pixel's screen
/// entry and its whole tile; the extended palette slot when it is used;
/// the color of each pixel that is shown.
pub open spec fn text_reads_ok(mem: Gpu2DMem, t: TextBg, window: Seq<u8>, bg: int, from: int, to: int) -> bool {
    &&& (t.color256 && t.ext ==> t.slot * 0x2000 + 0x2000 <= mem.bg_ext_pal@.len())
    &&& forall|x: int, y: int|
        0 <= x < 256 && from <= y < to ==> {
            let e = text_entry_addr(t, x, y);
            let entry = le_u16(mem.bg@, e);
            &&& #[trigger] text_entry_addr(t, x, y) + 2 <= mem.bg@.len()
            &&& text_tile_addr(t, entry) + tile_bytes(t) <= mem.bg@.len()
            &&& (window[pixel(x, y)] & (1u8 << bg as u8) != 0 && text_index(mem.bg@, t, x, y) != 0
                ==> text_color_addr(t, entry, text_index(mem.bg@, t, x, y)) + 2 <= text_palette(mem, t).len())
        }
}

/// The top layer word of a pixel after a background pixel of `color` at
/// inverted priority `ip` and inverted layer `il` is drawn over `top` and
/// `bottom`.
pub open spec fn bg_top(top: u32, color: u16, ip: u32, il: u32) -> u32 {
    if goes_above(ip, top) {
        layer_word(color, ip, il)
    } else {
        top
    }
}

/// The bottom layer word of that pixel.
pub open spec fn bg_bottom(top: u32, bottom: u32, color: u16, ip: u32, il: u32) -> u32 {
    if goes_above(ip, top) {
        top
    } else if goes_above(ip, bottom) {
        layer_word(color, ip, il)
    } else {
        bottom
    }
}

/// Whether text background `bg` draws pixel `i` of a frame on lines
/// `from` to `to`: the pixel lies on them, its window shows the background
/// and its palette index is not 0.
pub open spec fn text_draws(mem: Gpu2DMem, t: TextBg, window: Seq<u8>, bg: int, from: int, to: int, i: int) -> bool {
    &&& from * 256 <= i < to * 256
    &&& window[i] & (1u8 << bg as u8) != 0
    &&& text_index(mem.bg@, t, i % 256, i / 256) != 0
}

/// Whether layers `l0` and `l1` are `o0` and `o1` with the pixels before
/// `upto` that text background `bg` draws drawn.
pub open spec fn text_layers_ok(
    l0: Seq<u32>,
    l1: Seq<u32>,
    o0: Seq<u32>,
    o1: Seq<u32>,
    window: Seq<u8>,
    mem: Gpu2DMem,
    t: TextBg,
    bg: int,
    from: int,
    to: int,
    upto: int,
) -> bool {
    forall|i: int|
        0 <= i < FRAME_PIXELS ==> {
            let c = text_color(mem, t, i % 256, i / 256);
            let drawn = i < upto && text_draws(mem, t, window, bg, from, to, i);
            &&& #[trigger] l0[i] == if drawn {
                bg_top(o0[i], c, (3 - t.prio) as u32, (5 - bg) as u32)
            } else {
                o0[i]
            }
            &&& l1[i] == if drawn {
                bg_bottom(o0[i], o1[i], c, (3 - t.prio) as u32, (5 - bg) as u32)
            } else {
                o1[i]
            }
        }
}

proof fn lemma_text_step(
    b0: Seq<u32>,
    b1: Seq<u32>,
    a0: Seq<u32>,
    a1: Seq<u32>,
    o0: Seq<u32>,
    o1: Seq<u32>,
    window: Seq<u8>,
    mem: Gpu2DMem,
    t: TextBg,
    bg: int,
    from: int,
    to: int,
    k: int,
)
    requires
        0 <= k < FRAME_PIXELS,
        text_layers_ok(b0, b1, o0, o1, window, mem, t, bg, from, to, k),
        forall|i: int| 0 <= i < FRAME_PIXELS && i != k ==> a0[i] == b0[i] && a1[i] == b1[i],
        ({
            let c = text_color(mem, t, k % 256, k / 256);
            let d = text_draws(mem, t, window, bg, from, to, k);
            &&& a0[k] == if d {
                bg_top(b0[k], c, (3 - t.prio) as u32, (5 - bg) as u32)
            } else {
                b0[k]
            }
            &&& a1[k] == if d {
                bg_bottom(b0[k], b1[k], c, (3 - t.prio) as u32, (5 - bg) as u32)
            } else {
                b1[k]
            }
        }),
    ensures
        text_layers_ok(a0, a1, o0, o1, window, mem, t, bg, from, to, k + 1),
{
    assert forall|i: int| 0 <= i < FRAME_PIXELS implies {
        let c = text_color(mem, t, i % 256, i / 256);
        let drawn = i < k + 1 && text_draws(mem, t, window, bg, from, to, i);
        &&& #[trigger] a0[i] == if drawn {
            bg_top(o0[i], c, (3 - t.prio) as u32, (5 - bg) as u32)
        } else {
            o0[i]
        }
        &&& a1[i] == if drawn {
            bg_bottom(o0[i], o1[i], c, (3 - t.prio) as u32, (5 - bg) as u32)
        } else {
            o1[i]
        }
    } by {
        assert(b0[i] == b0[i]);
    }
}

/// Draws text background `bg` on lines `from_line` to `to_line` (not
/// included), as the first of them sets it up: each pixel whose window
/// shows the background and whose palette index is not 0 is drawn at the
/// background's priority.
pub fn draw_bg_text(
    frame: &mut Gpu2DFrame,
    mem: &Gpu2DMem,
    regs: &Gpu2DRenderRegs,
    from_line: usize,
    to_line: usize,
    bg: usize,
)
    requires
        old(frame).wf(),
        from_line < to_line <= DISPLAY_HEIGHT,
        bg < 4,
        text_reads_ok(*mem, text_bg(*regs, from_line as int, bg as int), old(frame).window@, bg as int, from_line as int, to_line as int),
    ensures
        final(frame).wf(),
        final(frame).window == old(frame).window,
        ({
            let t = text_bg(*regs, from_line as int, bg as int);
            let ip = (3 - t.prio) as u32;
            let il = (5 - bg) as u32;
            forall|i: int|
                0 <= i < FRAME_PIXELS ==> {
                    let c = text_color(*mem, t, i % 256, i / 256);
                    &&& #[trigger] final(frame).layers[0]@[i] == if text_draws(*mem, t, old(frame).window@, bg as int, from_line as int, to_line as int, i) {
                        bg_top(old(frame).layers[0]@[i], c, ip, il)
                    } else {
                        old(frame).layers[0]@[i]
                    }
                    &&& final(frame).layers[1]@[i] == if text_draws(*mem, t, old(frame).window@, bg as int, from_line as int, to_line as int, i) {
                        bg_bottom(old(frame).layers[0]@[i], old(frame).layers[1]@[i], c, ip, il)
                    } else {
                        old(frame).layers[1]@[i]
                    }
                }
        }),
{
    let ghost t = text_bg(*regs, from_line as int, bg as int);
    let disp = regs.disp_cnt(from_line);
    let bgc = regs.bg_cnt(from_line, bg);
    let (h_ofs, v_ofs) = regs.ofs(from_line, bg);
    proof {
        lemma_word_bytes(disp);
        lemma_attr_fields(bgc);
    }
    let screen_base: u32 = ((disp >> 27u32) & 7) * 0x10000 + ((bgc >> 8u16) & 0x1F) as u32 * 0x800;
    let char_base: u32 = ((disp >> 24u32) & 7) * 0x10000 + ((bgc >> 2u16) & 0xF) as u32 * 0x4000;
    let size = bgc >> 14u16;
    let wide = size % 2 == 1;
    let tall = size >= 2;
    let color256 = bgc & 0x80 != 0;
    let ext = disp & 0x4000_0000 != 0;
    let slot: usize = if bg < 2 && bgc & 0x2000 != 0 {
        bg + 2
    } else {
        bg
    };
    let prio = (bgc & 3) as u8;
    assert(screen_base == t.screen_base && char_base == t.char_base && size == t.size);
    let mut y = from_line;
    while y < to_line
        invariant
            from_line <= y <= to_line,
            to_line <= DISPLAY_HEIGHT,
            bg < 4,
            frame.wf(),
            frame.window == old(frame).window,
            t == text_bg(*regs, from_line as int, bg as int),
            screen_base == t.screen_base,
            char_base == t.char_base,
            size == t.size,
            wide == (t.size % 2 == 1),
            tall == (t.size >= 2),
            h_ofs == t.h_ofs,
            v_ofs == t.v_ofs,
            color256 == t.color256,
            ext == t.ext,
            slot == t.slot,
            prio == t.prio,
            prio <= 3,
            screen_base <= 0x7F800,
            char_base <= 0xAC000,
            slot < 4,
            text_reads_ok(*mem, t, old(frame).window@, bg as int, from_line as int, to_line as int),
            text_layers_ok(frame.layers[0]@, frame.layers[1]@, old(frame).layers[0]@, old(frame).layers[1]@, old(frame).window@, *mem, t, bg as int, from_line as int, to_line as int, y * 256),
        decreases to_line - y,
    {
        let mut x: usize = 0;
        while x < DISPLAY_WIDTH
            invariant
                from_line <= y < to_line,
                x <= DISPLAY_WIDTH,
                to_line <= DISPLAY_HEIGHT,
                bg < 4,
                frame.wf(),
                frame.window == old(frame).window,
                t == text_bg(*regs, from_line as int, bg as int),
                screen_base == t.screen_base,
                char_base == t.char_base,
                size == t.size,
                wide == (t.size % 2 == 1),
                tall == (t.size >= 2),
                h_ofs == t.h_ofs,
                v_ofs == t.v_ofs,
                color256 == t.color256,
                ext == t.ext,
                slot == t.slot,
                prio == t.prio,
                prio <= 3,
                screen_base <= 0x7F800,
                char_base <= 0xAC000,
                slot < 4,
                text_reads_ok(*mem, t, old(frame).window@, bg as int, from_line as int, to_line as int),
                text_layers_ok(frame.layers[0]@, frame.layers[1]@, old(frame).layers[0]@, old(frame).layers[1]@, old(frame).window@, *mem, t, bg as int, from_line as int, to_line as int, y * 256 + x),
            decreases DISPLAY_WIDTH - x,
        {
            let ghost k = pixel(x as int, y as int);
            let ghost b0 = frame.layers[0]@;
            let ghost b1 = frame.layers[1]@;
            proof {
                assert(k % 256 == x && k / 256 == y);
            }
            if frame.can_display_pixel(x, y, bg as u8) {
                proof {
                    assert(text_entry_addr(t, x as int, y as int) + 2 <= mem.bg@.len());
                }
                let (idx, entry) = text_pixel_index(mem, screen_base, char_base, wide, tall, h_ofs, v_ofs, color256, x, y, Ghost(t));
                if idx != 0 {
                    proof {
                        assert(text_draws(*mem, t, old(frame).window@, bg as int, from_line as int, to_line as int, k));
                    }
                    let color = text_pixel_color(mem, color256, ext, slot, entry, idx, Ghost(t));
                    frame.set_bg_pixel(x, y, color, bg as u8, prio);
                }
            }
            proof {
                lemma_text_step(b0, b1, frame.layers[0]@, frame.layers[1]@, old(frame).layers[0]@, old(frame).layers[1]@, old(frame).window@, *mem, t, bg as int, from_line as int, to_line as int, k);
            }
            x = x + 1;
        }
        y = y + 1;
    }
}

/// The palette index of screen pixel (`x`, `y`) of a text background, and
/// the screen entry that covers it.
fn text_pixel_index(
    mem: &Gpu2DMem,
    screen_base: u32,
    char_base: u32,
    wide: bool,
    tall: bool,
    h_ofs: u16,
    v_ofs: u16,
    color256: bool,
    x: usize,
    y: usize,
    Ghost(t): Ghost<TextBg>,
) -> (r: (u8, u16))
    requires
        t.screen_base == screen_base,
        t.char_base == char_base,
        wide == (t.size % 2 == 1),
        tall == (t.size >= 2),
        t.h_ofs == h_ofs,
        t.v_ofs == v_ofs,
        t.color256 == color256,
        screen_base <= 0x7F800,
        char_base <= 0xAC000,
        x < 256,
        y < 192,
        text_entry_addr(t, x as int, y as int) + 2 <= mem.bg@.len(),
        text_tile_addr(t, le_u16(mem.bg@, text_entry_addr(t, x as int, y as int))) + tile_bytes(t)
            <= mem.bg@.len(),
    ensures
        r.1 == le_u16(mem.bg@, text_entry_addr(t, x as int, y as int)),
        r.0 == text_index(mem.bg@, t, x as int, y as int),
{
    let sx = h_ofs as u32 + x as u32;
    let sy = v_ofs as u32 + y as u32;
    let bx = if wide {
        sx % 512
    } else {
        sx % 256
    };
    let by = if tall {
        sy % 512
    } else {
        sy % 256
    };
    let tx = bx / 8;
    let ty = by / 8;
    let h_overflow: u32 = if wide {
        0x800
    } else {
        0
    };
    let v_overflow: u32 = if tall {
        0x800
    } else {
        0
    };
    let addr = screen_base + (ty % 32) * 64 + (if ty >= 32 {
        h_overflow + v_overflow
    } else {
        0
    }) + (tx % 32) * 2 + (if tx >= 32 {
        h_overflow
    } else {
        0
    });
    assert(addr == text_entry_addr(t, x as int, y as int));
    let entry = read_u16_le(mem.bg, addr as usize);
    let cx = sx % 8;
    let cy = sy % 8;
    let px = if entry & 0x400 != 0 {
        7 - cx
    } else {
        cx
    };
    let py = if entry & 0x800 != 0 {
        7 - cy
    } else {
        cy
    };
    let tile_index = (entry & 0x3FF) as u32;
    proof {
        lemma_attr_fields(entry);
    }
    if color256 {
        let tile = char_base + tile_index * 64;
        (mem.bg[(tile + py * 8 + px) as usize], entry)
    } else {
        let tile = char_base + tile_index * 32;
        let b = mem.bg[(tile + py * 4 + px / 2) as usize];
        (if px % 2 == 0 {
            b & 0xF
        } else {
            b >> 4u8
        }, entry)
    }
}

/// The color of palette index `idx` of screen entry `entry` of a text
/// background, with the alpha bit set.
fn text_pixel_color(
    mem: &Gpu2DMem,
    color256: bool,
    ext: bool,
    slot: usize,
    entry: u16,
    idx: u8,
    Ghost(t): Ghost<TextBg>,
) -> (r: u16)
    requires
        t.color256 == color256,
        t.ext == ext,
        t.slot == slot,
        slot < 4,
        text_color_addr(t, entry, idx) + 2 <= text_palette(*mem, t).len(),
    ensures
        r == le_u16(text_palette(*mem, t), text_color_addr(t, entry, idx)) | 0x8000,
{
    let bank = (entry >> 12u16) as usize;
    proof {
        lemma_attr_fields(entry);
    }
    if color256 && ext {
        let addr = slot * 0x2000 + bank * 512 + idx as usize * 2;
        read_u16_le(mem.bg_ext_pal, addr) | 0x8000
    } else if color256 {
        read_u16_le(mem.pal, idx as usize * 2) | 0x8000
    } else {
        read_u16_le(mem.pal, bank * 32 + idx as usize * 2) | 0x8000
    }
}



/// The top layer word of a pixel the 3D layer may show at inverted
/// priority `ip`, over `top` and `bottom`.
pub open spec fn top_3d(top: u32, bottom: u32, ip: u32) -> u32 {
    if goes_above(ip, bottom) {
        with_prio_3d(top, ip)
    } else {
        top
    }
}

/// The bottom layer word of that pixel.
pub open spec fn bottom_3d(bottom: u32, ip: u32) -> u32 {
    if goes_above(ip, bottom) {
        with_prio_3d(bottom, 1)
    } else {
        bottom
    }
}

/// Whether the 3D layer (background 0) marks pixel `i` on lines `from` to
/// `to`: the pixel lies on them and its window shows background 0.
pub open spec fn marks_3d(window: Seq<u8>, from: int, to: int, i: int) -> bool {
    from * 256 <= i < to * 256 && window[i] & (1u8 << 0u8) != 0
}

/// Whether layers `l0` and `l1` are `o0` and `o1` with the pixels before
/// `upto` that the 3D layer marks marked.
pub open spec fn layers_3d_ok(
    l0: Seq<u32>,
    l1: Seq<u32>,
    o0: Seq<u32>,
    o1: Seq<u32>,
    window: Seq<u8>,
    ip: u32,
    from: int,
    to: int,
    upto: int,
) -> bool {
    forall|i: int|
        0 <= i < FRAME_PIXELS ==> {
            let m = i < upto && marks_3d(window, from, to, i);
            &&& #[trigger] l0[i] == if m {
                top_3d(o0[i], o1[i], ip)
            } else {
                o0[i]
            }
            &&& l1[i] == if m {
                bottom_3d(o1[i], ip)
            } else {
                o1[i]
            }
        }
}

proof fn lemma_3d_step(
    b0: Seq<u32>,
    b1: Seq<u32>,
    a0: Seq<u32>,
    a1: Seq<u32>,
    o0: Seq<u32>,
    o1: Seq<u32>,
    window: Seq<u8>,
    ip: u32,
    from: int,
    to: int,
    k: int,
)
    requires
        0 <= k < FRAME_PIXELS,
        layers_3d_ok(b0, b1, o0, o1, window, ip, from, to, k),
        forall|i: int| 0 <= i < FRAME_PIXELS && i != k ==> a0[i] == b0[i] && a1[i] == b1[i],
        a0[k] == if marks_3d(window, from, to, k) {
            top_3d(b0[k], b1[k], ip)
        } else {
            b0[k]
        },
        a1[k] == if marks_3d(window, from, to, k) {
            bottom_3d(b1[k], ip)
        } else {
            b1[k]
        },
    ensures
        layers_3d_ok(a0, a1, o0, o1, window, ip, from, to, k + 1),
{
    assert forall|i: int| 0 <= i < FRAME_PIXELS implies {
        let m = i < k + 1 && marks_3d(window, from, to, i);
        &&& #[trigger] a0[i] == if m {
            top_3d(o0[i], o1[i], ip)
        } else {
            o0[i]
        }
        &&& a1[i] == if m {
            bottom_3d(o1[i], ip)
        } else {
            o1[i]
        }
    } by {
        assert(b0[i] == b0[i]);
    }
}

/// Marks the pixels of lines `from_line` to `to_line` (not included) whose
/// window shows background 0 as ones the 3D layer may show, at the priority
/// of background 0 on the first line.
pub fn draw_bg_3d(frame: &mut Gpu2DFrame, regs: &Gpu2DRenderRegs, from_line: usize, to_line: usize)
    requires
        old(frame).wf(),
        from_line < to_line <= DISPLAY_HEIGHT,
    ensures
        final(frame).wf(),
        final(frame).window == old(frame).window,
        ({
            let ip = (3 - (regs.bg_cnts@[4 * from_line as int] & 3)) as u32;
            forall|i: int|
                0 <= i < FRAME_PIXELS ==> {
                    &&& #[trigger] final(frame).layers[0]@[i] == if marks_3d(old(frame).window@, from_line as int, to_line as int, i) {
                        top_3d(old(frame).layers[0]@[i], old(frame).layers[1]@[i], ip)
                    } else {
                        old(frame).layers[0]@[i]
                    }
                    &&& final(frame).layers[1]@[i] == if marks_3d(old(frame).window@, from_line as int, to_line as int, i) {
                        bottom_3d(old(frame).layers[1]@[i], ip)
                    } else {
                        old(frame).layers[1]@[i]
                    }
                }
        }),
{
    let bgc = regs.bg_cnt(from_line, 0);
    let prio = (bgc & 3) as u8;
    proof {
        lemma_attr_fields(bgc);
    }
    let ghost ip = (3 - prio) as u32;
    let mut y = from_line;
    while y < to_line
        invariant
            from_line <= y <= to_line,
            to_line <= DISPLAY_HEIGHT,
            frame.wf(),
            frame.window == old(frame).window,
            prio == regs.bg_cnts@[4 * from_line as int] & 3,
            prio <= 3,
            ip == (3 - prio) as u32,
            layers_3d_ok(frame.layers[0]@, frame.layers[1]@, old(frame).layers[0]@, old(frame).layers[1]@, old(frame).window@, ip, from_line as int, to_line as int, y * 256),
        decreases to_line - y,
    {
        let mut x: usize = 0;
        while x < DISPLAY_WIDTH
            invariant
                from_line <= y < to_line,
                x <= DISPLAY_WIDTH,
                to_line <= DISPLAY_HEIGHT,
                frame.wf(),
                frame.window == old(frame).window,
                prio == regs.bg_cnts@[4 * from_line as int] & 3,
                prio <= 3,
                ip == (3 - prio) as u32,
                layers_3d_ok(frame.layers[0]@, frame.layers[1]@, old(frame).layers[0]@, old(frame).layers[1]@, old(frame).window@, ip, from_line as int, to_line as int, y * 256 + x),
            decreases DISPLAY_WIDTH - x,
        {
            let ghost k = pixel(x as int, y as int);
            let ghost b0 = frame.layers[0]@;
            let ghost b1 = frame.layers[1]@;
            if frame.can_display_pixel(x, y, 0) {
                frame.set_3d_pixel(x, y, prio);
            }
            proof {
                lemma_3d_step(b0, b1, frame.layers[0]@, frame.layers[1]@, old(frame).layers[0]@, old(frame).layers[1]@, old(frame).window@, ip, from_line as int, to_line as int, k);
            }
            x = x + 1;
        }
        y = y + 1;
    }
}

/// Whether some pixel (`x`, `y`) visited before (`ux`, `uy`), row by row,
/// has a window that hides the blend effects (bit 5) and lands on index `i`
/// with a row stride of 192.
pub open spec fn hidden_effect_at(window: Seq<u8>, i: int, uy: int, ux: int) -> bool {
    exists|x: int, y: int|
        #![trigger pixel(x, y), y * 192 + x]
        0 <= x < 256 && 0 <= y < 192 && (y < uy || (y == uy && x < ux)) && i == y * 192 + x
            && window[pixel(x, y)] & (1u8 << 5u8) == 0
}

/// Marks the bottom layer (bit 31) of the pixels whose window hides the
/// blend effects, as the blend pass reads them; the pixels are addressed
/// with a row stride of 192.
pub fn mark_hidden_effects(frame: &mut Gpu2DFrame)
    requires
        old(frame).wf(),
    ensures
        final(frame).wf(),
        final(frame).window == old(frame).window,
        final(frame).layers[0] == old(frame).layers[0],
        forall|i: int|
            0 <= i < FRAME_PIXELS ==> #[trigger] final(frame).layers[1]@[i] == if hidden_effect_at(old(frame).window@, i, 192, 0) {
                old(frame).layers[1]@[i] | 0x8000_0000
            } else {
                old(frame).layers[1]@[i]
            },
{
    let mut y: usize = 0;
    while y < DISPLAY_HEIGHT
        invariant
            y <= DISPLAY_HEIGHT,
            frame.wf(),
            frame.window == old(frame).window,
            frame.layers[0] == old(frame).layers[0],
            forall|i: int|
                0 <= i < FRAME_PIXELS ==> #[trigger] frame.layers[1]@[i] == if hidden_effect_at(old(frame).window@, i, y as int, 0) {
                    old(frame).layers[1]@[i] | 0x8000_0000
                } else {
                    old(frame).layers[1]@[i]
                },
        decreases DISPLAY_HEIGHT - y,
    {
        let mut x: usize = 0;
        while x < DISPLAY_WIDTH
            invariant
                y < DISPLAY_HEIGHT,
                x <= DISPLAY_WIDTH,
                frame.wf(),
                frame.window == old(frame).window,
                frame.layers[0] == old(frame).layers[0],
                forall|i: int|
                    0 <= i < FRAME_PIXELS ==> #[trigger] frame.layers[1]@[i] == if hidden_effect_at(old(frame).window@, i, y as int, x as int) {
                        old(frame).layers[1]@[i] | 0x8000_0000
                    } else {
                        old(frame).layers[1]@[i]
                    },
            decreases DISPLAY_WIDTH - x,
        {
            let ghost before = frame.layers[1]@;
            let j = y * DISPLAY_HEIGHT + x;
            if !frame.can_display_pixel(x, y, 5) {
                let v = frame.layers[1][j];
                proof {
                    lemma_word_bytes(v);
                    lemma_word_bytes(old(frame).layers[1]@[j as int]);
                }
                frame.layers[1].set(j, v | 0x8000_0000);
            }
            proof {
                assert forall|i: int| 0 <= i < FRAME_PIXELS implies #[trigger] frame.layers[1]@[i] == if hidden_effect_at(old(frame).window@, i, y as int, x + 1) {
                    old(frame).layers[1]@[i] | 0x8000_0000
                } else {
                    old(frame).layers[1]@[i]
                } by {
                    if hidden_effect_at(old(frame).window@, i, y as int, x + 1) {
                        let (wx, wy) = choose|wx: int, wy: int|
                            #![trigger pixel(wx, wy), wy * 192 + wx]
                            0 <= wx < 256 && 0 <= wy < 192 && (wy < y || (wy == y && wx < x + 1)) && i == wy * 192 + wx
                                && old(frame).window@[pixel(wx, wy)] & (1u8 << 5u8) == 0;
                        if wy < y || wx < x {
                            assert(hidden_effect_at(old(frame).window@, i, y as int, x as int));
                        }
                    } else {
                        if i == j {
                            assert(!(old(frame).window@[pixel(x as int, y as int)] & (1u8 << 5u8) == 0));
                        }
                        assert(!hidden_effect_at(old(frame).window@, i, y as int, x as int));
                    }
                }
            }
            x = x + 1;
        }
        proof {
            assert forall|i: int| 0 <= i < FRAME_PIXELS implies hidden_effect_at(old(frame).window@, i, y as int, 256)
                == hidden_effect_at(old(frame).window@, i, y + 1, 0) by {
                if hidden_effect_at(old(frame).window@, i, y + 1, 0) {
                    let (wx, wy) = choose|wx: int, wy: int|
                        #![trigger pixel(wx, wy), wy * 192 + wx]
                        0 <= wx < 256 && 0 <= wy < 192 && (wy < y + 1 || (wy == y + 1 && wx < 0)) && i == wy * 192 + wx
                            && old(frame).window@[pixel(wx, wy)] & (1u8 << 5u8) == 0;
                    assert(hidden_effect_at(old(frame).window@, i, y as int, 256));
                }
                if hidden_effect_at(old(frame).window@, i, y as int, 256) {
                    let (wx, wy) = choose|wx: int, wy: int|
                        #![trigger pixel(wx, wy), wy * 192 + wx]
                        0 <= wx < 256 && 0 <= wy < 192 && (wy < y || (wy == y && wx < 256)) && i == wy * 192 + wx
                            && old(frame).window@[pixel(wx, wy)] & (1u8 << 5u8) == 0;
                    assert(hidden_effect_at(old(frame).window@, i, y + 1, 0));
                }
            }
        }
        y = y + 1;
    }
}

/// How a background is drawn.
#[derive(Clone, Copy, Debug, PartialEq, Eq, Structural)]
pub enum BgMode {
    Text,
    Affine,
    Extended,
    Large,
    Display3d,
}

/// The layer words of pixel `i` after background `bg` in mode `mode`, set
/// up by line `line`, is drawn over `l0` (top) and `l1` (bottom), for a
/// pixel on the lines drawn.
pub open spec fn bg_step(
    mode: BgMode,
    mem: Gpu2DMem,
    regs: Gpu2DRenderRegs,
    window: Seq<u8>,
    bg: int,
    line: int,
    i: int,
    l0: u32,
    l1: u32,
) -> (u32, u32) {
    if mode == BgMode::Text {
        let t = text_bg(regs, line, bg);
        let ip = (3 - t.prio) as u32;
        let il = (5 - bg) as u32;
        let c = text_color(mem, t, i % 256, i / 256);
        if window[i] & (1u8 << bg as u8) != 0 && text_index(mem.bg@, t, i % 256, i / 256) != 0 {
            (bg_top(l0, c, ip, il), bg_bottom(l0, l1, c, ip, il))
        } else {
            (l0, l1)
        }
    } else if mode == BgMode::Display3d {
        let ip = (3 - (regs.bg_cnts@[4 * line] & 3)) as u32;
        if window[i] & (1u8 << 0u8) != 0 {
            (top_3d(l0, l1, ip), bottom_3d(l1, ip))
        } else {
            (l0, l1)
        }
    } else {
        (l0, l1)
    }
}

/// Draws background `bg` in mode `mode` on lines `from_line` to `to_line`
/// (not included); only text backgrounds and the 3D layer are drawn.
pub fn draw_bg(
    mode: BgMode,
    frame: &mut Gpu2DFrame,
    mem: &Gpu2DMem,
    regs: &Gpu2DRenderRegs,
    from_line: usize,
    to_line: usize,
    bg: usize,
)
    requires
        old(frame).wf(),
        from_line < to_line <= DISPLAY_HEIGHT,
        bg < 4,
        mode == BgMode::Text || mode == BgMode::Display3d,
        mode == BgMode::Text ==> text_reads_ok(*mem, text_bg(*regs, from_line as int, bg as int), old(frame).window@, bg as int, from_line as int, to_line as int),
    ensures
        final(frame).wf(),
        final(frame).window == old(frame).window,
        forall|i: int|
            0 <= i < FRAME_PIXELS ==> (#[trigger] final(frame).layers[0]@[i], final(frame).layers[1]@[i]) == if from_line * 256 <= i < to_line * 256 {
                bg_step(mode, *mem, *regs, old(frame).window@, bg as int, from_line as int, i, old(frame).layers[0]@[i], old(frame).layers[1]@[i])
            } else {
                (old(frame).layers[0]@[i], old(frame).layers[1]@[i])
            },
{
    match mode {
        BgMode::Text => draw_bg_text(frame, mem, regs, from_line, to_line, bg),
        _ => draw_bg_3d(frame, regs, from_line, to_line),
    }
}

/// How each background is drawn under display control `disp`: 0 not at
/// all, 1 as text, 2 as the 3D layer, 3 in a mode this renderer does not
/// draw (affine, extended or large).
pub open spec fn bg_kind(disp: u32, bg: int) -> int {
    let mode = disp & 7;
    if disp & (0x100u32 << bg as u32) == 0 || mode == 7 {
        0
    } else if mode == 6 {
        if bg == 2 {
            3
        } else {
            0
        }
    } else if bg == 0 {
        if disp & 8 != 0 {
            2
        } else {
            1
        }
    } else if bg == 1 {
        1
    } else if bg == 2 {
        if mode == 2 || mode == 4 || mode == 5 {
            3
        } else {
            1
        }
    } else if mode == 0 {
        1
    } else {
        3
    }
}

/// Whether lines `a` and `b` have the same background controls and offsets.
pub open spec fn same_bg_regs(regs: Gpu2DRenderRegs, a: int, b: int) -> bool {
    &&& regs.bg_cnts@.subrange(4 * a, 4 * a + 4) == regs.bg_cnts@.subrange(4 * b, 4 * b + 4)
    &&& regs.bg_ubo.ofs@.subrange(4 * a, 4 * a + 4) == regs.bg_ubo.ofs@.subrange(4 * b, 4 * b + 4)
}

/// The first line from `line` on (before `to`) whose background registers
/// differ from those of line `start`, or `to`.
pub open spec fn run_end(regs: Gpu2DRenderRegs, start: int, line: int, to: int) -> int
    decreases to - line,
{
    if line >= to {
        to
    } else if same_bg_regs(regs, start, line) {
        run_end(regs, start, line + 1, to)
    } else {
        line
    }
}

pub proof fn lemma_run_end(regs: Gpu2DRenderRegs, start: int, line: int, to: int)
    requires
        line <= to,
    ensures
        line <= run_end(regs, start, line, to) <= to,
    decreases to - line,
{
    if line < to && same_bg_regs(regs, start, line) {
        lemma_run_end(regs, start, line + 1, to);
    }
}

/// The first line of the run of lines with equal background registers that
/// holds line `y`, the runs counted from line `from`.
pub open spec fn run_start(regs: Gpu2DRenderRegs, from: int, to: int, y: int) -> int
    decreases to - from,
{
    if from >= to {
        from
    } else {
        let e = run_end(regs, from, from + 1, to);
        if y < e {
            from
        } else {
            proof {
                lemma_run_end(regs, from, from + 1, to);
            }
            run_start(regs, e, to, y)
        }
    }
}

/// The layer words of pixel `i` after backgrounds 3, 2, 1 and 0 are drawn
/// over `l`, as line `line` sets them up, under display control `disp`.
pub open spec fn bgs_at(
    disp: u32,
    mem: Gpu2DMem,
    regs: Gpu2DRenderRegs,
    window: Seq<u8>,
    line: int,
    i: int,
    l: (u32, u32),
) -> (u32, u32) {
    let l3 = bg_kind_step(disp, mem, regs, window, 3, line, i, l);
    let l2 = bg_kind_step(disp, mem, regs, window, 2, line, i, l3);
    let l1 = bg_kind_step(disp, mem, regs, window, 1, line, i, l2);
    bg_kind_step(disp, mem, regs, window, 0, line, i, l1)
}

/// One background of `bgs_at`.
pub open spec fn bg_kind_step(
    disp: u32,
    mem: Gpu2DMem,
    regs: Gpu2DRenderRegs,
    window: Seq<u8>,
    bg: int,
    line: int,
    i: int,
    l: (u32, u32),
) -> (u32, u32) {
    if bg_kind(disp, bg) == 1 {
        bg_step(BgMode::Text, mem, regs, window, bg, line, i, l.0, l.1)
    } else if bg_kind(disp, bg) == 2 {
        bg_step(BgMode::Display3d, mem, regs, window, bg, line, i, l.0, l.1)
    } else {
        l
    }
}

/// Whether every memory access that drawing the text backgrounds of lines
/// `from` to `to` makes lies within the memories, each line as its run sets
/// the backgrounds up.
pub open spec fn bgs_reads_ok(mem: Gpu2DMem, regs: Gpu2DRenderRegs, window: Seq<u8>, disp: u32, from: int, to: int) -> bool {
    forall|y: int, bg: int|
        from <= y < to && 0 <= bg < 4 && bg_kind(disp, bg) == 1 ==> #[trigger] text_reads_ok(
            mem,
            text_bg(regs, run_start(regs, from, to, y), bg),
            window,
            bg,
            y,
            y + 1,
        )
}

proof fn lemma_reads_rows(mem: Gpu2DMem, t: TextBg, window: Seq<u8>, bg: int, a: int, b: int)
    requires
        a < b,
        forall|y: int| a <= y < b ==> #[trigger] text_reads_ok(mem, t, window, bg, y, y + 1),
    ensures
        text_reads_ok(mem, t, window, bg, a, b),
{
    assert(text_reads_ok(mem, t, window, bg, a, a + 1));
    assert forall|x: int, y: int| 0 <= x < 256 && a <= y < b implies {
        let e = text_entry_addr(t, x, y);
        let entry = le_u16(mem.bg@, e);
        &&& #[trigger] text_entry_addr(t, x, y) + 2 <= mem.bg@.len()
        &&& text_tile_addr(t, entry) + tile_bytes(t) <= mem.bg@.len()
        &&& (window[pixel(x, y)] & (1u8 << bg as u8) != 0 && text_index(mem.bg@, t, x, y) != 0
            ==> text_color_addr(t, entry, text_index(mem.bg@, t, x, y)) + 2 <= text_palette(mem, t).len())
    } by {
        assert(text_reads_ok(mem, t, window, bg, y, y + 1));
    }
}

/// Whether lines `a` and `b` have the same background registers, read as
/// the spec does.
fn same_bg_lines(regs: &Gpu2DRenderRegs, a: usize, b: usize) -> (r: bool)
    requires
        a < DISPLAY_HEIGHT,
        b < DISPLAY_HEIGHT,
    ensures
        r == same_bg_regs(*regs, a as int, b as int),
{
    let r = regs.bg_cnts[4 * a] == regs.bg_cnts[4 * b] && regs.bg_cnts[4 * a + 1] == regs.bg_cnts[4 * b + 1]
        && regs.bg_cnts[4 * a + 2] == regs.bg_cnts[4 * b + 2] && regs.bg_cnts[4 * a + 3] == regs.bg_cnts[4 * b
        + 3] && regs.bg_ubo.ofs[4 * a] == regs.bg_ubo.ofs[4 * b] && regs.bg_ubo.ofs[4 * a + 1]
        == regs.bg_ubo.ofs[4 * b + 1] && regs.bg_ubo.ofs[4 * a + 2] == regs.bg_ubo.ofs[4 * b + 2]
        && regs.bg_ubo.ofs[4 * a + 3] == regs.bg_ubo.ofs[4 * b + 3];
    proof {
        let c = regs.bg_cnts@;
        let o = regs.bg_ubo.ofs@;
        if r {
            assert(c.subrange(4 * a, 4 * a + 4) =~= c.subrange(4 * b, 4 * b + 4));
            assert(o.subrange(4 * a, 4 * a + 4) =~= o.subrange(4 * b, 4 * b + 4));
        } else if !same_bg_regs(*regs, a as int, b as int) {
        } else {
            assert(c.subrange(4 * a, 4 * a + 4)[0] == c.subrange(4 * b, 4 * b + 4)[0]);
            assert(c.subrange(4 * a, 4 * a + 4)[1] == c.subrange(4 * b, 4 * b + 4)[1]);
            assert(c.subrange(4 * a, 4 * a + 4)[2] == c.subrange(4 * b, 4 * b + 4)[2]);
            assert(c.subrange(4 * a, 4 * a + 4)[3] == c.subrange(4 * b, 4 * b + 4)[3]);
            assert(o.subrange(4 * a, 4 * a + 4)[0] == o.subrange(4 * b, 4 * b + 4)[0]);
            assert(o.subrange(4 * a, 4 * a + 4)[1] == o.subrange(4 * b, 4 * b + 4)[1]);
            assert(o.subrange(4 * a, 4 * a + 4)[2] == o.subrange(4 * b, 4 * b + 4)[2]);
            assert(o.subrange(4 * a, 4 * a + 4)[3] == o.subrange(4 * b, 4 * b + 4)[3]);
        }
    }
    r
}

/// How background `bg` is drawn under display control `disp`.
fn bg_kind_of(disp: u32, bg: usize) -> (r: u8)
    requires
        bg < 4,
    ensures
        r == bg_kind(disp, bg as int),
{
    let mode = disp & 7;
    if disp & (0x100u32 << (bg as u32)) == 0 || mode == 7 {
        0
    } else if mode == 6 {
        if bg == 2 {
            3
        } else {
            0
        }
    } else if bg == 0 {
        if disp & 8 != 0 {
            2
        } else {
            1
        }
    } else if bg == 1 {
        1
    } else if bg == 2 {
        if mode == 2 || mode == 4 || mode == 5 {
            3
        } else {
            1
        }
    } else if mode == 0 {
        1
    } else {
        3
    }
}

/// Draws background `bg` on lines `from_line` to `to_line` as display
/// control `disp` has it drawn.
fn draw_bg_as(
    disp: u32,
    frame: &mut Gpu2DFrame,
    mem: &Gpu2DMem,
    regs: &Gpu2DRenderRegs,
    from_line: usize,
    to_line: usize,
    bg: usize,
)
    requires
        old(frame).wf(),
        from_line < to_line <= DISPLAY_HEIGHT,
        bg < 4,
        bg_kind(disp, bg as int) != 3,
        bg_kind(disp, bg as int) == 1 ==> text_reads_ok(*mem, text_bg(*regs, from_line as int, bg as int), old(frame).window@, bg as int, from_line as int, to_line as int),
    ensures
        final(frame).wf(),
        final(frame).window == old(frame).window,
        forall|i: int|
            0 <= i < FRAME_PIXELS ==> (#[trigger] final(frame).layers[0]@[i], final(frame).layers[1]@[i]) == if from_line * 256 <= i < to_line * 256 {
                bg_kind_step(disp, *mem, *regs, old(frame).window@, bg as int, from_line as int, i, (old(frame).layers[0]@[i], old(frame).layers[1]@[i]))
            } else {
                (old(frame).layers[0]@[i], old(frame).layers[1]@[i])
            },
{
    let kind = bg_kind_of(disp, bg);
    if kind == 1 {
        draw_bg(BgMode::Text, frame, mem, regs, from_line, to_line, bg);
    } else if kind == 2 {
        draw_bg(BgMode::Display3d, frame, mem, regs, from_line, to_line, bg);
    }
}

/// Draws the backgrounds of lines `from_line` to `to_line` (not included)
/// under the display control of the first, run by run of lines with equal
/// background controls and offsets: backgrounds 3, 2, 1 and 0, each as the
/// background mode has it (text, or the 3D layer for background 0 when
/// bit 3 is set); the modes that draw a background as affine, extended or
/// large are not drawn by this renderer.
pub fn draw_bgs(frame: &mut Gpu2DFrame, mem: &Gpu2DMem, regs: &Gpu2DRenderRegs, from_line: usize, to_line: usize)
    requires
        old(frame).wf(),
        from_line < to_line <= DISPLAY_HEIGHT,
        forall|bg: int| 0 <= bg < 4 ==> #[trigger] bg_kind(regs.disp_cnts@[from_line as int], bg) != 3,
        bgs_reads_ok(*mem, *regs, old(frame).window@, regs.disp_cnts@[from_line as int], from_line as int, to_line as int),
    ensures
        final(frame).wf(),
        final(frame).window == old(frame).window,
        forall|i: int|
            0 <= i < FRAME_PIXELS ==> (#[trigger] final(frame).layers[0]@[i], final(frame).layers[1]@[i]) == if from_line * 256 <= i < to_line * 256 {
                bgs_at(
                    regs.disp_cnts@[from_line as int],
                    *mem,
                    *regs,
                    old(frame).window@,
                    run_start(*regs, from_line as int, to_line as int, i / 256),
                    i,
                    (old(frame).layers[0]@[i], old(frame).layers[1]@[i]),
                )
            } else {
                (old(frame).layers[0]@[i], old(frame).layers[1]@[i])
            },
{
    let disp = regs.disp_cnt(from_line);
    let ghost window = old(frame).window@;
    let mut line = from_line;
    while line < to_line
        invariant
            from_line <= line <= to_line,
            to_line <= DISPLAY_HEIGHT,
            frame.wf(),
            frame.window == old(frame).window,
            window == old(frame).window@,
            disp == regs.disp_cnts@[from_line as int],
            forall|bg: int| 0 <= bg < 4 ==> #[trigger] bg_kind(disp, bg) != 3,
            bgs_reads_ok(*mem, *regs, window, disp, from_line as int, to_line as int),
            forall|y: int|
                line <= y < to_line ==> #[trigger] run_start(*regs, from_line as int, to_line as int, y) == run_start(
                    *regs,
                    line as int,
                    to_line as int,
                    y,
                ),
            forall|i: int|
                0 <= i < FRAME_PIXELS ==> (#[trigger] frame.layers[0]@[i], frame.layers[1]@[i]) == if from_line * 256 <= i < line * 256 {
                    bgs_at(
                        disp,
                        *mem,
                        *regs,
                        window,
                        run_start(*regs, from_line as int, to_line as int, i / 256),
                        i,
                        (old(frame).layers[0]@[i], old(frame).layers[1]@[i]),
                    )
                } else {
                    (old(frame).layers[0]@[i], old(frame).layers[1]@[i])
                },
        decreases to_line - line,
    {
        let run_from = line;
        line = line + 1;
        while line < to_line && same_bg_lines(regs, run_from, line)
            invariant
                run_from < line <= to_line,
                to_line <= DISPLAY_HEIGHT,
                run_end(*regs, run_from as int, run_from + 1, to_line as int) == run_end(*regs, run_from as int, line as int, to_line as int),
            decreases to_line - line,
        {
            line = line + 1;
        }
        let ghost e = line as int;
        proof {
            assert(run_end(*regs, run_from as int, run_from + 1, to_line as int) == e);
            assert forall|y: int| run_from <= y < e implies #[trigger] run_start(*regs, from_line as int, to_line as int, y) == run_from by {
                assert(run_start(*regs, run_from as int, to_line as int, y) == run_from);
            }
            assert forall|y: int| e <= y < to_line implies #[trigger] run_start(*regs, from_line as int, to_line as int, y) == run_start(*regs, e, to_line as int, y) by {
                assert(run_start(*regs, run_from as int, to_line as int, y) == run_start(*regs, e, to_line as int, y));
            }
        }
        let ghost o0 = frame.layers[0]@;
        let ghost o1 = frame.layers[1]@;
        proof {
            lemma_run_reads(*mem, *regs, window, disp, from_line as int, to_line as int, run_from as int, e, 3);
            lemma_run_reads(*mem, *regs, window, disp, from_line as int, to_line as int, run_from as int, e, 2);
            lemma_run_reads(*mem, *regs, window, disp, from_line as int, to_line as int, run_from as int, e, 1);
            lemma_run_reads(*mem, *regs, window, disp, from_line as int, to_line as int, run_from as int, e, 0);
            assert(bg_kind(disp, 3) != 3 && bg_kind(disp, 2) != 3 && bg_kind(disp, 1) != 3 && bg_kind(disp, 0) != 3);
        }
        draw_bg_as(disp, frame, mem, regs, run_from, line, 3);
        let ghost s3_0 = frame.layers[0]@;
        let ghost s3_1 = frame.layers[1]@;
        draw_bg_as(disp, frame, mem, regs, run_from, line, 2);
        let ghost s2_0 = frame.layers[0]@;
        let ghost s2_1 = frame.layers[1]@;
        draw_bg_as(disp, frame, mem, regs, run_from, line, 1);
        let ghost s1_0 = frame.layers[0]@;
        let ghost s1_1 = frame.layers[1]@;
        draw_bg_as(disp, frame, mem, regs, run_from, line, 0);
        proof {
            assert forall|i: int| 0 <= i < FRAME_PIXELS implies (#[trigger] frame.layers[0]@[i], frame.layers[1]@[i]) == if from_line * 256 <= i < line * 256 {
                bgs_at(
                    disp,
                    *mem,
                    *regs,
                    window,
                    run_start(*regs, from_line as int, to_line as int, i / 256),
                    i,
                    (old(frame).layers[0]@[i], old(frame).layers[1]@[i]),
                )
            } else {
                (old(frame).layers[0]@[i], old(frame).layers[1]@[i])
            } by {
                assert((s3_0[i], s3_1[i]) == (s3_0[i], s3_1[i]));
                assert((s2_0[i], s2_1[i]) == (s2_0[i], s2_1[i]));
                assert((s1_0[i], s1_1[i]) == (s1_0[i], s1_1[i]));
                assert((o0[i], o1[i]) == (o0[i], o1[i]));
                if run_from * 256 <= i < line * 256 {
                    assert(run_from <= i / 256 < e);
                    assert(run_start(*regs, from_line as int, to_line as int, i / 256) == run_from);
                }
            }
        }
    }
}

proof fn lemma_run_reads(
    mem: Gpu2DMem,
    regs: Gpu2DRenderRegs,
    window: Seq<u8>,
    disp: u32,
    from: int,
    to: int,
    a: int,
    b: int,
    bg: int,
)
    requires
        from <= a < b <= to,
        0 <= bg < 4,
        bgs_reads_ok(mem, regs, window, disp, from, to),
        forall|y: int| a <= y < b ==> #[trigger] run_start(regs, from, to, y) == a,
    ensures
        bg_kind(disp, bg) == 1 ==> text_reads_ok(mem, text_bg(regs, a, bg), window, bg, a, b),
{
    if bg_kind(disp, bg) == 1 {
        assert forall|y: int| a <= y < b implies #[trigger] text_reads_ok(mem, text_bg(regs, a, bg), window, bg, y, y + 1) by {
            assert(run_start(regs, from, to, y) == a);
            assert(text_reads_ok(mem, text_bg(regs, run_start(regs, from, to, y), bg), window, bg, y, y + 1));
        }
        lemma_reads_rows(mem, text_bg(regs, a, bg), window, bg, a, b);
    }
}

/// Two to the power `n`, for the shifts of object sizes.
pub open spec fn p2(n: int) -> int {
    if n <= 0 {
        1
    } else if n == 1 {
        2
    } else if n == 2 {
        4
    } else if n == 3 {
        8
    } else if n == 4 {
        16
    } else if n == 5 {
        32
    } else if n == 6 {
        64
    } else if n == 7 {
        128
    } else {
        256
    }
}

/// The object mode of attribute 0 (bits 8 and 9): 0 normal, 1 affine,
/// 2 disabled, 3 affine at double size.
pub open spec fn obj_mode(a0: u16) -> int {
    ((a0 >> 8u16) & 3) as int
}

/// The graphics mode of attribute 0 (bits 10 and 11): 0 normal, 1 alpha
/// blending, 2 window, 3 bitmap.
pub open spec fn obj_gfx_mode(a0: u16) -> int {
    ((a0 >> 10u16) & 3) as int
}

/// Whether the object uses 256-color tiles (bit 13 of attribute 0).
pub open spec fn obj_8bit(a0: u16) -> bool {
    a0 & 0x2000 != 0
}

/// Width and height shifts of an object by its shape (bits 14 and 15 of
/// attribute 0) and size (bits 14 and 15 of attribute 1); the fourth shape
/// has none.
pub open spec fn obj_shift_w(a0: u16, a1: u16) -> int {
    let shape = (a0 >> 14u16) as int;
    let size = (a1 >> 14u16) as int;
    if shape == 0 {
        3 + size
    } else if shape == 1 {
        if size == 0 {
            4
        } else if size == 3 {
            6
        } else {
            5
        }
    } else if shape == 2 {
        if size <= 1 {
            3
        } else if size == 2 {
            4
        } else {
            5
        }
    } else {
        0
    }
}

pub open spec fn obj_shift_h(a0: u16, a1: u16) -> int {
    let shape = (a0 >> 14u16) as int;
    let size = (a1 >> 14u16) as int;
    if shape == 0 {
        3 + size
    } else if shape == 1 {
        if size <= 1 {
            3
        } else if size == 2 {
            4
        } else {
            5
        }
    } else if shape == 2 {
        if size == 0 {
            4
        } else if size == 3 {
            6
        } else {
            5
        }
    } else {
        0
    }
}

/// The drawn size shift: one more for affine objects at double size (bit 9
/// of attribute 0, the high bit of the object mode).
pub open spec fn obj_draw_shift(a0: u16, base: int) -> int {
    base + ((a0 >> 9u16) & 1) as int
}

/// The screen column of an object (bits 0 to 8 of attribute 1; 256 and
/// above are left of the screen).
pub open spec fn obj_x(a1: u16) -> int {
    let v = (a1 & 0x1FF) as int;
    if v >= 256 {
        v - 512
    } else {
        v
    }
}

/// The screen line of an object (bits 0 to 7 of attribute 0; 192 and above
/// are above the screen).
pub open spec fn obj_y(a0: u16) -> int {
    let v = (a0 & 0xFF) as int;
    if v >= 192 {
        v - 256
    } else {
        v
    }
}

/// Whether an object's drawn rectangle can reach lines `from` to `to`.
pub open spec fn obj_in_range(a0: u16, a1: u16, from: int, to: int) -> bool {
    let w = p2(obj_draw_shift(a0, obj_shift_w(a0, a1)));
    let h = p2(obj_draw_shift(a0, obj_shift_h(a0, a1)));
    !(obj_x(a1) >= 256 || obj_x(a1) + w < 0 || obj_y(a0) >= to || obj_y(a0) + h < from)
}

/// The alpha bit an object's colors get: clear for alpha blending objects.
pub open spec fn obj_alpha(a0: u16) -> u16 {
    if obj_gfx_mode(a0) == 1 {
        0
    } else {
        0x8000
    }
}

/// The layer word of pixel `l` after an object pixel of `color` at priority
/// `prio` is drawn on it.
pub open spec fn obj_rule(l: u32, color: u16, prio: int) -> u32 {
    let ip = (3 - prio) as u32;
    if inv_layer(l) == 0 || ip > inv_prio(l) {
        layer_word(color, ip, 1)
    } else {
        l
    }
}

/// The first byte of the tiles of an object with one-dimensional mapping:
/// its tile number (bits 0 to 9 of attribute 2) in units of 32 bytes times
/// the mapping boundary (bits 20 and 21 of the display control).
pub open spec fn obj_tile_base(disp: u32, a2: u16) -> int {
    (a2 & 0x3FF) as int * p2(5 + ((disp >> 20u32) & 3) as int)
}

/// Whether screen pixel (`px`, `py`) lies within the rectangle of a normal
/// object on lines `from` to `to`.
pub open spec fn normal_covers(a0: u16, a1: u16, from: int, to: int, px: int, py: int) -> bool {
    let c = px - obj_x(a1);
    let r = py - obj_y(a0);
    &&& 0 <= px < 256
    &&& from <= py < to
    &&& 0 <= c < p2(obj_shift_w(a0, a1))
    &&& 0 <= r < p2(obj_shift_h(a0, a1))
}

/// The address of the word holding row `r` of the pixels of column `c` of a
/// 16-color normal object, after its flips (bit 12 horizontal, bit 13
/// vertical of attribute 1): rows of tiles are a sprite width of tiles apart.
pub open spec fn normal_row_addr(disp: u32, a0: u16, a1: u16, a2: u16, c: int, r: int) -> int {
    let ws = obj_shift_w(a0, a1);
    let tcx = p2(ws) / 8;
    let tcy = p2(obj_shift_h(a0, a1)) / 8;
    let tx = c / 8;
    let ty = r / 8;
    let yo = r % 8;
    let mx = if a1 & 0x1000 != 0 {
        tcx - tx - 1
    } else {
        tx
    };
    let my = if a1 & 0x2000 != 0 {
        tcy - ty - 1
    } else {
        ty
    };
    let my_row = if a1 & 0x2000 != 0 {
        7 - yo
    } else {
        yo
    };
    obj_tile_base(disp, a2) + my * p2(ws) * 4 + mx * 32 + my_row * 4
}

/// The palette index of screen pixel (`px`, `py`) of a 16-color normal
/// object.
pub open spec fn normal_index(obj: Seq<u8>, disp: u32, a0: u16, a1: u16, a2: u16, px: int, py: int) -> u32 {
    let c = px - obj_x(a1);
    let r = py - obj_y(a0);
    let xo = c % 8;
    let nib = if a1 & 0x1000 != 0 {
        7 - xo
    } else {
        xo
    };
    (le_u32(obj, normal_row_addr(disp, a0, a1, a2, c, r)) >> (nib * 4) as u32) & 0xF
}

/// The address of the color of palette index `idx` of a 16-color object:
/// the object palettes start at 0x200, banks of 32 bytes (bits 12 to 15 of
/// attribute 2).
pub open spec fn normal_color_addr(a2: u16, idx: u32) -> int {
    0x200 + (a2 >> 12u16) as int * 32 + idx * 2
}

/// Whether a normal object draws on screen pixel `i`, and with which color.
pub open spec fn normal_draws(mem: Gpu2DMem, disp: u32, window: Seq<u8>, a0: u16, a1: u16, a2: u16, from: int, to: int, i: int) -> bool {
    &&& normal_covers(a0, a1, from, to, i % 256, i / 256)
    &&& window[i] & (1u8 << 4u8) != 0
    &&& normal_index(mem.obj@, disp, a0, a1, a2, i % 256, i / 256) != 0
}

pub open spec fn normal_color(mem: Gpu2DMem, disp: u32, a0: u16, a1: u16, a2: u16, i: int) -> u16 {
    let idx = normal_index(mem.obj@, disp, a0, a1, a2, i % 256, i / 256);
    (le_u16(mem.pal@, normal_color_addr(a2, idx)) & 0x7FFF) | obj_alpha(a0)
}

/// Whether every memory access that drawing a normal object on lines `from`
/// to `to` makes lies within the memories: the row word of each of its
/// pixels on those lines, and the color of each pixel that is shown.
pub open spec fn normal_reads_ok(mem: Gpu2DMem, disp: u32, window: Seq<u8>, a0: u16, a1: u16, a2: u16, from: int, to: int) -> bool {
    forall|c: int, r: int|
        0 <= c < p2(obj_shift_w(a0, a1)) && 0 <= r < p2(obj_shift_h(a0, a1)) && from <= obj_y(a0) + r < to ==> {
            &&& #[trigger] normal_row_addr(disp, a0, a1, a2, c, r) + 4 <= mem.obj@.len()
            &&& (0 <= obj_x(a1) + c < 256 && window[pixel(obj_x(a1) + c, obj_y(a0) + r)] & (1u8 << 4u8) != 0
                && normal_index(mem.obj@, disp, a0, a1, a2, obj_x(a1) + c, obj_y(a0) + r) != 0 ==> normal_color_addr(
                a2,
                normal_index(mem.obj@, disp, a0, a1, a2, obj_x(a1) + c, obj_y(a0) + r),
            ) + 2 <= mem.pal@.len())
        }
}

/// Whether `l` is `o` with the pixels `d` picks set as `f` gives them.
pub open spec fn fold_ok(l: Seq<u32>, o: Seq<u32>, d: spec_fn(int) -> bool, f: spec_fn(int) -> u32) -> bool {
    forall|i: int| 0 <= i < FRAME_PIXELS ==> #[trigger] l[i] == if d(i) {
        f(i)
    } else {
        o[i]
    }
}

proof fn lemma_fold_step(
    b: Seq<u32>,
    a: Seq<u32>,
    o: Seq<u32>,
    d_old: spec_fn(int) -> bool,
    d_new: spec_fn(int) -> bool,
    f: spec_fn(int) -> u32,
)
    requires
        fold_ok(b, o, d_old, f),
        forall|i: int| 0 <= i < FRAME_PIXELS && d_old(i) != d_new(i) ==> #[trigger] a[i] == if d_new(i) {
            f(i)
        } else {
            o[i]
        },
        forall|i: int| 0 <= i < FRAME_PIXELS && d_old(i) == d_new(i) ==> #[trigger] a[i] == b[i],
    ensures
        fold_ok(a, o, d_new, f),
{
    assert forall|i: int| 0 <= i < FRAME_PIXELS implies #[trigger] a[i] == if d_new(i) {
        f(i)
    } else {
        o[i]
    } by {
        if d_old(i) == d_new(i) {
            assert(a[i] == b[i]);
        }
    }
}

/// Width and height shifts of an object, as the object attribute table has
/// them.
pub(crate) fn obj_shifts(a0: u16, a1: u16) -> (r: (u32, u32))
    ensures
        r.0 == obj_shift_w(a0, a1),
        r.1 == obj_shift_h(a0, a1),
{
    let shape = a0 >> 14u16;
    let size = a1 >> 14u16;
    proof {
        lemma_attr_fields(a0);
        lemma_attr_fields(a1);
    }
    if shape == 0 {
        (3 + size as u32, 3 + size as u32)
    } else if shape == 1 {
        (if size == 0 {
            4
        } else if size == 3 {
            6
        } else {
            5
        }, if size <= 1 {
            3
        } else if size == 2 {
            4
        } else {
            5
        })
    } else if shape == 2 {
        (if size <= 1 {
            3
        } else if size == 2 {
            4
        } else {
            5
        }, if size == 0 {
            4
        } else if size == 3 {
            6
        } else {
            5
        })
    } else {
        (0, 0)
    }
}

pub(crate) fn pow2_u32(n: u32) -> (r: u32)
    requires
        n <= 8,
    ensures
        r == p2(n as int),
{
    if n == 0 {
        1
    } else if n == 1 {
        2
    } else if n == 2 {
        4
    } else if n == 3 {
        8
    } else if n == 4 {
        16
    } else if n == 5 {
        32
    } else if n == 6 {
        64
    } else if n == 7 {
        128
    } else {
        256
    }
}

/// The palette index of pixel (`c`, `r`) of a 16-color normal object,
/// drawn at screen pixel (`px`, `py`).
fn normal_pixel_index(
    mem: &Gpu2DMem,
    tile_base: u32,
    w: i32,
    h: i32,
    h_flip: bool,
    v_flip: bool,
    c: i32,
    r: i32,
    Ghost(disp): Ghost<u32>,
    Ghost(a0): Ghost<u16>,
    Ghost(a1): Ghost<u16>,
    Ghost(a2): Ghost<u16>,
) -> (idx: u32)
    requires
        w == p2(obj_shift_w(a0, a1)),
        h == p2(obj_shift_h(a0, a1)),
        8 <= w <= 64,
        8 <= h <= 64,
        w % 8 == 0,
        h % 8 == 0,
        tile_base == obj_tile_base(disp, a2),
        tile_base <= 0x3FF * 256,
        h_flip == (a1 & 0x1000 != 0),
        v_flip == (a1 & 0x2000 != 0),
        0 <= c < w,
        0 <= r < h,
        normal_row_addr(disp, a0, a1, a2, c as int, r as int) + 4 <= mem.obj@.len(),
    ensures
        idx == normal_index(mem.obj@, disp, a0, a1, a2, obj_x(a1) + c, obj_y(a0) + r),
        idx <= 15,
{
    let tcx = w / 8;
    let tcy = h / 8;
    let tx = c / 8;
    let ty = r / 8;
    let yo = r % 8;
    let mx = if h_flip {
        tcx - tx - 1
    } else {
        tx
    };
    let my = if v_flip {
        tcy - ty - 1
    } else {
        ty
    };
    let my_row = if v_flip {
        7 - yo
    } else {
        yo
    };
    proof {
        assert(0 <= tx < tcx && 0 <= ty < tcy) by (nonlinear_arith)
            requires
                0 <= c < w,
                0 <= r < h,
                tcx == w / 8,
                tcy == h / 8,
                tx == c / 8,
                ty == r / 8,
                w % 8 == 0,
                h % 8 == 0,
        ;
        assert(0 <= my * w * 4 <= 8 * 64 * 4) by (nonlinear_arith)
            requires
                0 <= my < tcy,
                tcy <= 8,
                0 < w <= 64,
        ;
    }
    let row_addr = tile_base as usize + (my * w * 4) as usize + (mx * 32) as usize + (my_row * 4) as usize;
    let word = read_u32_le(mem.obj, row_addr);
    let xo = c % 8;
    let nib = if h_flip {
        7 - xo
    } else {
        xo
    };
    let idx = (word >> (nib * 4) as u32) & 0xF;
    proof {
        lemma_word_bytes(word >> (nib * 4) as u32);
        let px = obj_x(a1) + c;
        let py = obj_y(a0) + r;
        assert(px - obj_x(a1) == c && py - obj_y(a0) == r);
    }
    idx
}

/// Draws a 16-color normal object with one-dimensional tile mapping, of
/// attributes `a0`, `a1` and `a2`, on lines `from_line` to `to_line` (not
/// included): each pixel of its rectangle on those lines whose window shows
/// objects and whose palette index is not 0 is drawn at the object's
/// priority (bits 10 and 11 of attribute 2).
pub fn draw_object_normal(
    frame: &mut Gpu2DFrame,
    mem: &Gpu2DMem,
    regs: &Gpu2DRenderRegs,
    from_line: usize,
    to_line: usize,
    a0: u16,
    a1: u16,
    a2: u16,
)
    requires
        old(frame).wf(),
        from_line < to_line <= DISPLAY_HEIGHT,
        regs.disp_cnts@[from_line as int] & 0x10 != 0,
        !obj_8bit(a0),
        a0 >> 14u16 != 3,
        normal_reads_ok(*mem, regs.disp_cnts@[from_line as int], old(frame).window@, a0, a1, a2, from_line as int, to_line as int),
    ensures
        final(frame).wf(),
        final(frame).window == old(frame).window,
        final(frame).layers[1] == old(frame).layers[1],
        forall|i: int| 0 <= i < FRAME_PIXELS ==> #[trigger] final(frame).layers[0]@[i] == if normal_draws(
            *mem,
            regs.disp_cnts@[from_line as int],
            old(frame).window@,
            a0,
            a1,
            a2,
            from_line as int,
            to_line as int,
            i,
        ) {
            obj_rule(old(frame).layers[0]@[i], normal_color(*mem, regs.disp_cnts@[from_line as int], a0, a1, a2, i), ((a2 >> 10u16) & 3) as int)
        } else {
            old(frame).layers[0]@[i]
        },
{
    let disp = regs.disp_cnt(from_line);
    proof {
        lemma_attr_fields(a0);
        lemma_attr_fields(a1);
        lemma_attr_fields(a2);
        lemma_word_bytes(disp);
    }
    let (ws, hs) = obj_shifts(a0, a1);
    assert(3 <= ws <= 6 && 3 <= hs <= 6);
    let w = pow2_u32(ws) as i32;
    let h = pow2_u32(hs) as i32;
    assert(8 <= w <= 64 && 8 <= h <= 64 && w % 8 == 0 && h % 8 == 0);
    let xv = (a1 & 0x1FF) as i32;
    let x: i32 = if xv >= 256 {
        xv - 512
    } else {
        xv
    };
    let yv = (a0 & 0xFF) as i32;
    let y: i32 = if yv >= 192 {
        yv - 256
    } else {
        yv
    };
    let alpha: u16 = if (a0 >> 10u16) & 3 == 1 {
        0
    } else {
        0x8000
    };
    let boundary = (disp >> 20u32) & 3;
    let scale = pow2_u32(5 + boundary);
    let tile_index = (a2 & 0x3FF) as u32;
    assert(tile_index * scale <= 0x3FF * 256) by (nonlinear_arith)
        requires
            tile_index <= 0x3FF,
            scale <= 256,
    ;
    let tile_base: u32 = tile_index * scale;
    let pal_bank = (a2 >> 12u16) as usize;
    let prio = ((a2 >> 10u16) & 3) as u8;
    let h_flip = a1 & 0x1000 != 0;
    let v_flip = a1 & 0x2000 != 0;
    let ghost window = old(frame).window@;
    let ghost o = old(frame).layers[0]@;
    let ghost d = |i: int| normal_draws(*mem, disp, window, a0, a1, a2, from_line as int, to_line as int, i);
    let ghost f = |i: int| obj_rule(o[i], normal_color(*mem, disp, a0, a1, a2, i), ((a2 >> 10u16) & 3) as int);
    let mut r: i32 = 0;
    while r < h
        invariant
            0 <= r <= h,
            from_line < to_line <= DISPLAY_HEIGHT,
            frame.wf(),
            frame.window == old(frame).window,
            frame.layers[1] == old(frame).layers[1],
            window == old(frame).window@,
            o == old(frame).layers[0]@,
            disp == regs.disp_cnts@[from_line as int],
            w == p2(obj_shift_w(a0, a1)),
            h == p2(obj_shift_h(a0, a1)),
            8 <= w <= 64,
            8 <= h <= 64,
            w % 8 == 0,
            h % 8 == 0,
            x == obj_x(a1),
            y == obj_y(a0),
            alpha == obj_alpha(a0),
            tile_base == obj_tile_base(disp, a2),
            tile_base <= 0x3FF * 256,
            pal_bank == (a2 >> 12u16),
            pal_bank <= 15,
            prio == (a2 >> 10u16) & 3,
            prio <= 3,
            h_flip == (a1 & 0x1000 != 0),
            v_flip == (a1 & 0x2000 != 0),
            normal_reads_ok(*mem, disp, window, a0, a1, a2, from_line as int, to_line as int),
            d == (|i: int| normal_draws(*mem, disp, window, a0, a1, a2, from_line as int, to_line as int, i)),
            f == (|i: int| obj_rule(o[i], normal_color(*mem, disp, a0, a1, a2, i), ((a2 >> 10u16) & 3) as int)),
            fold_ok(frame.layers[0]@, o, |i: int| d(i) && i / 256 - y < r, f),
        decreases h - r,
    {
        let mut c: i32 = 0;
        while c < w
            invariant
                0 <= r < h,
                0 <= c <= w,
                from_line < to_line <= DISPLAY_HEIGHT,
                frame.wf(),
                frame.window == old(frame).window,
                frame.layers[1] == old(frame).layers[1],
                window == old(frame).window@,
                o == old(frame).layers[0]@,
                disp == regs.disp_cnts@[from_line as int],
                w == p2(obj_shift_w(a0, a1)),
                h == p2(obj_shift_h(a0, a1)),
                8 <= w <= 64,
                8 <= h <= 64,
                w % 8 == 0,
                h % 8 == 0,
                x == obj_x(a1),
                y == obj_y(a0),
                alpha == obj_alpha(a0),
                tile_base == obj_tile_base(disp, a2),
                tile_base <= 0x3FF * 256,
                pal_bank == (a2 >> 12u16),
                pal_bank <= 15,
                prio == (a2 >> 10u16) & 3,
                prio <= 3,
                h_flip == (a1 & 0x1000 != 0),
                v_flip == (a1 & 0x2000 != 0),
                normal_reads_ok(*mem, disp, window, a0, a1, a2, from_line as int, to_line as int),
                d == (|i: int| normal_draws(*mem, disp, window, a0, a1, a2, from_line as int, to_line as int, i)),
                f == (|i: int| obj_rule(o[i], normal_color(*mem, disp, a0, a1, a2, i), ((a2 >> 10u16) & 3) as int)),
                fold_ok(frame.layers[0]@, o, |i: int| d(i) && (i / 256 - y < r || (i / 256 - y == r && i % 256 - x < c)), f),
            decreases w - c,
        {
            let ghost before = frame.layers[0]@;
            let ghost d_old = |i: int| d(i) && (i / 256 - y < r || (i / 256 - y == r && i % 256 - x < c));
            let ghost d_new = |i: int| d(i) && (i / 256 - y < r || (i / 256 - y == r && i % 256 - x < c + 1));
            let py = y + r;
            let px = x + c;
            if from_line as i32 <= py && py < to_line as i32 && 0 <= px && px < 256 {
                let ghost k = pixel(px as int, py as int);
                let ux = px as usize;
                let uy = py as usize;
                proof {
                    assert(k % 256 == px && k / 256 == py);
                }
                if frame.can_display_pixel(ux, uy, 4) {
                    proof {
                        assert(normal_row_addr(disp, a0, a1, a2, c as int, r as int) + 4 <= mem.obj@.len());
                    }
                    let idx = normal_pixel_index(mem, tile_base, w, h, h_flip, v_flip, c, r, Ghost(disp), Ghost(a0), Ghost(a1), Ghost(a2));
                    if idx != 0 {
                        proof {
                            assert(normal_color_addr(a2, idx) + 2 <= mem.pal@.len());
                        }
                        let color = (read_u16_le(mem.pal, 0x200 + pal_bank * 32 + idx as usize * 2) & 0x7FFF) | alpha;
                        frame.set_obj_pixel(ux, uy, color, prio);
                    }
                }
                proof {
                    lemma_fold_step(before, frame.layers[0]@, o, d_old, d_new, f);
                }
            } else {
                proof {
                    lemma_fold_step(before, frame.layers[0]@, o, d_old, d_new, f);
                }
            }
            c = c + 1;
        }
        proof {
            let d_end = |i: int| d(i) && (i / 256 - y < r || (i / 256 - y == r && i % 256 - x < w));
            let d_next = |i: int| d(i) && i / 256 - y < r + 1;
            assert forall|i: int| 0 <= i < FRAME_PIXELS implies #[trigger] d_end(i) == d_next(i) by {}
            lemma_fold_step(frame.layers[0]@, frame.layers[0]@, o, d_end, d_next, f);
        }
        r = r + 1;
    }
    proof {
        let d_all = |i: int| d(i) && i / 256 - y < h;
        assert forall|i: int| 0 <= i < FRAME_PIXELS implies #[trigger] d_all(i) == d(i) by {}
        lemma_fold_step(frame.layers[0]@, frame.layers[0]@, o, d_all, d, f);
    }
}

/// Parameter `k` (pa, pb, pc, pd) of the rotation group of an affine
/// object (bits 9 to 12 of attribute 1): 8.8 fixed point, in the fourth
/// half word of each of the group's four object entries.
pub open spec fn affine_param(oam: Seq<u8>, a1: u16, k: int) -> int {
    le_u16(oam, ((a1 >> 9u16) & 0xF) as int * 0x20 + 6 + 8 * k) as i16 as int
}

/// The texture coordinates an affine object shows at its drawn pixel
/// (`xs`, `ys`): the pixel's offset from the center turned by the group's
/// matrix (the product shifted right by eight), from the texture's center.
pub open spec fn affine_tex(oam: Seq<u8>, a0: u16, a1: u16, xs: int, ys: int) -> (int, int) {
    let w = p2(obj_draw_shift(a0, obj_shift_w(a0, a1)));
    let h = p2(obj_draw_shift(a0, obj_shift_h(a0, a1)));
    let ox = xs - w / 2;
    let oy = ys - h / 2;
    let u = ((ox * affine_param(oam, a1, 0) + affine_param(oam, a1, 1) * oy) as i32) >> 8u32;
    let v = ((ox * affine_param(oam, a1, 2) + affine_param(oam, a1, 3) * oy) as i32) >> 8u32;
    (u as int + p2(obj_shift_w(a0, a1)) / 2, v as int + p2(obj_shift_h(a0, a1)) / 2)
}

/// Whether texture coordinates `t` lie within an object's texture.
pub open spec fn affine_in_tex(a0: u16, a1: u16, t: (int, int)) -> bool {
    0 <= t.0 < p2(obj_shift_w(a0, a1)) && 0 <= t.1 < p2(obj_shift_h(a0, a1))
}

/// The byte offset within the object's tiles of texture pixel `t`, counted
/// in 256-color pixels (rows of tiles a texture width apart), halved for
/// 16-color tiles.
pub open spec fn affine_tile_offset(a0: u16, a1: u16, t: (int, int)) -> int {
    let sw = p2(obj_shift_w(a0, a1));
    let off = ((t.1 / 8) * sw + t.1 % 8) * 8 + (t.0 / 8) * 64 + t.0 % 8;
    if obj_8bit(a0) {
        off
    } else {
        off / 2
    }
}

/// The palette index of texture pixel `t` of an affine object.
pub open spec fn affine_index(obj: Seq<u8>, disp: u32, a0: u16, a1: u16, a2: u16, t: (int, int)) -> u8 {
    let b = obj[obj_tile_base(disp, a2) + affine_tile_offset(a0, a1, t)];
    if obj_8bit(a0) {
        b
    } else if t.0 % 2 == 0 {
        b & 0xF
    } else {
        b >> 4u8
    }
}

/// The palette memory and the first byte of the palette of an affine
/// object: 256-color objects use the bank of attribute 2 of the extended
/// palettes when the display control enables them (bit 31), else the
/// object palette at 0x200; 16-color objects use their bank of it.
pub open spec fn affine_palette(mem: Gpu2DMem, disp: u32, a0: u16, a2: u16) -> (Seq<u8>, int) {
    if obj_8bit(a0) {
        if disp & 0x8000_0000 != 0 {
            (mem.obj_ext_pal@, (a2 >> 12u16) as int * 512)
        } else {
            (mem.pal@, 0x200)
        }
    } else {
        (mem.pal@, 0x200 + (a2 >> 12u16) as int * 32)
    }
}

/// Bytes of an affine object's palette.
pub open spec fn affine_palette_len(a0: u16) -> int {
    if obj_8bit(a0) {
        512
    } else {
        32
    }
}

/// Whether screen pixel `i` lies within the drawn rectangle of an affine
/// object (on any line).
pub open spec fn affine_covers(a0: u16, a1: u16, i: int) -> bool {
    &&& 0 <= i % 256 - obj_x(a1) < p2(obj_draw_shift(a0, obj_shift_w(a0, a1)))
    &&& 0 <= i / 256 - obj_y(a0) < p2(obj_draw_shift(a0, obj_shift_h(a0, a1)))
}

/// The texture coordinates an affine object shows at screen pixel `i`.
pub open spec fn affine_tex_at(mem: Gpu2DMem, a0: u16, a1: u16, i: int) -> (int, int) {
    affine_tex(mem.oam@, a0, a1, i % 256 - obj_x(a1), i / 256 - obj_y(a0))
}

/// Whether an affine object draws on screen pixel `i`.
pub open spec fn affine_draws(mem: Gpu2DMem, disp: u32, window: Seq<u8>, a0: u16, a1: u16, a2: u16, i: int) -> bool {
    &&& affine_covers(a0, a1, i)
    &&& window[i] & (1u8 << 4u8) != 0
    &&& affine_in_tex(a0, a1, affine_tex_at(mem, a0, a1, i))
    &&& affine_index(mem.obj@, disp, a0, a1, a2, affine_tex_at(mem, a0, a1, i)) != 0
}

/// The color an affine object draws on screen pixel `i`.
pub open spec fn affine_color(mem: Gpu2DMem, disp: u32, a0: u16, a1: u16, a2: u16, i: int) -> u16 {
    let idx = affine_index(mem.obj@, disp, a0, a1, a2, affine_tex_at(mem, a0, a1, i));
    let (p, base) = affine_palette(mem, disp, a0, a2);
    (le_u16(p, base + idx * 2) & 0x7FFF) | obj_alpha(a0)
}

/// Whether every memory access that drawing an affine object makes lies
/// within the memories: its rotation group, its palette, and the tile byte
/// of each pixel that is shown within its texture.
pub open spec fn affine_reads_ok(mem: Gpu2DMem, disp: u32, window: Seq<u8>, a0: u16, a1: u16, a2: u16) -> bool {
    &&& ((a1 >> 9u16) & 0xF) as int * 0x20 + 0x20 <= mem.oam@.len()
    &&& affine_palette(mem, disp, a0, a2).1 + affine_palette_len(a0) <= affine_palette(mem, disp, a0, a2).0.len()
    &&& forall|i: int|
        0 <= i < FRAME_PIXELS && affine_covers(a0, a1, i) && window[i] & (1u8 << 4u8) != 0 && affine_in_tex(
            a0,
            a1,
            #[trigger] affine_tex_at(mem, a0, a1, i),
        ) ==> obj_tile_base(disp, a2) + affine_tile_offset(a0, a1, affine_tex_at(mem, a0, a1, i)) < mem.obj@.len()
}

/// The texture coordinates of drawn pixel (`xs`, `ys`) of an affine object
/// of drawn size `w` by `h`, texture size `sw` by `sh` and matrix `m`.
fn affine_pixel_tex(m: [i32; 4], w: i32, h: i32, sw: i32, sh: i32, xs: i32, ys: i32) -> (r: (i64, i64))
    requires
        0 < w <= 128,
        0 < h <= 128,
        0 <= xs < w,
        0 <= ys < h,
        0 < sw <= 64,
        0 < sh <= 64,
        forall|k: int| 0 <= k < 4 ==> -0x8000 <= #[trigger] m@[k] < 0x8000,
    ensures
        r.0 == (((xs - w / 2) * m@[0] + m@[1] * (ys - h / 2)) as i32 >> 8u32) as int + sw / 2,
        r.1 == (((xs - w / 2) * m@[2] + m@[3] * (ys - h / 2)) as i32 >> 8u32) as int + sh / 2,
{
    let ox = xs - w / 2;
    let oy = ys - h / 2;
    assert(-64 <= ox <= 64 && -64 <= oy <= 64);
    proof {
        assert(-0x20_0000 <= ox * m@[0] <= 0x20_0000 && -0x20_0000 <= m@[1] * oy <= 0x20_0000
            && -0x20_0000 <= ox * m@[2] <= 0x20_0000 && -0x20_0000 <= m@[3] * oy <= 0x20_0000) by (nonlinear_arith)
            requires
                -64 <= ox <= 64,
                -64 <= oy <= 64,
                -0x8000 <= m@[0] < 0x8000,
                -0x8000 <= m@[1] < 0x8000,
                -0x8000 <= m@[2] < 0x8000,
                -0x8000 <= m@[3] < 0x8000,
        ;
    }
    let u = (ox * m[0] + m[1] * oy) >> 8u32;
    let v = (ox * m[2] + m[3] * oy) >> 8u32;
    (u as i64 + (sw / 2) as i64, v as i64 + (sh / 2) as i64)
}

/// Draws an affine object with one-dimensional tile mapping, of attributes
/// `a0`, `a1` and `a2`: each pixel of its drawn rectangle on the screen
/// (whatever the lines asked for) whose window shows objects, whose texture
/// coordinates lie within its texture and whose palette index is not 0 is
/// drawn at the object's priority.
pub fn draw_object_affine(
    frame: &mut Gpu2DFrame,
    mem: &Gpu2DMem,
    regs: &Gpu2DRenderRegs,
    from_line: usize,
    to_line: usize,
    a0: u16,
    a1: u16,
    a2: u16,
)
    requires
        old(frame).wf(),
        from_line < to_line <= DISPLAY_HEIGHT,
        regs.disp_cnts@[from_line as int] & 0x10 != 0,
        affine_reads_ok(*mem, regs.disp_cnts@[from_line as int], old(frame).window@, a0, a1, a2),
    ensures
        final(frame).wf(),
        final(frame).window == old(frame).window,
        final(frame).layers[1] == old(frame).layers[1],
        forall|i: int| 0 <= i < FRAME_PIXELS ==> #[trigger] final(frame).layers[0]@[i] == if affine_draws(
            *mem,
            regs.disp_cnts@[from_line as int],
            old(frame).window@,
            a0,
            a1,
            a2,
            i,
        ) {
            obj_rule(old(frame).layers[0]@[i], affine_color(*mem, regs.disp_cnts@[from_line as int], a0, a1, a2, i), ((a2 >> 10u16) & 3) as int)
        } else {
            old(frame).layers[0]@[i]
        },
{
    let disp = regs.disp_cnt(from_line);
    proof {
        lemma_attr_fields(a0);
        lemma_attr_fields(a1);
        lemma_attr_fields(a2);
        lemma_word_bytes(disp);
    }
    let (sws, shs) = obj_shifts(a0, a1);
    let dbl = ((a0 >> 9u16) & 1) as u32;
    assert(sws <= 6 && shs <= 6);
    let w = pow2_u32(sws + dbl) as i32;
    let h = pow2_u32(shs + dbl) as i32;
    let sw = pow2_u32(sws) as i32;
    let sh = pow2_u32(shs) as i32;
    assert(1 <= w <= 128 && 1 <= h <= 128 && 1 <= sw <= 64 && 1 <= sh <= 64);
    let xv = (a1 & 0x1FF) as i32;
    let x: i32 = if xv >= 256 {
        xv - 512
    } else {
        xv
    };
    let yv = (a0 & 0xFF) as i32;
    let y: i32 = if yv >= 192 {
        yv - 256
    } else {
        yv
    };
    let alpha: u16 = if (a0 >> 10u16) & 3 == 1 {
        0
    } else {
        0x8000
    };
    let is_8bit = a0 & 0x2000 != 0;
    let boundary = (disp >> 20u32) & 3;
    let scale = pow2_u32(5 + boundary);
    let tile_index = (a2 & 0x3FF) as u32;
    assert(tile_index * scale <= 0x3FF * 256) by (nonlinear_arith)
        requires
            tile_index <= 0x3FF,
            scale <= 256,
    ;
    let tile_base = (tile_index * scale) as usize;
    let group = ((a1 >> 9u16) & 0xF) as usize * 0x20;
    let m: [i32; 4] = [
        read_u16_le(mem.oam, group + 0x6) as i16 as i32,
        read_u16_le(mem.oam, group + 0xE) as i16 as i32,
        read_u16_le(mem.oam, group + 0x16) as i16 as i32,
        read_u16_le(mem.oam, group + 0x1E) as i16 as i32,
    ];
    let bank = (a2 >> 12u16) as usize;
    let (pal_mem, pal_base): (&[u8], usize) = if is_8bit {
        if disp & 0x8000_0000 != 0 {
            (mem.obj_ext_pal, bank * 512)
        } else {
            (mem.pal, 0x200)
        }
    } else {
        (mem.pal, 0x200 + bank * 32)
    };
    let prio = ((a2 >> 10u16) & 3) as u8;
    let ghost window = old(frame).window@;
    let ghost o = old(frame).layers[0]@;
    let ghost d = |i: int| affine_draws(*mem, disp, window, a0, a1, a2, i);
    let ghost f = |i: int| obj_rule(o[i], affine_color(*mem, disp, a0, a1, a2, i), ((a2 >> 10u16) & 3) as int);
    proof {
        assert(forall|k: int| 0 <= k < 4 ==> #[trigger] m@[k] == affine_param(mem.oam@, a1, k));
        assert(forall|k: int| 0 <= k < 4 ==> -0x8000 <= #[trigger] m@[k] < 0x8000);
        assert((pal_mem@, pal_base as int) == affine_palette(*mem, disp, a0, a2));
    }
    let mut ys: i32 = 0;
    while ys < h
        invariant
            0 <= ys <= h,
            frame.wf(),
            frame.window == old(frame).window,
            frame.layers[1] == old(frame).layers[1],
            window == old(frame).window@,
            o == old(frame).layers[0]@,
            disp == regs.disp_cnts@[from_line as int],
            w == p2(obj_draw_shift(a0, obj_shift_w(a0, a1))),
            h == p2(obj_draw_shift(a0, obj_shift_h(a0, a1))),
            sw == p2(obj_shift_w(a0, a1)),
            sh == p2(obj_shift_h(a0, a1)),
            1 <= w <= 128,
            1 <= h <= 128,
            1 <= sw <= 64,
            1 <= sh <= 64,
            x == obj_x(a1),
            y == obj_y(a0),
            alpha == obj_alpha(a0),
            is_8bit == obj_8bit(a0),
            tile_base == obj_tile_base(disp, a2),
            tile_base <= 0x3FF * 256,
            forall|k: int| 0 <= k < 4 ==> #[trigger] m@[k] == affine_param(mem.oam@, a1, k),
            forall|k: int| 0 <= k < 4 ==> -0x8000 <= #[trigger] m@[k] < 0x8000,
            (pal_mem@, pal_base as int) == affine_palette(*mem, disp, a0, a2),
            prio == (a2 >> 10u16) & 3,
            prio <= 3,
            affine_reads_ok(*mem, disp, window, a0, a1, a2),
            d == (|i: int| affine_draws(*mem, disp, window, a0, a1, a2, i)),
            f == (|i: int| obj_rule(o[i], affine_color(*mem, disp, a0, a1, a2, i), ((a2 >> 10u16) & 3) as int)),
            fold_ok(frame.layers[0]@, o, |i: int| d(i) && i / 256 - y < ys, f),
        decreases h - ys,
    {
        let mut xs: i32 = 0;
        while xs < w
            invariant
                0 <= ys < h,
                0 <= xs <= w,
                frame.wf(),
                frame.window == old(frame).window,
                frame.layers[1] == old(frame).layers[1],
                window == old(frame).window@,
                o == old(frame).layers[0]@,
                disp == regs.disp_cnts@[from_line as int],
                w == p2(obj_draw_shift(a0, obj_shift_w(a0, a1))),
                h == p2(obj_draw_shift(a0, obj_shift_h(a0, a1))),
                sw == p2(obj_shift_w(a0, a1)),
                sh == p2(obj_shift_h(a0, a1)),
                1 <= w <= 128,
                1 <= h <= 128,
                1 <= sw <= 64,
                1 <= sh <= 64,
                x == obj_x(a1),
                y == obj_y(a0),
                alpha == obj_alpha(a0),
                is_8bit == obj_8bit(a0),
                tile_base == obj_tile_base(disp, a2),
                tile_base <= 0x3FF * 256,
                forall|k: int| 0 <= k < 4 ==> #[trigger] m@[k] == affine_param(mem.oam@, a1, k),
                forall|k: int| 0 <= k < 4 ==> -0x8000 <= #[trigger] m@[k] < 0x8000,
                (pal_mem@, pal_base as int) == affine_palette(*mem, disp, a0, a2),
                prio == (a2 >> 10u16) & 3,
                prio <= 3,
                affine_reads_ok(*mem, disp, window, a0, a1, a2),
                d == (|i: int| affine_draws(*mem, disp, window, a0, a1, a2, i)),
                f == (|i: int| obj_rule(o[i], affine_color(*mem, disp, a0, a1, a2, i), ((a2 >> 10u16) & 3) as int)),
                fold_ok(frame.layers[0]@, o, |i: int| d(i) && (i / 256 - y < ys || (i / 256 - y == ys && i % 256 - x < xs)), f),
            decreases w - xs,
        {
            let ghost before = frame.layers[0]@;
            let ghost d_old = |i: int| d(i) && (i / 256 - y < ys || (i / 256 - y == ys && i % 256 - x < xs));
            let ghost d_new = |i: int| d(i) && (i / 256 - y < ys || (i / 256 - y == ys && i % 256 - x < xs + 1));
            let py = y + ys;
            let px = x + xs;
            if 0 <= py && py < 192 && 0 <= px && px < 256 {
                let ghost k = pixel(px as int, py as int);
                let ux = px as usize;
                let uy = py as usize;
                proof {
                    assert(k % 256 == px && k / 256 == py);
                }
                if frame.can_display_pixel(ux, uy, 4) {
                    let (tx, ty) = affine_pixel_tex(m, w, h, sw, sh, xs, ys);
                    proof {
                        assert((tx as int, ty as int) == affine_tex_at(*mem, a0, a1, k));
                    }
                    if 0 <= tx && tx < sw as i64 && 0 <= ty && ty < sh as i64 {
                        let utx = tx as usize;
                        let uty = ty as usize;
                        let full = ((uty / 8) * (sw as usize) + uty % 8) * 8 + (utx / 8) * 64 + utx % 8;
                        let off = if is_8bit {
                            full
                        } else {
                            full / 2
                        };
                        proof {
                            assert(off == affine_tile_offset(a0, a1, affine_tex_at(*mem, a0, a1, k)));
                            assert(tile_base + off < mem.obj@.len());
                        }
                        let b = mem.obj[tile_base + off];
                        let idx: u8 = if is_8bit {
                            b
                        } else if utx % 2 == 0 {
                            b & 0xF
                        } else {
                            b >> 4u8
                        };
                        if idx != 0 {
                            proof {
                                assert(idx as int * 2 + 2 <= affine_palette_len(a0)) by {
                                    if !is_8bit {
                                        assert(b & 0xF <= 15 && b >> 4u8 <= 15) by (bit_vector);
                                    }
                                }
                            }
                            let color = (read_u16_le(pal_mem, pal_base + idx as usize * 2) & 0x7FFF) | alpha;
                            frame.set_obj_pixel(ux, uy, color, prio);
                        }
                    }
                }
                proof {
                    lemma_fold_step(before, frame.layers[0]@, o, d_old, d_new, f);
                }
            } else {
                proof {
                    lemma_fold_step(before, frame.layers[0]@, o, d_old, d_new, f);
                }
            }
            xs = xs + 1;
        }
        proof {
            let d_end = |i: int| d(i) && (i / 256 - y < ys || (i / 256 - y == ys && i % 256 - x < w));
            let d_next = |i: int| d(i) && i / 256 - y < ys + 1;
            assert forall|i: int| 0 <= i < FRAME_PIXELS implies #[trigger] d_end(i) == d_next(i) by {}
            lemma_fold_step(frame.layers[0]@, frame.layers[0]@, o, d_end, d_next, f);
        }
        ys = ys + 1;
    }
    proof {
        let d_all = |i: int| d(i) && i / 256 - y < h;
        assert forall|i: int| 0 <= i < FRAME_PIXELS implies #[trigger] d_all(i) == d(i) by {}
        lemma_fold_step(frame.layers[0]@, frame.layers[0]@, o, d_all, d, f);
    }
}

/// Attribute `j` (0 to 2) of object `k` of the object attribute memory.
pub open spec fn obj_attr(oam: Seq<u8>, k: int, j: int) -> u16 {
    le_u16(oam, 8 * k + 2 * j)
}

/// The top layer word of pixel `i` after object `k` is drawn over `l`, on
/// lines `from` to `to`: disabled objects and objects out of the lines draw
/// nothing.
pub open spec fn obj_step(mem: Gpu2DMem, disp: u32, window: Seq<u8>, from: int, to: int, k: int, i: int, l: u32) -> u32 {
    let a0 = obj_attr(mem.oam@, k, 0);
    let a1 = obj_attr(mem.oam@, k, 1);
    let a2 = obj_attr(mem.oam@, k, 2);
    let prio = ((a2 >> 10u16) & 3) as int;
    if obj_mode(a0) == 2 || !obj_in_range(a0, a1, from, to) {
        l
    } else if obj_mode(a0) == 0 {
        if normal_draws(mem, disp, window, a0, a1, a2, from, to, i) {
            obj_rule(l, normal_color(mem, disp, a0, a1, a2, i), prio)
        } else {
            l
        }
    } else if affine_draws(mem, disp, window, a0, a1, a2, i) {
        obj_rule(l, affine_color(mem, disp, a0, a1, a2, i), prio)
    } else {
        l
    }
}

/// The top layer word of pixel `i` after objects 0 to `n - 1` are drawn
/// over `l`, in order.
pub open spec fn objs_fold(mem: Gpu2DMem, disp: u32, window: Seq<u8>, from: int, to: int, n: int, i: int, l: u32) -> u32
    decreases n,
{
    if n <= 0 {
        l
    } else {
        obj_step(mem, disp, window, from, to, n - 1, i, objs_fold(mem, disp, window, from, to, n - 1, i, l))
    }
}

/// Whether drawing the objects on lines `from` to `to` stays within what
/// this renderer draws and within the memories: no object window, and for
/// each enabled object a normal or alpha blending graphics mode and, when
/// it reaches the lines, one-dimensional tile mapping, 16-color tiles and a
/// shape for normal objects, and memory accesses within the memories.
pub open spec fn objs_ok(mem: Gpu2DMem, disp: u32, window: Seq<u8>, from: int, to: int) -> bool {
    &&& disp & 0x8000 == 0
    &&& mem.oam@.len() >= 0x400
    &&& forall|k: int|
        0 <= k < 128 ==> {
            let a0 = #[trigger] obj_attr(mem.oam@, k, 0);
            let a1 = obj_attr(mem.oam@, k, 1);
            let a2 = obj_attr(mem.oam@, k, 2);
            obj_mode(a0) != 2 ==> {
                &&& obj_gfx_mode(a0) <= 1
                &&& obj_in_range(a0, a1, from, to) ==> {
                    &&& disp & 0x10 != 0
                    &&& obj_mode(a0) == 0 ==> !obj_8bit(a0) && a0 >> 14u16 != 3 && normal_reads_ok(mem, disp, window, a0, a1, a2, from, to)
                    &&& obj_mode(a0) != 0 ==> affine_reads_ok(mem, disp, window, a0, a1, a2)
                }
            }
        }
}

/// Whether an object's drawn rectangle can reach lines `from_line` to
/// `to_line`.
pub(crate) fn obj_in_lines(a0: u16, a1: u16, from_line: usize, to_line: usize) -> (r: bool)
    requires
        from_line < to_line <= DISPLAY_HEIGHT,
    ensures
        r == obj_in_range(a0, a1, from_line as int, to_line as int),
{
    proof {
        lemma_attr_fields(a0);
        lemma_attr_fields(a1);
    }
    let (sws, shs) = obj_shifts(a0, a1);
    let dbl = ((a0 >> 9u16) & 1) as u32;
    assert(sws <= 6 && shs <= 6);
    let w = pow2_u32(sws + dbl) as i16;
    let h = pow2_u32(shs + dbl) as i16;
    let xv = (a1 & 0x1FF) as i16;
    let x: i16 = if xv >= 256 {
        xv - 512
    } else {
        xv
    };
    let yv = (a0 & 0xFF) as i16;
    let y: i16 = if yv >= 192 {
        yv - 256
    } else {
        yv
    };
    !(x >= 256 || x + w < 0 || y >= to_line as i16 || y + h < from_line as i16)
}

/// Draws the objects on lines `from_line` to `to_line` (not included)
/// under the display control of the first, when it shows objects: each of
/// the 128 object entries in order, skipping disabled objects and objects
/// that cannot reach the lines, normal objects on those lines and affine
/// objects wherever they are on the screen.
pub fn draw_objects(frame: &mut Gpu2DFrame, mem: &Gpu2DMem, regs: &Gpu2DRenderRegs, from_line: usize, to_line: usize)
    requires
        old(frame).wf(),
        from_line < to_line <= DISPLAY_HEIGHT,
        regs.disp_cnts@[from_line as int] & 0x1000 != 0 ==> objs_ok(*mem, regs.disp_cnts@[from_line as int], old(frame).window@, from_line as int, to_line as int),
    ensures
        final(frame).wf(),
        final(frame).window == old(frame).window,
        final(frame).layers[1] == old(frame).layers[1],
        forall|i: int|
            0 <= i < FRAME_PIXELS ==> #[trigger] final(frame).layers[0]@[i] == if regs.disp_cnts@[from_line as int] & 0x1000 != 0 {
                objs_fold(*mem, regs.disp_cnts@[from_line as int], old(frame).window@, from_line as int, to_line as int, 128, i, old(frame).layers[0]@[i])
            } else {
                old(frame).layers[0]@[i]
            },
{
    let disp = regs.disp_cnt(from_line);
    if disp & 0x1000 == 0 {
        return;
    }
    let ghost window = old(frame).window@;
    let ghost o = old(frame).layers[0]@;
    let mut k: usize = 0;
    while k < 128
        invariant
            k <= 128,
            from_line < to_line <= DISPLAY_HEIGHT,
            frame.wf(),
            frame.window == old(frame).window,
            frame.layers[1] == old(frame).layers[1],
            window == old(frame).window@,
            o == old(frame).layers[0]@,
            disp == regs.disp_cnts@[from_line as int],
            objs_ok(*mem, disp, window, from_line as int, to_line as int),
            forall|i: int|
                0 <= i < FRAME_PIXELS ==> #[trigger] frame.layers[0]@[i] == objs_fold(*mem, disp, window, from_line as int, to_line as int, k as int, i, o[i]),
        decreases 128 - k,
    {
        let a0 = read_u16_le(mem.oam, 8 * k);
        let a1 = read_u16_le(mem.oam, 8 * k + 2);
        let a2 = read_u16_le(mem.oam, 8 * k + 4);
        proof {
            assert(a0 == obj_attr(mem.oam@, k as int, 0));
            lemma_attr_fields(a0);
        }
        let ghost before = frame.layers[0]@;
        let mode = (a0 >> 8u16) & 3;
        if mode != 2 && obj_in_lines(a0, a1, from_line, to_line) {
            if mode == 0 {
                draw_object_normal(frame, mem, regs, from_line, to_line, a0, a1, a2);
            } else {
                draw_object_affine(frame, mem, regs, from_line, to_line, a0, a1, a2);
            }
        }
        proof {
            assert forall|i: int| 0 <= i < FRAME_PIXELS implies #[trigger] frame.layers[0]@[i] == objs_fold(*mem, disp, window, from_line as int, to_line as int, k + 1, i, o[i]) by {
                assert(before[i] == objs_fold(*mem, disp, window, from_line as int, to_line as int, k as int, i, o[i]));
            }
        }
        k = k + 1;
    }
}

/// The layers and windows of a frame.
pub ghost struct FrameView {
    pub top: Seq<u32>,
    pub bottom: Seq<u32>,
    pub window: Seq<u8>,
}

impl Gpu2DFrame {
    pub open spec fn view(&self) -> FrameView {
        FrameView { top: self.layers[0]@, bottom: self.layers[1]@, window: self.window@ }
    }
}

/// The windows after those of lines `from` to `to` are drawn.
pub open spec fn windows_after(window: Seq<u8>, regs: Gpu2DRenderRegs, from: int, to: int) -> Seq<u8> {
    let disp = regs.disp_cnts@[from];
    Seq::new(
        FRAME_PIXELS as nat,
        |i: int|
            if from * 256 <= i < to * 256 {
                if disp & 0xE000 != 0 {
                    window_at(regs, disp, i / 256, i % 256)
                } else {
                    FRAME_WINDOW_DEFAULT
                }
            } else {
                window[i]
            },
    )
}

/// The top layer after the objects of lines `from` to `to` are drawn.
pub open spec fn objects_after(top: Seq<u32>, window: Seq<u8>, mem: Gpu2DMem, regs: Gpu2DRenderRegs, from: int, to: int) -> Seq<u32> {
    let disp = regs.disp_cnts@[from];
    Seq::new(
        FRAME_PIXELS as nat,
        |i: int|
            if disp & 0x1000 != 0 {
                objs_fold(mem, disp, window, from, to, 128, i, top[i])
            } else {
                top[i]
            },
    )
}

/// The layers after the backgrounds of lines `from` to `to` are drawn.
pub open spec fn bgs_after(
    top: Seq<u32>,
    bottom: Seq<u32>,
    window: Seq<u8>,
    mem: Gpu2DMem,
    regs: Gpu2DRenderRegs,
    from: int,
    to: int,
) -> (Seq<u32>, Seq<u32>) {
    let disp = regs.disp_cnts@[from];
    let l = |i: int| bgs_at(disp, mem, regs, window, run_start(regs, from, to, i / 256), i, (top[i], bottom[i]));
    (
        Seq::new(FRAME_PIXELS as nat, |i: int| if from * 256 <= i < to * 256 { l(i).0 } else { top[i] }),
        Seq::new(FRAME_PIXELS as nat, |i: int| if from * 256 <= i < to * 256 { l(i).1 } else { bottom[i] }),
    )
}

/// A frame after lines `from` to `to`, which share their display control,
/// are drawn: windows, then objects, then backgrounds.
pub open spec fn run_after(f: FrameView, mem: Gpu2DMem, regs: Gpu2DRenderRegs, from: int, to: int) -> FrameView {
    let w = windows_after(f.window, regs, from, to);
    let t = objects_after(f.top, w, mem, regs, from, to);
    let b = bgs_after(t, f.bottom, w, mem, regs, from, to);
    FrameView { top: b.0, bottom: b.1, window: w }
}

/// Whether drawing lines `from` to `to` over `f` stays within what this
/// renderer draws and within the memories.
pub open spec fn run_ok(f: FrameView, mem: Gpu2DMem, regs: Gpu2DRenderRegs, from: int, to: int) -> bool {
    let w = windows_after(f.window, regs, from, to);
    let disp = regs.disp_cnts@[from];
    &&& disp & 0x1000 != 0 ==> objs_ok(mem, disp, w, from, to)
    &&& forall|bg: int| 0 <= bg < 4 ==> #[trigger] bg_kind(disp, bg) != 3
    &&& bgs_reads_ok(mem, regs, w, disp, from, to)
}

/// The first line from `line` on whose display control differs from that
/// of line `start`, or the screen height.
pub open spec fn disp_run_end(regs: Gpu2DRenderRegs, start: int, line: int) -> int
    decreases 192 - line,
{
    if line >= 192 {
        192
    } else if regs.disp_cnts@[line] == regs.disp_cnts@[start] {
        disp_run_end(regs, start, line + 1)
    } else {
        line
    }
}

pub proof fn lemma_disp_run_end(regs: Gpu2DRenderRegs, start: int, line: int)
    requires
        line <= 192,
    ensures
        line <= disp_run_end(regs, start, line) <= 192,
    decreases 192 - line,
{
    if line < 192 && regs.disp_cnts@[line] == regs.disp_cnts@[start] {
        lemma_disp_run_end(regs, start, line + 1);
    }
}

/// A frame after the runs of lines with equal display control from `line`
/// on are drawn over `f`.
pub open spec fn frame_from(f: FrameView, mem: Gpu2DMem, regs: Gpu2DRenderRegs, line: int) -> FrameView
    decreases 192 - line,
{
    if line >= 192 || line < 0 {
        f
    } else {
        let e = disp_run_end(regs, line, line + 1);
        proof {
            lemma_disp_run_end(regs, line, line + 1);
        }
        frame_from(run_after(f, mem, regs, line, e), mem, regs, e)
    }
}

/// Whether drawing the runs from `line` on over `f` stays within what this
/// renderer draws and within the memories.
pub open spec fn frame_ok_from(f: FrameView, mem: Gpu2DMem, regs: Gpu2DRenderRegs, line: int) -> bool
    decreases 192 - line,
{
    if line >= 192 || line < 0 {
        true
    } else {
        let e = disp_run_end(regs, line, line + 1);
        proof {
            lemma_disp_run_end(regs, line, line + 1);
        }
        run_ok(f, mem, regs, line, e) && frame_ok_from(run_after(f, mem, regs, line, e), mem, regs, e)
    }
}

/// `f` with both layers filled with the backdrop: color 0 of the
/// palettes, its alpha bit cleared.
pub open spec fn backdrop_filled(f: FrameView, pal: Seq<u8>) -> FrameView {
    let c = rgba8_of(le_u16(pal, 0) & 0x7FFF);
    FrameView { top: Seq::new(FRAME_PIXELS as nat, |i: int| c), bottom: Seq::new(FRAME_PIXELS as nat, |i: int| c), window: f.window }
}

/// Draws a frame of a 2D engine: both layers filled with the backdrop,
/// then for each run of lines with equal display control its windows,
/// objects and backgrounds.
pub fn draw(frame: &mut Gpu2DFrame, mem: &Gpu2DMem, regs: &Gpu2DRenderRegs)
    requires
        old(frame).wf(),
        mem.pal@.len() >= 2,
        frame_ok_from(backdrop_filled(old(frame).view(), mem.pal@), *mem, *regs, 0),
    ensures
        final(frame).wf(),
        final(frame).view() == frame_from(backdrop_filled(old(frame).view(), mem.pal@), *mem, *regs, 0),
{
    let backdrop = read_u16_le(mem.pal, 0) & 0x7FFF;
    frame.fill_pixels(backdrop);
    proof {
        assert(frame.view().top =~= backdrop_filled(old(frame).view(), mem.pal@).top);
        assert(frame.view().bottom =~= backdrop_filled(old(frame).view(), mem.pal@).bottom);
    }
    let ghost target = frame_from(backdrop_filled(old(frame).view(), mem.pal@), *mem, *regs, 0);
    let mut line: usize = 0;
    while line < DISPLAY_HEIGHT
        invariant
            line <= DISPLAY_HEIGHT,
            frame.wf(),
            frame_from(frame.view(), *mem, *regs, line as int) == target,
            frame_ok_from(frame.view(), *mem, *regs, line as int),
        decreases DISPLAY_HEIGHT - line,
    {
        let from = line;
        let from_disp = regs.disp_cnts[from];
        line = line + 1;
        while line < DISPLAY_HEIGHT && regs.disp_cnts[line] == from_disp
            invariant
                from < line <= DISPLAY_HEIGHT,
                from_disp == regs.disp_cnts@[from as int],
                disp_run_end(*regs, from as int, from + 1) == disp_run_end(*regs, from as int, line as int),
            decreases DISPLAY_HEIGHT - line,
        {
            line = line + 1;
        }
        let ghost f0 = frame.view();
        proof {
            assert(disp_run_end(*regs, from as int, from + 1) == line);
        }
        draw_windows(frame, regs, from, line);
        proof {
            assert(frame.window@ =~= windows_after(f0.window, *regs, from as int, line as int));
        }
        let ghost w = frame.window@;
        draw_objects(frame, mem, regs, from, line);
        proof {
            assert(frame.layers[0]@ =~= objects_after(f0.top, w, *mem, *regs, from as int, line as int));
        }
        let ghost t = frame.layers[0]@;
        assert(frame.layers[1]@ == f0.bottom);
        assert(frame.window@ == w);
        draw_bgs(frame, mem, regs, from, line);
        proof {
            let b = bgs_after(t, f0.bottom, w, *mem, *regs, from as int, line as int);
            assert forall|i: int| 0 <= i < FRAME_PIXELS implies frame.layers[1]@[i] == b.1[i] by {
                let l = bgs_at(regs.disp_cnts@[from as int], *mem, *regs, w, run_start(*regs, from as int, line as int, i / 256), i, (t[i], f0.bottom[i]));
                assert((frame.layers[0]@[i], frame.layers[1]@[i]) == if from * 256 <= i < line * 256 {
                    l
                } else {
                    (t[i], f0.bottom[i])
                });
            }
            assert(frame.layers[0]@ =~= b.0);
            assert(frame.layers[1]@ =~= b.1);
            assert(frame.view() == run_after(f0, *mem, *regs, from as int, line as int));
        }
    }
}

/// The software renderer of both 2D engines: a frame for each.
pub struct Gpu2DSoftRenderer {
    pub frames: [Gpu2DFrame; 2],
}

impl Gpu2DSoftRenderer {
    /// Both frames empty.
    pub fn new() -> (r: Self)
        ensures
            r.frames[0].wf(),
            r.frames[1].wf(),
    {
        Gpu2DSoftRenderer { frames: [Gpu2DFrame::new(), Gpu2DFrame::new()] }
    }
}

pub proof fn lemma_attr_fields(a: u16)
    by (bit_vector)
    ensures
        a >> 14u16 <= 3,
        (a >> 8u16) & 3 <= 3,
        (a >> 10u16) & 3 <= 3,
        (a >> 12u16) <= 0xF,
        a & 0x1FF <= 0x1FF,
        a & 0xFF <= 0xFF,
        a & 0x3FF <= 0x3FF,
        (a >> 8u16) & 0x1F <= 0x1F,
        (a >> 2u16) & 0xF <= 0xF,
        a & 3 <= 3,
        (a >> 9u16) & 0xF <= 0xF,
        (a >> 9u16) & 1 <= 1,
        a & 0x1F <= 0x1F,
        a & 0x0F <= 0x0F,
        a & 0x3FF & !0x1Fu16 <= 0x3FF,
        a & 0x3FF & !0x0Fu16 <= 0x3FF,
{
}

/// Byte fields of a word, and the field ranges of a layer word.
proof fn lemma_word_bytes(w: u32)
    by (bit_vector)
    ensures
        w & 0xFF < 256,
        (w >> 8u32) & 0xFF < 256,
        (w >> 16u32) & 0xFF < 256,
        w >> 24u32 < 256,
        (w & 0xFFFF) & 0xFF == w & 0xFF,
        ((w & 0xFFFF) >> 8u32) & 0xFF == (w >> 8u32) & 0xFF,
        (w & 0xE000 != 0) == (w & 0x2000 != 0 || w & 0x4000 != 0 || w & 0x8000 != 0),
        (w >> 27u32) & 7 <= 7,
        (w >> 25u32) & 3 <= 3,
        (w | 0x8000_0000) | 0x8000_0000 == w | 0x8000_0000,
        (w >> 20u32) & 3 <= 3,
        w & 0xF <= 15,
        (w >> 27u32) & 7 <= 7,
        (w >> 24u32) & 7 <= 7,
{
}

} // verus!
