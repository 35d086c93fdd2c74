use vstd::prelude::*;
use crate::graphics::gpu::DISPLAY_HEIGHT;
use crate::graphics::gpu_2d::renderer_regs_2d::Gpu2DRenderRegs;
use crate::graphics::gpu_2d::renderer_soft_2d::{
    BgMode, lemma_attr_fields, obj_8bit, obj_attr, obj_gfx_mode, obj_in_lines, obj_in_range, obj_mode, obj_shift_w, obj_shifts, p2, pow2_u32,
};
use crate::cartridge_layout::read_u16_le;

verus! {

// The choices of the hardware 2D renderer: which lines it draws together,
// which background programs it runs, and which objects it hands to the
// object program. The drawing itself is done by the graphics driver.

/// Whether lines `a` and `b` share their display control and, for
/// backgrounds, their four background controls.
pub open spec fn lines_alike(regs: Gpu2DRenderRegs, a: int, b: int, is_bg: bool) -> bool {
    &&& regs.disp_cnts@[a] == regs.disp_cnts@[b]
    &&& is_bg ==> regs.bg_cnts@.subrange(4 * a, 4 * a + 4) == regs.bg_cnts@.subrange(4 * b, 4 * b + 4)
}

/// The first line from `line` on whose registers differ from those of line
/// `start`, or the screen height.
pub open spec fn scan_run_end(regs: Gpu2DRenderRegs, start: int, line: int, is_bg: bool) -> int
    decreases DISPLAY_HEIGHT - line,
{
    if line >= DISPLAY_HEIGHT {
        DISPLAY_HEIGHT as int
    } else if lines_alike(regs, start, line, is_bg) {
        scan_run_end(regs, start, line + 1, is_bg)
    } else {
        line
    }
}

pub proof fn lemma_scan_run_end(regs: Gpu2DRenderRegs, start: int, line: int, is_bg: bool)
    requires
        line <= DISPLAY_HEIGHT,
    ensures
        line <= scan_run_end(regs, start, line, is_bg) <= DISPLAY_HEIGHT,
    decreases DISPLAY_HEIGHT - line,
{
    if line < DISPLAY_HEIGHT && lines_alike(regs, start, line, is_bg) {
        lemma_scan_run_end(regs, start, line + 1, is_bg);
    }
}

/// Whether a run of lines starting at `from` is drawn: with the LCDC
/// palette present, runs that display VRAM directly are drawn only by the
/// VRAM display pass.
pub open spec fn run_drawn(regs: Gpu2DRenderRegs, from: int, vram_display: bool, lcdc_pal: bool) -> bool {
    if lcdc_pal && (regs.disp_cnts@[from] >> 16u32) & 3 == 2 {
        vram_display
    } else {
        true
    }
}

/// The runs of lines, from line `line` to the bottom of the screen, that a
/// drawing pass draws: each run as its first line and the line after its
/// last, the runs made of consecutive lines with alike registers.
pub open spec fn scan_runs_from(regs: Gpu2DRenderRegs, line: int, vram_display: bool, lcdc_pal: bool, is_bg: bool) -> Seq<(int, int)>
    decreases DISPLAY_HEIGHT - line,
{
    if line < 0 || line >= DISPLAY_HEIGHT {
        Seq::empty()
    } else {
        let e = scan_run_end(regs, line, line + 1, is_bg);
        proof {
            lemma_scan_run_end(regs, line, line + 1, is_bg);
        }
        let rest = scan_runs_from(regs, e, vram_display, lcdc_pal, is_bg);
        if run_drawn(regs, line, vram_display, lcdc_pal) {
            seq![(line, e)] + rest
        } else {
            rest
        }
    }
}

/// Whether line `a` has the background controls of line `b`.
fn same_bg_cnts(regs: &Gpu2DRenderRegs, a: usize, b: usize) -> (r: bool)
    requires
        a < DISPLAY_HEIGHT,
        b < DISPLAY_HEIGHT,
    ensures
        r == (regs.bg_cnts@.subrange(4 * a, 4 * a + 4) == regs.bg_cnts@.subrange(4 * b, 4 * b + 4)),
{
    let s = regs.bg_cnts[4 * a] == regs.bg_cnts[4 * b] && regs.bg_cnts[4 * a + 1] == regs.bg_cnts[4 * b + 1]
        && regs.bg_cnts[4 * a + 2] == regs.bg_cnts[4 * b + 2] && regs.bg_cnts[4 * a + 3] == regs.bg_cnts[4 * b + 3];
    proof {
        let x = regs.bg_cnts@.subrange(4 * a, 4 * a + 4);
        let y = regs.bg_cnts@.subrange(4 * b, 4 * b + 4);
        if s {
            assert(x =~= y);
        } else {
            assert(x != y) by {
                if x == y {
                    assert(x[0] == y[0] && x[1] == y[1] && x[2] == y[2] && x[3] == y[3]);
                }
            }
        }
    }
    s
}

/// The runs of lines that a drawing pass draws, top to bottom: lines are
/// drawn together while their display control (and, for backgrounds, their
/// background controls) stays the same; with the LCDC palette present, runs
/// that display VRAM directly are left to the VRAM display pass, which
/// draws only those.
pub fn scanline_runs(regs: &Gpu2DRenderRegs, draw_vram_display: bool, lcdc_pal: bool, is_bg: bool) -> (r: Vec<(u8, u8)>)
    ensures
        r@.len() == scan_runs_from(*regs, 0, draw_vram_display, lcdc_pal, is_bg).len(),
        forall|k: int|
            0 <= k < r@.len() ==> r@[k].0 == (#[trigger] scan_runs_from(*regs, 0, draw_vram_display, lcdc_pal, is_bg)[k]).0
                && r@[k].1 == scan_runs_from(*regs, 0, draw_vram_display, lcdc_pal, is_bg)[k].1,
{
    let ghost all = scan_runs_from(*regs, 0, draw_vram_display, lcdc_pal, is_bg);
    let mut runs: Vec<(u8, u8)> = Vec::new();
    let mut line: usize = 0;
    while line < DISPLAY_HEIGHT
        invariant
            line <= DISPLAY_HEIGHT,
            all == scan_runs_from(*regs, 0, draw_vram_display, lcdc_pal, is_bg),
            runs@.len() + scan_runs_from(*regs, line as int, draw_vram_display, lcdc_pal, is_bg).len() == all.len(),
            forall|k: int|
                0 <= k < runs@.len() ==> runs@[k].0 == (#[trigger] all[k]).0 && runs@[k].1 == all[k].1,
            forall|k: int|
                0 <= k < scan_runs_from(*regs, line as int, draw_vram_display, lcdc_pal, is_bg).len()
                    ==> #[trigger] scan_runs_from(*regs, line as int, draw_vram_display, lcdc_pal, is_bg)[k] == all[runs@.len() + k],
        decreases DISPLAY_HEIGHT - line,
    {
        let from_line = line;
        let from_disp_cnt = regs.disp_cnts[from_line];
        line = line + 1;
        while line < DISPLAY_HEIGHT
            invariant
                from_line < line <= DISPLAY_HEIGHT,
                from_disp_cnt == regs.disp_cnts@[from_line as int],
                scan_run_end(*regs, from_line as int, from_line + 1, is_bg) == scan_run_end(*regs, from_line as int, line as int, is_bg),
            ensures
                from_line < line <= DISPLAY_HEIGHT,
                scan_run_end(*regs, from_line as int, from_line + 1, is_bg) == line,
            decreases DISPLAY_HEIGHT - line,
        {
            if from_disp_cnt != regs.disp_cnts[line] || (is_bg && !same_bg_cnts(regs, from_line, line)) {
                break;
            }
            line = line + 1;
        }
        let ghost rest = scan_runs_from(*regs, line as int, draw_vram_display, lcdc_pal, is_bg);
        let ghost here = scan_runs_from(*regs, from_line as int, draw_vram_display, lcdc_pal, is_bg);
        let ghost done = runs@.len();
        let mut drawn = true;
        if lcdc_pal {
            if (from_disp_cnt >> 16u32) & 3 == 2 {
                drawn = draw_vram_display;
            }
        }
        if drawn {
            proof {
                assert(here == seq![(from_line as int, line as int)] + rest);
                assert(all[done as int] == here[0]);
                assert forall|k: int| 0 <= k < rest.len() implies #[trigger] rest[k] == all[done + 1 + k] by {
                    assert(here[k + 1] == all[done + (k + 1)]);
                }
            }
            runs.push((from_line as u8, line as u8));
        } else {
            assert(here == rest);
        }
    }
    runs
}

/// A background program of the hardware renderer.
#[derive(Clone, Copy, Debug, PartialEq, Eq, Structural)]
pub enum BgProgram {
    Text4bpp,
    Text8bpp,
    Affine,
    AffineExtended,
    Bitmap,
    Display3d,
}

/// The program that draws a background in mode `mode` with control
/// `bg_cnt`: text and extended backgrounds by their 256-color bit (bit 7);
/// large backgrounds have none.
pub open spec fn spec_bg_program(mode: BgMode, bg_cnt: u16) -> Option<BgProgram> {
    match mode {
        BgMode::Text => if bg_cnt & 0x80 != 0 {
            Some(BgProgram::Text8bpp)
        } else {
            Some(BgProgram::Text4bpp)
        },
        BgMode::Affine => Some(BgProgram::Affine),
        BgMode::Extended => if bg_cnt & 0x80 != 0 {
            Some(BgProgram::Bitmap)
        } else {
            Some(BgProgram::AffineExtended)
        },
        BgMode::Large => None,
        BgMode::Display3d => Some(BgProgram::Display3d),
    }
}

/// The program that draws a background in mode `mode` with control
/// `bg_cnt`, if there is one.
pub fn bg_program(mode: BgMode, bg_cnt: u16) -> (r: Option<BgProgram>)
    ensures
        r == spec_bg_program(mode, bg_cnt),
{
    match mode {
        BgMode::Text => if bg_cnt & 0x80 != 0 {
            Some(BgProgram::Text8bpp)
        } else {
            Some(BgProgram::Text4bpp)
        },
        BgMode::Affine => Some(BgProgram::Affine),
        BgMode::Extended => if bg_cnt & 0x80 != 0 {
            Some(BgProgram::Bitmap)
        } else {
            Some(BgProgram::AffineExtended)
        },
        BgMode::Large => None,
        BgMode::Display3d => Some(BgProgram::Display3d),
    }
}

/// The display control bit that shows background `bg` (bits 8 to 11).
pub open spec fn bg_shown_bit(bg: int) -> u32 {
    if bg == 0 {
        0x100
    } else if bg == 1 {
        0x200
    } else if bg == 2 {
        0x400
    } else {
        0x800
    }
}

/// The mode in which the hardware renderer draws background `bg` under
/// display control `disp` in its background pass, if it draws it there:
/// by the background mode (bits 0 to 2), for shown backgrounds; background
/// 0 is left to the 3D pass when it shows the 3D layer (bit 3).
pub open spec fn hw_bg_mode(disp: u32, bg: int) -> Option<BgMode> {
    let mode = disp & 7;
    if disp & bg_shown_bit(bg) == 0 || mode == 7 {
        None
    } else if mode == 6 {
        if bg == 2 {
            Some(BgMode::Large)
        } else {
            None
        }
    } else if bg == 0 {
        if disp & 8 != 0 {
            None
        } else {
            Some(BgMode::Text)
        }
    } else if bg == 1 {
        Some(BgMode::Text)
    } else if bg == 2 {
        if mode == 2 || mode == 4 {
            Some(BgMode::Affine)
        } else if mode == 5 {
            Some(BgMode::Extended)
        } else {
            Some(BgMode::Text)
        }
    } else if mode == 0 {
        Some(BgMode::Text)
    } else if mode <= 2 {
        Some(BgMode::Affine)
    } else {
        Some(BgMode::Extended)
    }
}

/// The draw of background `bg` in the background pass, if any.
pub open spec fn hw_bg_entry(disp: u32, bg: int) -> Seq<(int, BgMode)> {
    match hw_bg_mode(disp, bg) {
        Some(m) => seq![(bg, m)],
        None => Seq::empty(),
    }
}

/// The backgrounds of the background pass in drawing order, 3 down to 0.
pub open spec fn hw_bg_draws(disp: u32) -> Seq<(int, BgMode)> {
    hw_bg_entry(disp, 3) + hw_bg_entry(disp, 2) + hw_bg_entry(disp, 1) + hw_bg_entry(disp, 0)
}

fn hw_bg_mode_of(disp: u32, bg: u8) -> (r: Option<BgMode>)
    requires
        bg < 4,
    ensures
        r == hw_bg_mode(disp, bg as int),
{
    let bit: u32 = if bg == 0 {
        0x100
    } else if bg == 1 {
        0x200
    } else if bg == 2 {
        0x400
    } else {
        0x800
    };
    let mode = disp & 7;
    if disp & bit == 0 || mode == 7 {
        None
    } else if mode == 6 {
        if bg == 2 {
            Some(BgMode::Large)
        } else {
            None
        }
    } else if bg == 0 {
        if disp & 8 != 0 {
            None
        } else {
            Some(BgMode::Text)
        }
    } else if bg == 1 {
        Some(BgMode::Text)
    } else if bg == 2 {
        if mode == 2 || mode == 4 {
            Some(BgMode::Affine)
        } else if mode == 5 {
            Some(BgMode::Extended)
        } else {
            Some(BgMode::Text)
        }
    } else if mode == 0 {
        Some(BgMode::Text)
    } else if mode <= 2 {
        Some(BgMode::Affine)
    } else {
        Some(BgMode::Extended)
    }
}

/// The backgrounds that the background pass draws on lines with display
/// control `disp`, each with its mode, from background 3 down to 0.
pub fn bg_draws(disp: u32) -> (r: Vec<(u8, BgMode)>)
    ensures
        r@.len() == hw_bg_draws(disp).len(),
        forall|k: int|
            0 <= k < r@.len() ==> r@[k].0 == (#[trigger] hw_bg_draws(disp)[k]).0 && r@[k].1 == hw_bg_draws(disp)[k].1,
{
    let mut r: Vec<(u8, BgMode)> = Vec::new();
    let ghost mut done: Seq<(int, BgMode)> = Seq::empty();
    let mut bg: u8 = 4;
    while bg > 0
        invariant
            bg <= 4,
            r@.len() == done.len(),
            forall|k: int| 0 <= k < r@.len() ==> r@[k].0 == (#[trigger] done[k]).0 && r@[k].1 == done[k].1,
            bg == 4 ==> done == Seq::<(int, BgMode)>::empty(),
            bg == 3 ==> done == hw_bg_entry(disp, 3),
            bg == 2 ==> done == hw_bg_entry(disp, 3) + hw_bg_entry(disp, 2),
            bg == 1 ==> done == hw_bg_entry(disp, 3) + hw_bg_entry(disp, 2) + hw_bg_entry(disp, 1),
            bg == 0 ==> done == hw_bg_draws(disp),
        decreases bg,
    {
        bg = bg - 1;
        let m = hw_bg_mode_of(disp, bg);
        if let Some(mode) = m {
            r.push((bg, mode));
        }
        proof {
            done = done + hw_bg_entry(disp, bg as int);
        }
    }
    r
}

/// Whether the 3D pass draws the 3D layer as background 0 on lines with
/// display control `disp`: background modes 0 to 5, background 0 shown
/// (bit 8) and set to the 3D layer (bit 3).
pub fn draws_3d_layer(disp: u32) -> (r: bool)
    ensures
        r == (disp & 7 <= 5 && disp & 0x100 != 0 && disp & 8 != 0),
{
    disp & 7 <= 5 && disp & 0x100 != 0 && disp & 8 != 0
}

/// How the object program reads an object's tiles: the width of its tile
/// map in pixels and where its tiles start.
#[derive(Clone, Copy, Debug, PartialEq, Eq, Structural)]
pub struct ObjAttr {
    pub map_width: u32,
    pub obj_bound: u32,
}

/// The tile reading of each of the 128 objects, as handed to the object
/// program.
pub struct ObjUbo {
    pub attrs: [ObjAttr; 128],
}

/// What the object program is given for one drawing pass: the tile reading
/// of the objects and six vertex indices (two triangles) for each object
/// drawn.
pub struct ObjBatch {
    pub obj_ubo_data: ObjUbo,
    pub obj_oam_indices: Vec<u16>,
}

/// Whether object `i` of the object attribute memory `oam` is drawn in a
/// pass over lines `from` to `to`: enabled, a window object exactly when
/// the pass draws the object window, of a drawable shape, and reaching
/// the lines.
pub open spec fn oam_selected(oam: Seq<u8>, i: int, from: int, to: int, window: bool) -> bool {
    let a0 = obj_attr(oam, i, 0);
    let a1 = obj_attr(oam, i, 1);
    &&& obj_mode(a0) != 2
    &&& (obj_gfx_mode(a0) == 2) == window
    &&& a0 >> 14u16 != 3
    &&& obj_in_range(a0, a1, from, to)
}

/// The bytes between the starts of object tile blocks with one-dimensional
/// tile mapping: 32 shifted left by the boundary field (bits 20 and 21 of
/// the display control).
pub open spec fn tile_boundary_bytes(disp: u32) -> u32 {
    let b = (disp >> 20u32) & 3;
    if b == 0 {
        32
    } else if b == 1 {
        64
    } else if b == 2 {
        128
    } else {
        256
    }
}

/// The tile reading of an object with attributes `a0`, `a1`, `a2` under
/// display control `disp`: bitmap objects by their mapping (bit 6), its
/// boundary (bit 22) or the 2D map width (bit 5); tiled objects by
/// one-dimensional mapping (bit 4) or the 2D map of their color depth.
pub open spec fn obj_attr_for(disp: u32, a0: u16, a1: u16, a2: u16) -> ObjAttr {
    let width = p2(obj_shift_w(a0, a1)) as u32;
    if obj_gfx_mode(a0) == 3 {
        if disp & 0x40 != 0 {
            ObjAttr { map_width: width, obj_bound: ((a2 & 0x3FF) as int * (if disp & 0x40_0000 != 0 { 256int } else { 128int })) as u32 }
        } else if disp & 0x20 != 0 {
            ObjAttr { map_width: 256, obj_bound: ((a2 & 0x1F) as int * 0x10 + (a2 & 0x3FF & !0x1Fu16) as int * 0x80) as u32 }
        } else {
            ObjAttr { map_width: 128, obj_bound: ((a2 & 0x0F) as int * 0x10 + (a2 & 0x3FF & !0x0Fu16) as int * 0x80) as u32 }
        }
    } else if disp & 0x10 != 0 {
        ObjAttr { map_width: width, obj_bound: tile_boundary_bytes(disp) }
    } else {
        ObjAttr { map_width: if obj_8bit(a0) { 128 } else { 256 }, obj_bound: 32 }
    }
}

/// The six vertex indices of object `i`: its quad as two triangles.
pub open spec fn oam_quad(i: int) -> Seq<u16> {
    seq![(4 * i) as u16, (4 * i + 1) as u16, (4 * i + 2) as u16, (4 * i) as u16, (4 * i + 2) as u16, (4 * i + 3) as u16]
}

/// The vertex indices of the drawn objects among objects 0 to `n - 1`,
/// in object order.
pub open spec fn oam_indices(oam: Seq<u8>, n: int, from: int, to: int, window: bool) -> Seq<u16>
    decreases n,
{
    if n <= 0 {
        Seq::empty()
    } else if oam_selected(oam, n - 1, from, to, window) {
        oam_indices(oam, n - 1, from, to, window) + oam_quad(n - 1)
    } else {
        oam_indices(oam, n - 1, from, to, window)
    }
}

/// The highest drawn object among objects 0 to `n - 1`, or 0.
pub open spec fn oam_highest(oam: Seq<u8>, n: int, from: int, to: int, window: bool) -> int
    decreases n,
{
    if n <= 0 {
        0
    } else if oam_selected(oam, n - 1, from, to, window) {
        n - 1
    } else {
        oam_highest(oam, n - 1, from, to, window)
    }
}

impl ObjBatch {
    /// No objects to draw, every tile reading zero.
    pub fn new() -> (r: Self)
        ensures
            r.obj_oam_indices@.len() == 0,
            forall|i: int| 0 <= i < 128 ==> #[trigger] r.obj_ubo_data.attrs@[i] == (ObjAttr { map_width: 0, obj_bound: 0 }),
    {
        ObjBatch { obj_ubo_data: ObjUbo { attrs: [ObjAttr { map_width: 0, obj_bound: 0 }; 128] }, obj_oam_indices: Vec::new() }
    }

    /// Collects the objects of the object attribute memory `oam` that a
    /// pass over lines `from_line` to `to_line` (not included) draws, the
    /// object window pass when `window` holds: their vertex indices in
    /// object order and their tile reading under display control
    /// `disp_cnt`. Returns the highest object drawn, or 0.
    pub fn assemble_oam(&mut self, oam: &[u8], from_line: u8, to_line: u8, disp_cnt: u32, window: bool) -> (r: usize)
        requires
            oam@.len() >= 0x400,
            from_line < to_line <= DISPLAY_HEIGHT,
        ensures
            final(self).obj_oam_indices@ == oam_indices(oam@, 128, from_line as int, to_line as int, window),
            forall|i: int|
                0 <= i < 128 ==> #[trigger] final(self).obj_ubo_data.attrs@[i] == if oam_selected(oam@, i, from_line as int, to_line as int, window) {
                    obj_attr_for(disp_cnt, obj_attr(oam@, i, 0), obj_attr(oam@, i, 1), obj_attr(oam@, i, 2))
                } else {
                    old(self).obj_ubo_data.attrs@[i]
                },
            r == oam_highest(oam@, 128, from_line as int, to_line as int, window),
    {
        let ghost from = from_line as int;
        let ghost to = to_line as int;
        let mut highest_index: usize = 0;
        self.obj_oam_indices.clear();
        let mut i: usize = 0;
        while i < 128
            invariant
                i <= 128,
                oam@.len() >= 0x400,
                from_line < to_line <= DISPLAY_HEIGHT,
                from == from_line as int,
                to == to_line as int,
                self.obj_oam_indices@ == oam_indices(oam@, i as int, from, to, window),
                highest_index == oam_highest(oam@, i as int, from, to, window),
                forall|j: int|
                    0 <= j < 128 ==> #[trigger] self.obj_ubo_data.attrs@[j] == if j < i && oam_selected(oam@, j, from, to, window) {
                        obj_attr_for(disp_cnt, obj_attr(oam@, j, 0), obj_attr(oam@, j, 1), obj_attr(oam@, j, 2))
                    } else {
                        old(self).obj_ubo_data.attrs@[j]
                    },
            decreases 128 - i,
        {
            let a0 = read_u16_le(oam, 8 * i);
            let a1 = read_u16_le(oam, 8 * i + 2);
            let a2 = read_u16_le(oam, 8 * i + 4);
            proof {
                lemma_attr_fields(a0);
                lemma_attr_fields(a1);
                lemma_attr_fields(a2);
                assert(a0 == obj_attr(oam@, i as int, 0));
                assert(a1 == obj_attr(oam@, i as int, 1));
                assert(a2 == obj_attr(oam@, i as int, 2));
            }
            let obj_mode_v = (a0 >> 8u16) & 3;
            let gfx_mode = (a0 >> 10u16) & 3;
            let selected = obj_mode_v != 2 && (gfx_mode == 2) == window && a0 >> 14u16 != 3 && obj_in_lines(
                a0,
                a1,
                from_line as usize,
                to_line as usize,
            );
            if selected {
                let (sw, _sh) = obj_shifts(a0, a1);
                let width = pow2_u32(sw);
                let attr = if gfx_mode == 3 {
                    if disp_cnt & 0x40 != 0 {
                        let unit: u32 = if disp_cnt & 0x40_0000 != 0 {
                            256
                        } else {
                            128
                        };
                        ObjAttr { map_width: width, obj_bound: (a2 & 0x3FF) as u32 * unit }
                    } else if disp_cnt & 0x20 != 0 {
                        ObjAttr { map_width: 256, obj_bound: (a2 & 0x1F) as u32 * 0x10 + (a2 & 0x3FF & !0x1Fu16) as u32 * 0x80 }
                    } else {
                        ObjAttr { map_width: 128, obj_bound: (a2 & 0x0F) as u32 * 0x10 + (a2 & 0x3FF & !0x0Fu16) as u32 * 0x80 }
                    }
                } else if disp_cnt & 0x10 != 0 {
                    let b = (disp_cnt >> 20u32) & 3;
                    let bound: u32 = if b == 0 {
                        32
                    } else if b == 1 {
                        64
                    } else if b == 2 {
                        128
                    } else {
                        256
                    };
                    ObjAttr { map_width: width, obj_bound: bound }
                } else {
                    ObjAttr {
                        map_width: if a0 & 0x2000 != 0 {
                            128
                        } else {
                            256
                        },
                        obj_bound: 32,
                    }
                };
                self.obj_ubo_data.attrs[i] = attr;
                let index_base = (i * 4) as u16;
                self.obj_oam_indices.push(index_base);
                self.obj_oam_indices.push(index_base + 1);
                self.obj_oam_indices.push(index_base + 2);
                self.obj_oam_indices.push(index_base);
                self.obj_oam_indices.push(index_base + 2);
                self.obj_oam_indices.push(index_base + 3);
                proof {
                    assert(self.obj_oam_indices@ =~= oam_indices(oam@, i as int, from, to, window) + oam_quad(i as int));
                }
                highest_index = i;
            }
            i = i + 1;
        }
        highest_index
    }

    /// The object pass over lines `from_line` to `to_line` (not included)
    /// under display control `disp_cnt`, the object window pass when
    /// `window` holds: nothing when objects are not shown (bit 12) or, for
    /// the window pass, the object window is off (bit 15); otherwise the
    /// objects are collected, and the highest object drawn is returned
    /// when there is any object to draw.
    pub fn prepare_objects(&mut self, oam: &[u8], from_line: u8, to_line: u8, disp_cnt: u32, window: bool) -> (r: Option<usize>)
        requires
            oam@.len() >= 0x400,
            from_line < to_line <= DISPLAY_HEIGHT,
        ensures
            (disp_cnt & 0x1000 == 0 || (window && disp_cnt & 0x8000 == 0)) ==> r is None && final(self).obj_oam_indices@
                == old(self).obj_oam_indices@ && final(self).obj_ubo_data.attrs@ == old(self).obj_ubo_data.attrs@,
            !(disp_cnt & 0x1000 == 0 || (window && disp_cnt & 0x8000 == 0)) ==> {
                &&& final(self).obj_oam_indices@ == oam_indices(oam@, 128, from_line as int, to_line as int, window)
                &&& forall|i: int|
                    0 <= i < 128 ==> #[trigger] final(self).obj_ubo_data.attrs@[i] == if oam_selected(oam@, i, from_line as int, to_line as int, window) {
                        obj_attr_for(disp_cnt, obj_attr(oam@, i, 0), obj_attr(oam@, i, 1), obj_attr(oam@, i, 2))
                    } else {
                        old(self).obj_ubo_data.attrs@[i]
                    }
                &&& r == if final(self).obj_oam_indices@.len() == 0 {
                    None
                } else {
                    Some(oam_highest(oam@, 128, from_line as int, to_line as int, window) as usize)
                }
            },
    {
        if disp_cnt & 0x1000 == 0 || (window && disp_cnt & 0x8000 == 0) {
            return None;
        }
        let highest = self.assemble_oam(oam, from_line, to_line, disp_cnt, window);
        if self.obj_oam_indices.len() == 0 {
            None
        } else {
            Some(highest)
        }
    }
}

proof fn lemma_scan_run_alike(regs: Gpu2DRenderRegs, start: int, line: int, is_bg: bool)
    requires
        0 <= start < line <= DISPLAY_HEIGHT,
        forall|l: int| start <= l < line ==> #[trigger] lines_alike(regs, start, l, is_bg),
    ensures
        line <= scan_run_end(regs, start, line, is_bg) <= DISPLAY_HEIGHT,
        forall|l: int| start <= l < scan_run_end(regs, start, line, is_bg) ==> #[trigger] lines_alike(regs, start, l, is_bg),
    decreases DISPLAY_HEIGHT - line,
{
    if line < DISPLAY_HEIGHT && lines_alike(regs, start, line, is_bg) {
        lemma_scan_run_alike(regs, start, line + 1, is_bg);
    }
}

proof fn lemma_runs_tile(regs: Gpu2DRenderRegs, line: int, is_bg: bool)
    requires
        0 <= line < DISPLAY_HEIGHT,
    ensures
        ({
            let runs = scan_runs_from(regs, line, false, false, is_bg);
            &&& runs.len() >= 1
            &&& runs[0].0 == line
            &&& runs.last().1 == DISPLAY_HEIGHT
            &&& forall|k: int| 0 <= k < runs.len() - 1 ==> #[trigger] runs[k].1 == runs[k + 1].0
            &&& forall|k: int| 0 <= k < runs.len() ==> #[trigger] runs[k].0 < runs[k].1
            &&& forall|k: int, l: int| 0 <= k < runs.len() && runs[k].0 <= l < runs[k].1 ==> #[trigger] lines_alike(regs, runs[k].0, l, is_bg)
        }),
    decreases DISPLAY_HEIGHT - line,
{
    assert(lines_alike(regs, line, line, is_bg));
    lemma_scan_run_alike(regs, line, line + 1, is_bg);
    let e = scan_run_end(regs, line, line + 1, is_bg);
    let runs = scan_runs_from(regs, line, false, false, is_bg);
    if e < DISPLAY_HEIGHT {
        lemma_runs_tile(regs, e, is_bg);
        let rest = scan_runs_from(regs, e, false, false, is_bg);
        assert(runs == seq![(line, e)] + rest);
        assert forall|k: int| 0 <= k < runs.len() - 1 implies #[trigger] runs[k].1 == runs[k + 1].0 by {
            if k > 0 {
                assert(runs[k] == rest[k - 1] && runs[k + 1] == rest[k]);
            }
        }
        assert forall|k: int, l: int| 0 <= k < runs.len() && runs[k].0 <= l < runs[k].1 implies #[trigger] lines_alike(regs, runs[k].0, l, is_bg) by {
            if k > 0 {
                assert(runs[k] == rest[k - 1]);
            }
        }
    } else {
        assert(scan_runs_from(regs, e, false, false, is_bg) == Seq::<(int, int)>::empty());
        assert(runs == seq![(line, e)]);
    }
}

/// Without the LCDC palette, the runs of a drawing pass tile the screen:
/// the first starts at line 0, each ends where the next starts, the last
/// ends at the bottom, none is empty, and every line of a run has the
/// registers of its first line.
pub proof fn law_runs_tile_screen(regs: Gpu2DRenderRegs, is_bg: bool)
    ensures
        ({
            let runs = scan_runs_from(regs, 0, false, false, is_bg);
            &&& runs.len() >= 1
            &&& runs[0].0 == 0
            &&& runs.last().1 == DISPLAY_HEIGHT
            &&& forall|k: int| 0 <= k < runs.len() - 1 ==> #[trigger] runs[k].1 == runs[k + 1].0
            &&& forall|k: int| 0 <= k < runs.len() ==> #[trigger] runs[k].0 < runs[k].1
            &&& forall|k: int, l: int| 0 <= k < runs.len() && runs[k].0 <= l < runs[k].1 ==> #[trigger] lines_alike(regs, runs[k].0, l, is_bg)
        }),
{
    lemma_runs_tile(regs, 0, is_bg);
}

/// The object number of each of the four corners of the 128 object quads,
/// as the object program's vertex attribute.
pub fn generate_oam_indices() -> (r: [u8; 512])
    ensures
        forall|i: int| 0 <= i < 512 ==> #[trigger] r@[i] == (i / 4) as u8,
{
    let mut indices = [0u8; 512];
    let mut i: usize = 0;
    while i < 512
        invariant
            i <= 512,
            i % 4 == 0,
            forall|j: int| 0 <= j < i ==> #[trigger] indices@[j] == (j / 4) as u8,
        decreases 512 - i,
    {
        let q = (i / 4) as u8;
        indices[i] = q;
        indices[i + 1] = q;
        indices[i + 2] = q;
        indices[i + 3] = q;
        i = i + 4;
    }
    indices
}

} // verus!
