use dsvita::graphics::gpu_2d::renderer_regs_2d::{Gpu2DMem, Gpu2DRenderRegs};
use dsvita::graphics::gpu_2d::renderer_soft_2d::{
    draw_bg, draw_bg_3d, draw_bg_text, draw_bgs, draw_object_affine, draw_object_normal, draw_objects,
    draw, draw_windows, mark_hidden_effects, rgba5_to_rgba8_non_norm, BgMode, Gpu2DFrame, Gpu2DSoftRenderer,
};

struct Mems {
    bg: Vec<u8>,
    obj: Vec<u8>,
    pal: Vec<u8>,
    oam: Vec<u8>,
    ext: Vec<u8>,
}

impl Mems {
    fn new() -> Self {
        let mut oam = vec![0u8; 0x400];
        // Every object disabled.
        for k in 0..128 {
            oam[8 * k + 1] = 0x02;
        }
        Mems { bg: vec![0; 0x10000], obj: vec![0; 0x8000], pal: vec![0; 0x400], oam, ext: vec![0; 0x8000] }
    }

    fn view(&self) -> Gpu2DMem<'_> {
        Gpu2DMem {
            lcdc: &self.bg,
            bg: &self.bg,
            obj: &self.obj,
            pal: &self.pal,
            oam: &self.oam,
            bg_ext_pal: &self.ext,
            obj_ext_pal: &self.ext,
        }
    }
}

fn put16(v: &mut [u8], at: usize, x: u16) {
    v[at..at + 2].copy_from_slice(&x.to_le_bytes());
}

/// Tile 1 of character block 1 starts with palette indices 1, 2; screen entry
/// 0 uses it with palette bank 2, whose colors 1 and 2 are set.
fn text_scene(m: &mut Mems, entry: u16) {
    put16(&mut m.bg, 0, entry);
    m.bg[0x4000 + 32] = 0x21;
    put16(&mut m.pal, 64 + 2, 0x1234);
    put16(&mut m.pal, 64 + 4, 0x7C00);
}

#[test]
fn layer_colors_keep_five_bits() {
    assert_eq!(rgba5_to_rgba8_non_norm(0x7FFF), 0x001F_1F1F);
    assert_eq!(rgba5_to_rgba8_non_norm(0x9234), 0x0104_1114);
}

#[test]
fn pixels_respect_priorities() {
    let mut f = Gpu2DFrame::new();
    assert_eq!(f.window[0], 0x3F);
    f.set_obj_pixel(1, 0, 0x7FFF, 2);
    assert_eq!(f.layers[0][1], 0x0A1F_1F1F);
    // A lower priority object does not replace it.
    f.set_obj_pixel(1, 0, 0x001F, 3);
    assert_eq!(f.layers[0][1], 0x0A1F_1F1F);
    f.set_bg_pixel(2, 0, 0x801F, 0, 0);
    assert_eq!(f.layers[0][2], 0x2F00_001F);
    assert_eq!(f.layers[1][2], 0);
    // An object of priority 2 loses against the background pixel.
    f.set_obj_pixel(2, 0, 0x7FFF, 2);
    assert_eq!(f.layers[0][2], 0x2F00_001F);
    // A background of the object's priority goes behind the object.
    f.set_bg_pixel(1, 0, 0x001F, 1, 2);
    assert_eq!(f.layers[0][1], 0x0A1F_1F1F);
    assert_eq!(f.layers[1][1] >> 27, 4);
    f.set_window(3, 1, 0x11, true);
    assert_eq!(f.window[256 + 3], 0x51);
    assert!(f.can_display_pixel(3, 1, 4));
    assert!(!f.can_display_pixel(3, 1, 1));
    f.set_3d_pixel(5, 0, 1);
    assert_eq!(f.layers[0][5], 0x8000_0000);
    assert_eq!(f.layers[1][5], 0x4000_0000);
    f.reset_window(1, 2);
    assert_eq!(f.window[256 + 3], 0x3F);
    f.fill_pixels(0x001F);
    assert_eq!(f.layers[0][1], 0x1F);
    assert_eq!(f.layers[1][49151], 0x1F);
}

#[test]
fn windows_select_layer_enables() {
    let mut regs = Gpu2DRenderRegs::new();
    regs.disp_cnts[0] = 0x2000;
    regs.win_bg_ubo.win_h_v[0] = 0x000A_0205;
    regs.win_bg_ubo.win_in_out[0] = 0x0021_0013;
    let mut f = Gpu2DFrame::new();
    draw_windows(&mut f, &regs, 0, 1);
    assert_eq!(f.window[1], 0x21);
    assert_eq!(f.window[2], 0x53);
    assert_eq!(f.window[4], 0x53);
    assert_eq!(f.window[5], 0x21);
    assert_eq!(f.window[256], 0x3F);
    regs.disp_cnts[0] = 0;
    draw_windows(&mut f, &regs, 0, 1);
    assert_eq!(f.window[2], 0x3F);
}

#[test]
fn text_background_tiles() {
    let mut m = Mems::new();
    text_scene(&mut m, 0x2001);
    let mut regs = Gpu2DRenderRegs::new();
    regs.disp_cnts[0] = 0x100;
    regs.bg_cnts[0] = 0x0004;
    let mut f = Gpu2DFrame::new();
    draw_bg_text(&mut f, &m.view(), &regs, 0, 1, 0);
    assert_eq!(f.layers[0][0], 0x2F04_1114);
    assert_eq!(f.layers[0][1], 0x2F1F_0000);
    assert_eq!(f.layers[0][2], 0);
    assert_eq!(f.layers[1][0], 0);
    assert_eq!(f.layers[0][256], 0);

    // Flipped horizontally the tile's first pixels show at its right edge.
    let mut m = Mems::new();
    text_scene(&mut m, 0x2401);
    let mut f = Gpu2DFrame::new();
    draw_bg(BgMode::Text, &mut f, &m.view(), &regs, 0, 1, 0);
    assert_eq!(f.layers[0][7], 0x2F04_1114);
    assert_eq!(f.layers[0][6], 0x2F1F_0000);
    assert_eq!(f.layers[0][0], 0);

    // Scrolled right by eight the tile leaves the screen's left edge.
    regs.bg_ubo.ofs[0] = 8;
    let mut f = Gpu2DFrame::new();
    draw_bg_text(&mut f, &m.view(), &regs, 0, 1, 0);
    assert_eq!(f.layers[0][7], 0);
    assert_eq!(f.layers[0][255], 0x2F04_1114);
}

#[test]
fn backgrounds_stack_in_order() {
    let mut m = Mems::new();
    text_scene(&mut m, 0x2001);
    let mut regs = Gpu2DRenderRegs::new();
    regs.disp_cnts[0] = 0x300;
    regs.disp_cnts[1] = 0x300;
    for line in 0..2 {
        regs.bg_cnts[4 * line] = 0x0004;
        regs.bg_cnts[4 * line + 1] = 0x0004;
    }
    let mut f = Gpu2DFrame::new();
    draw_bgs(&mut f, &m.view(), &regs, 0, 2);
    // Background 1 is drawn first, background 0 of the same priority goes on top.
    assert_eq!(f.layers[0][0], 0x2F04_1114);
    assert_eq!(f.layers[1][0], 0x2704_1114);
    // Line 1 shows row 1 of the tile, which is empty.
    assert_eq!(f.layers[0][256], 0);

    // The 3D layer marks pixels at the priority of background 0.
    regs.disp_cnts[0] = 0x108;
    regs.bg_cnts[0] = 0x0001;
    let mut f = Gpu2DFrame::new();
    draw_bg_3d(&mut f, &regs, 0, 1);
    assert_eq!(f.layers[0][10], 0x8000_0000);
    assert_eq!(f.layers[1][10], 0x4000_0000);
    assert_eq!(f.layers[0][256], 0);
}

#[test]
fn objects_are_drawn_in_order() {
    let mut m = Mems::new();
    // Object 0: normal, 8x8, at (4, 0), tile 0, palette bank 1, priority 0.
    put16(&mut m.oam, 0, 0x0000);
    put16(&mut m.oam, 2, 0x0004);
    put16(&mut m.oam, 4, 0x1000);
    // Object 1: affine with the identity matrix of group 0, at (20, 0).
    put16(&mut m.oam, 8, 0x0100);
    put16(&mut m.oam, 10, 0x0014);
    put16(&mut m.oam, 12, 0x1000);
    put16(&mut m.oam, 6, 0x100);
    put16(&mut m.oam, 14, 0);
    put16(&mut m.oam, 22, 0);
    put16(&mut m.oam, 30, 0x100);
    m.obj[0] = 0x03;
    m.obj[4] = 0x05;
    put16(&mut m.pal, 0x200 + 32 + 6, 0x03E0);
    put16(&mut m.pal, 0x200 + 32 + 10, 0x001F);
    let mut regs = Gpu2DRenderRegs::new();
    regs.disp_cnts[0] = 0x1010;
    let mut f = Gpu2DFrame::new();
    draw_objects(&mut f, &m.view(), &regs, 0, 1);
    assert_eq!(f.layers[0][4], 0x0F00_1F00);
    assert_eq!(f.layers[0][5], 0);
    assert_eq!(f.layers[0][20], 0x0F00_1F00);
    // Affine objects are drawn whatever the lines asked for.
    assert_eq!(f.layers[0][256 + 20], 0x0F00_001F);
    // The normal object stays within the lines.
    assert_eq!(f.layers[0][256 + 4], 0);

    let mut g = Gpu2DFrame::new();
    draw_object_normal(&mut g, &m.view(), &regs, 0, 2, 0x0000, 0x0004, 0x1000);
    assert_eq!(g.layers[0][4], 0x0F00_1F00);
    assert_eq!(g.layers[0][256 + 4], 0x0F00_001F);
    let mut h = Gpu2DFrame::new();
    draw_object_affine(&mut h, &m.view(), &regs, 0, 1, 0x0100, 0x0014, 0x1000);
    assert_eq!(h.layers[0][20], 0x0F00_1F00);
    // Hidden by its window, an object pixel is not drawn.
    let mut w = Gpu2DFrame::new();
    w.set_window(4, 0, 0x0F, false);
    draw_objects(&mut w, &m.view(), &regs, 0, 1);
    assert_eq!(w.layers[0][4], 0);
    // Without the object display bit nothing is drawn.
    regs.disp_cnts[0] = 0x0010;
    let mut n = Gpu2DFrame::new();
    draw_objects(&mut n, &m.view(), &regs, 0, 1);
    assert_eq!(n.layers[0][4], 0);
}

#[test]
fn hidden_effects_are_marked() {
    let mut f = Gpu2DFrame::new();
    f.set_window(0, 1, 0x1F, false);
    mark_hidden_effects(&mut f);
    assert_eq!(f.layers[1][192], 0x8000_0000);
    assert_eq!(f.layers[1][256], 0);
    assert_eq!(f.layers[0][192], 0);
}

#[test]
fn whole_frame_over_the_backdrop() {
    let mut m = Mems::new();
    text_scene(&mut m, 0x2001);
    put16(&mut m.pal, 0, 0x8011);
    let mut regs = Gpu2DRenderRegs::new();
    for line in 0..192 {
        regs.disp_cnts[line] = 0x100;
        regs.bg_cnts[4 * line] = 0x0004;
    }
    let mut r = Gpu2DSoftRenderer::new();
    draw(&mut r.frames[0], &m.view(), &regs);
    let f = &r.frames[0];
    assert_eq!(f.layers[0][0], 0x2F04_1114);
    assert_eq!(f.layers[1][0], 0x11);
    assert_eq!(f.layers[0][2], 0x11);
    assert_eq!(f.layers[1][2], 0x11);
    assert_eq!(f.window[0], 0x3F);
    assert_eq!(r.frames[1].layers[0][0], 0);
}
