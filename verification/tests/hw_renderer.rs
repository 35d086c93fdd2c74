use dsvita::graphics::gpu_3d::renderer_3d::{expanded_clear_depth, Gpu3DRendererRegs};
use dsvita::graphics::gpu_2d::renderer_2d::{bg_draws, bg_program, draws_3d_layer, generate_oam_indices, scanline_runs, BgProgram, ObjAttr, ObjBatch};
use dsvita::graphics::gpu_2d::renderer_regs_2d::Gpu2DRenderRegs;
use dsvita::graphics::gpu_2d::renderer_soft_2d::BgMode;

fn put_obj(oam: &mut [u8], i: usize, a0: u16, a1: u16, a2: u16) {
    let b = 8 * i;
    oam[b..b + 2].copy_from_slice(&a0.to_le_bytes());
    oam[b + 2..b + 4].copy_from_slice(&a1.to_le_bytes());
    oam[b + 4..b + 6].copy_from_slice(&a2.to_le_bytes());
}

fn disabled_oam() -> Vec<u8> {
    let mut oam = vec![0u8; 0x400];
    for i in 0..128 {
        // Object mode 2: disabled.
        put_obj(&mut oam, i, 0x0200, 0, 0);
    }
    oam
}

#[test]
fn lines_with_the_same_registers_are_drawn_together() {
    let mut regs = Gpu2DRenderRegs::new();
    assert_eq!(scanline_runs(&regs, false, false, false), vec![(0u8, 192u8)]);
    for l in 50..100 {
        regs.disp_cnts[l] = 0x100;
    }
    assert_eq!(scanline_runs(&regs, false, false, false), vec![(0, 50), (50, 100), (100, 192)]);
    // Background controls split runs only in the background pass.
    regs.bg_cnts[4 * 120 + 2] = 5;
    assert_eq!(scanline_runs(&regs, false, false, false), vec![(0, 50), (50, 100), (100, 192)]);
    assert_eq!(scanline_runs(&regs, false, false, true), vec![(0, 50), (50, 100), (100, 120), (120, 121), (121, 192)]);
}

#[test]
fn vram_display_runs_go_to_their_own_pass() {
    let mut regs = Gpu2DRenderRegs::new();
    for l in 10..20 {
        regs.disp_cnts[l] = 2 << 16;
    }
    assert_eq!(scanline_runs(&regs, false, true, false), vec![(0, 10), (20, 192)]);
    assert_eq!(scanline_runs(&regs, true, true, false), vec![(0, 10), (10, 20), (20, 192)]);
    // Without the LCDC palette every run is drawn.
    assert_eq!(scanline_runs(&regs, false, false, false), vec![(0, 10), (10, 20), (20, 192)]);
}

#[test]
fn background_modes_pick_programs() {
    assert_eq!(bg_program(BgMode::Text, 0), Some(BgProgram::Text4bpp));
    assert_eq!(bg_program(BgMode::Text, 0x80), Some(BgProgram::Text8bpp));
    assert_eq!(bg_program(BgMode::Affine, 0x80), Some(BgProgram::Affine));
    assert_eq!(bg_program(BgMode::Extended, 0), Some(BgProgram::AffineExtended));
    assert_eq!(bg_program(BgMode::Extended, 0x80), Some(BgProgram::Bitmap));
    assert_eq!(bg_program(BgMode::Large, 0), None);
    assert_eq!(bg_program(BgMode::Display3d, 0), Some(BgProgram::Display3d));
}

#[test]
fn background_pass_follows_the_mode_table() {
    // Mode 0, all four shown: text, 3 down to 0.
    assert_eq!(bg_draws(0xF00), vec![(3u8, BgMode::Text), (2, BgMode::Text), (1, BgMode::Text), (0, BgMode::Text)]);
    // Mode 5: both rotating backgrounds extended.
    assert_eq!(bg_draws(0xF05), vec![(3u8, BgMode::Extended), (2, BgMode::Extended), (1, BgMode::Text), (0, BgMode::Text)]);
    // Mode 4 with background 0 on the 3D layer and background 1 hidden.
    assert_eq!(bg_draws(0xD0C), vec![(3u8, BgMode::Extended), (2, BgMode::Affine)]);
    // Mode 6 draws only the large background 2.
    assert_eq!(bg_draws(0xF06), vec![(2u8, BgMode::Large)]);
    assert_eq!(bg_draws(0xF07), vec![]);
    assert!(draws_3d_layer(0x108));
    assert!(!draws_3d_layer(0x106 | 8));
    assert!(!draws_3d_layer(0x008));
}

#[test]
fn objects_reaching_the_lines_are_batched() {
    let mut oam = disabled_oam();
    // Object 3: 16x16 normal object at (10, 20), tile 5.
    put_obj(&mut oam, 3, 20, 0x4000 | 10, 5);
    // Object 7: 8x8 at line 150, below the lines drawn.
    put_obj(&mut oam, 7, 150, 0, 0);
    // Object 9: 8x8 window object at line 30.
    put_obj(&mut oam, 9, 30 | (2 << 10), 0, 0);
    let mut batch = ObjBatch::new();
    // One-dimensional tile mapping with boundary 1.
    let disp = 0x1010 | (1 << 20);
    let highest = batch.assemble_oam(&oam, 0, 100, disp, false);
    assert_eq!(highest, 3);
    assert_eq!(batch.obj_oam_indices, vec![12, 13, 14, 12, 14, 15]);
    assert_eq!(batch.obj_ubo_data.attrs[3], ObjAttr { map_width: 16, obj_bound: 64 });
    assert_eq!(batch.obj_ubo_data.attrs[7], ObjAttr { map_width: 0, obj_bound: 0 });

    let highest = batch.assemble_oam(&oam, 0, 100, disp, true);
    assert_eq!(highest, 9);
    assert_eq!(batch.obj_oam_indices, vec![36, 37, 38, 36, 38, 39]);

    assert_eq!(batch.prepare_objects(&oam, 0, 100, disp & !0x1000, false), None);
    assert_eq!(batch.prepare_objects(&oam, 0, 100, disp, true), None);
    assert_eq!(batch.prepare_objects(&oam, 0, 100, disp | 0x8000, true), Some(9));
    assert_eq!(batch.prepare_objects(&oam, 160, 192, disp, false), None);
}

#[test]
fn bitmap_objects_read_by_their_mapping() {
    let mut oam = disabled_oam();
    // 32x32 bitmap object (graphics mode 3), tile field 0x123.
    put_obj(&mut oam, 0, 3 << 10, 0x8000, 0x123);
    let mut batch = ObjBatch::new();
    batch.assemble_oam(&oam, 0, 192, 0x1000 | 0x40 | (1 << 22), false);
    assert_eq!(batch.obj_ubo_data.attrs[0], ObjAttr { map_width: 32, obj_bound: 0x123 * 256 });
    batch.assemble_oam(&oam, 0, 192, 0x1000 | 0x20, false);
    assert_eq!(batch.obj_ubo_data.attrs[0], ObjAttr { map_width: 256, obj_bound: 0x03 * 0x10 + 0x120 * 0x80 });
    batch.assemble_oam(&oam, 0, 192, 0x1000, false);
    assert_eq!(batch.obj_ubo_data.attrs[0], ObjAttr { map_width: 128, obj_bound: 0x03 * 0x10 + 0x120 * 0x80 });
    // A 256-color tiled object with two-dimensional mapping.
    put_obj(&mut oam, 1, 0x2000, 0, 0);
    batch.assemble_oam(&oam, 0, 192, 0x1000, false);
    assert_eq!(batch.obj_ubo_data.attrs[1], ObjAttr { map_width: 128, obj_bound: 32 });
}

#[test]
fn renderer_registers_mark_changes_for_redraw() {
    let mut r = Gpu3DRendererRegs::new();
    assert!(!r.dirty);
    assert_eq!(r.inners[1].clear_depth, 0x7FFF);
    // Writing what is there changes nothing.
    r.set_edge_color(3, 0xFFFF, 0x8000);
    assert!(!r.dirty);
    assert_eq!(r.inners[1].edge_colors[3], 0);
    r.set_edge_color(3, 0x00FF, 0x1234);
    assert!(r.dirty);
    assert_eq!(r.inners[1].edge_colors[3], 0x0034);
    assert_eq!(r.inners[0].edge_colors[3], 0);
    r.finish_scanline();
    assert_eq!(r.inners[0].edge_colors[3], 0x0034);

    let mut r = Gpu3DRendererRegs::new();
    r.set_clear_color(0xFFFF_FFFF, 0xFFFF_FFFF);
    assert_eq!(r.inners[1].clear_color, 0x3F1F_FFFF);
    r.set_fog_color(0xFFFF_FFFF, 0xFFFF_FFFF);
    assert_eq!(r.inners[1].fog_color, 0x001F_7FFF);
    r.set_fog_offset(0xFFFF, 0x8123);
    assert_eq!(r.inners[1].fog_offset, 0x0123);
    r.set_toon_table(31, 0xFFFF, 0xFFFF);
    assert_eq!(r.inners[1].toon_table[31], 0x7FFF);
    r.set_clear_depth(0x00FF, 0);
    assert_eq!(r.inners[1].clear_depth, 0x7F00);

    let mut r = Gpu3DRendererRegs::new();
    r.set_fog_table(5, 0xFF);
    assert_eq!(r.inners[1].fog_table[5], 0x7F);
    assert!(r.dirty);
    r.init();
    assert!(!r.dirty);
    r.set_fog_table(5, 0x80);
    assert!(!r.dirty);
}

#[test]
fn display_control_acknowledges_errors() {
    let mut r = Gpu3DRendererRegs::new();
    r.inners[1].disp_cnt = 0x3000;
    // Bits 12 and 13 written as one clear those errors; they are not
    // writable otherwise.
    r.set_disp_3d_cnt(0xFFFF, 0x1001);
    assert_eq!(r.get_disp_3d_cnt(), 0x2001);
    assert!(r.dirty);
    let mut r = Gpu3DRendererRegs::new();
    r.inners[1].disp_cnt = 0x3000;
    r.set_disp_3d_cnt(0xFFFF, 0x3000);
    assert_eq!(r.get_disp_3d_cnt(), 0);
    // The acknowledgement alone leaves the frame clean.
    assert!(!r.dirty);
    r.set_disp_3d_cnt(0x00FF, 0xC0FF);
    assert_eq!(r.get_disp_3d_cnt(), 0x00FF);
    r.set_disp_3d_cnt(0xFFFF, 0xC000);
    assert_eq!(r.get_disp_3d_cnt(), 0x4000);
}

#[test]
fn clear_depth_expands_to_24_bits() {
    assert_eq!(expanded_clear_depth(0), 0);
    assert_eq!(expanded_clear_depth(1), 0x200);
    assert_eq!(expanded_clear_depth(0x7FFE), 0x7FFE * 0x200);
    assert_eq!(expanded_clear_depth(0x7FFF), 0xFF_FFFF);
}

#[test]
fn object_quads_name_their_object() {
    let t = generate_oam_indices();
    assert_eq!(&t[0..8], &[0, 0, 0, 0, 1, 1, 1, 1]);
    assert_eq!(t[511], 127);
    assert_eq!(t[4 * 37 + 2], 37);
}
