use dsvita::cpu_type::CpuType;
use dsvita::cycle_manager::EventType;
use dsvita::graphics::gpu::Gpu;
use dsvita::graphics::gpu_2d::registers_2d::{BldMode, DispCnt, Gpu2DRegisters};
use dsvita::graphics::gpu_2d::renderer_regs_2d::{Gpu2DRenderRegs, Gpu2DRenderRegsShared};
use dsvita::graphics::gpu_2d::Gpu2DEngine;
use dsvita::graphics::gpu_3d::gx_cmd_fifo::{param_count, GxCmdFifo};
use dsvita::graphics::gpu_3d::matrix_vec::MatrixVec;
use dsvita::graphics::gpu_3d::registers_3d::{Gpu3DRegisters, MtxMode, PrimitiveType, TextureCoordTransMode};
use dsvita::graphics::gpu_mem_buf::GpuMemBuf;

#[test]
fn engine_b_keeps_its_fixed_display_bits() {
    let mut a = Gpu2DRegisters::new(Gpu2DEngine::A);
    let mut b = Gpu2DRegisters::new(Gpu2DEngine::B);
    a.set_disp_cnt(0xFFFF_FFFF, 0xFFFF_FFFF);
    b.set_disp_cnt(0xFFFF_FFFF, 0xFFFF_FFFF);
    assert_eq!(a.get_disp_cnt(), 0xFFFF_FFFF);
    assert_eq!(b.get_disp_cnt(), 0xC0B1_FFF7);
    assert_eq!(DispCnt(0x0002_0000).display_mode(), 2);
    assert!(DispCnt(0x4000).is_any_window_enabled());
    assert!(!DispCnt(0x1FFF).is_any_window_enabled());
}

#[test]
fn reference_points_are_sign_extended() {
    let mut r = Gpu2DRegisters::new(Gpu2DEngine::A);
    r.set_bg_x(2, 0xFFFF_FFFF, 0x0800_0000);
    assert_eq!(r.bg_x[0], -0x0800_0000);
    assert!(r.bg_x_dirty);
    r.set_bg_y(3, 0xFFFF_FFFF, 0xF7FF_FFFF);
    assert_eq!(r.bg_y[1], 0x07FF_FFFF);
    assert_eq!(r.internal.y[1], 0x07FF_FFFF);
    r.set_bg_pa(2, 0xFFFF, 0x8000);
    assert_eq!(r.bg_pa[0], i16::MIN);
}

#[test]
fn blend_coefficients_are_clamped() {
    let mut r = Gpu2DRegisters::new(Gpu2DEngine::A);
    r.set_bld_alpha(0xFFFF, 0x1F1F);
    assert_eq!(r.bld_alpha, 0x1010);
    r.set_bld_alpha(0x00FF, 0x0003);
    assert_eq!(r.bld_alpha, 0x1003);
    r.set_bld_y(0xFF);
    assert_eq!(r.bld_y, 16);
    r.set_bld_y(0x05);
    assert_eq!(r.bld_y, 5);
    r.set_bg_h_ofs(1, 0xFFFF, 0xFFFF);
    assert_eq!(r.bg_h_ofs[1], 0x1FF);
    r.set_win_in(0xFFFF, 0xFFFF);
    assert_eq!(r.win_in, 0x3F3F);
    assert_eq!(BldMode::from_bits(1), BldMode::AlphaBlending);
}

#[test]
fn scanline_records_and_accumulates_movement() {
    let mut regs = Gpu2DRenderRegs::new();
    let mut r = Gpu2DRegisters::new(Gpu2DEngine::A);
    r.set_bg_pb(2, 0xFFFF, 3);
    r.set_bg_pd(3, 0xFFFF, 0xFFFE);
    r.set_win_h(0, 0xFFFF, 0x1234);
    r.set_win_v(0, 0xFFFF, 0x5678);
    regs.on_scanline(&mut r, 0);
    regs.on_scanline(&mut r, 1);
    regs.on_scanline(&mut r, 2);
    assert_eq!(regs.bg_ubo.pb[0], 0);
    assert_eq!(regs.bg_ubo.pb[1], 3);
    assert_eq!(regs.bg_ubo.pb[2], 6);
    assert_eq!(regs.bg_ubo.pd[192 + 2], -4);
    assert_eq!(regs.win_bg_ubo.win_h_v[2], 0x5678_1234);
    r.set_bg_x(2, 0xFFFF_FFFF, 5);
    regs.on_scanline(&mut r, 3);
    assert_eq!(regs.bg_ubo.pb[3], 0);
    assert!(!r.bg_x_dirty);
    assert_eq!(regs.bg_ubo.x[3], 5);
}

#[test]
fn shared_regs_swap_frames() {
    let mut shared = Gpu2DRenderRegsShared::new();
    let mut a = Gpu2DRegisters::new(Gpu2DEngine::A);
    let mut b = Gpu2DRegisters::new(Gpu2DEngine::B);
    a.set_disp_cnt(0xFFFF_FFFF, 0x0002_0000);
    shared.on_scanline(&mut a, &mut b, 10);
    assert!(shared.has_vram_display[1]);
    assert_eq!(shared.regs_a[1].disp_cnt(10), 0x0002_0000);
    shared.on_scanline_finish();
    assert!(shared.has_vram_display[0]);
    assert_eq!(shared.regs_a[0].disp_cnt(10), 0x0002_0000);
    shared.reload_registers();
    assert!(!shared.has_vram_display[1]);
    assert_eq!(shared.regs_a[1].disp_cnt(10), 0);
    shared.init();
    assert!(!shared.has_vram_display[0]);
    assert_eq!(shared.regs_a[0].disp_cnt(10), 0);
}

#[test]
fn gx_fifo_unpacks_commands() {
    assert_eq!(param_count(0x10), 1);
    assert_eq!(param_count(0x11), 0);
    let mut fifo = GxCmdFifo::new();
    assert!(fifo.is_fifo_empty());
    fifo.write(0x0000_1110);
    fifo.write(0x0000_0002);
    // Two words queued: the first four words do not count in the status.
    assert_eq!(fifo.get_fifo_len(), 0);
    assert!(fifo.is_fifo_empty());
    fifo.write(0x1111_1111);
    assert_eq!(fifo.get_fifo_len(), 2);
    assert!(!fifo.is_fifo_empty());
    assert!(!fifo.is_fifo_half_full());
    let first = fifo.pop_cmd();
    assert_eq!(first.cmd, 0x10);
    assert_eq!(first.params[0], 2);
    for _ in 0..5 {
        assert_eq!(fifo.pop_cmd().cmd, 0x11);
    }
    assert_eq!(fifo.get_fifo_len(), 0);
}

fn fresh_3d() -> Gpu3DRegisters {
    let mut g = Gpu3DRegisters::new();
    g.gx_stat = 0;
    g
}

#[test]
fn matrix_push_pop_round_trip() {
    let mut g = fresh_3d();
    let mut params = [0u32; 32];
    params[0] = 1;
    g.exe_mtx_mode(&params);
    assert_eq!(g.mtx_mode, MtxMode::ModelView);
    g.exe_mtx_identity();
    let saved = g.matrices.coord;
    g.exe_mtx_push();
    assert_eq!((g.gx_stat >> 8) & 0x1F, 1);
    let mut load = [0u32; 32];
    for i in 0..16 {
        load[i] = i as u32;
    }
    g.exe_mtx_load44(&load);
    assert_eq!(g.matrices.coord[5], 5);
    g.exe_mtx_pop(&params);
    assert_eq!(g.matrices.coord, saved);
    assert_eq!(g.gx_stat, 0);
    // Popping past the bottom raises the stack error.
    g.exe_mtx_pop(&params);
    assert_ne!(g.gx_stat & 0x8000, 0);
    g.set_gx_stat(0, 0x8000);
    assert_eq!(g.gx_stat & 0x8000, 0);
}

#[test]
fn projection_stack_has_one_slot() {
    let mut g = fresh_3d();
    g.exe_mtx_identity();
    g.exe_mtx_push();
    assert_eq!(g.gx_stat & 0x2000, 0x2000);
    g.exe_mtx_push();
    assert_eq!(g.gx_stat & 0x8000, 0x8000);
    let mut load = [0u32; 32];
    for i in 0..12 {
        load[i] = 7;
    }
    g.exe_mtx_load43(&load);
    assert_eq!(g.matrices.proj[3], 0);
    assert_eq!(g.matrices.proj[15], 0x1000);
    assert_eq!(g.matrices.proj[14], 7);
    g.exe_mtx_pop(&[0u32; 32]);
    assert_eq!(g.matrices.proj[0], 0x1000);
    assert_eq!(g.gx_stat & 0x2000, 0);
}

#[test]
fn matrix_vec_stack() {
    let mut v = MatrixVec::new();
    assert_eq!(v.len(), 0);
    assert!(v.last().is_none());
    let m = [3i32; 16];
    v.push(&m);
    let i = v.push_empty();
    assert_eq!(i, 1);
    assert_eq!(v.len(), 2);
    assert_eq!(v.last(), Some(&[0i32; 16]));
    v.set(1, m);
    assert_eq!(v.get(1), &m);
    v.clear();
    assert_eq!(v.len(), 0);
}

#[test]
fn capture_markers_are_cleared() {
    let mut vram = vec![0u8; 0x80000];
    vram[0x8000..0x8008].copy_from_slice(b"CAPTURE_");
    vram[0x8008] = 1;
    vram[0x20000..0x20008].copy_from_slice(b"CAPTURE_");
    vram[0x10001..0x10009].copy_from_slice(b"CAPTURE_");
    GpuMemBuf::unmark_blocks_as_captured(&mut vram);
    assert_eq!(&vram[0x8000..0x8008], &[0u8; 8]);
    assert_eq!(vram[0x8008], 1);
    assert_eq!(&vram[0x20000..0x20008], &[0u8; 8]);
    assert_eq!(&vram[0x10001..0x10009], b"CAPTURE_");
}

#[test]
fn mem_buf_queues_bank_controls() {
    let mut m = GpuMemBuf::new();
    assert_eq!(m.vram_mem.len(), 0xA4000);
    m.queue_vram(&[0x81, 0, 0, 0, 0, 0, 0, 0, 0x80]);
    assert_eq!(m.vram_cnt, [0; 9]);
    m.use_queued_vram();
    assert_eq!(m.vram_cnt[0], 0x81);
    m.init();
    assert_eq!(m.vram_cnt, [0; 9]);
}

#[test]
fn display_status_through_a_frame() {
    let mut gpu = Gpu::new();
    assert_eq!(Gpu::initialize_schedule(), (1584, EventType::GpuScanline256));
    // Interrupts on vertical blank and horizontal blank for the ARM9, a counter
    // match on line 5 for the ARM7; the flag bits cannot be written.
    gpu.set_disp_stat(CpuType::ARM9, 0xFFFF, 0x0018 | 0x0007);
    assert_eq!(gpu.get_disp_stat(CpuType::ARM9), 0x0018);
    gpu.set_disp_stat(CpuType::ARM7, 0xFFFF, 0x0520);
    let h = gpu.on_scanline256();
    assert_eq!(h.render_line, Some(0));
    assert_eq!(h.h_blank_irq, [true, false]);
    assert_eq!(h.next, (594, EventType::GpuScanline355));
    assert_eq!(gpu.get_disp_stat(CpuType::ARM9) & 0x2, 0x2);
    let mut counter_irqs = 0;
    let mut v_blank_lines = 0;
    for _ in 0..263 {
        gpu.on_scanline256();
        let e = gpu.on_scanline355();
        assert_eq!(e.next, (1536, EventType::GpuScanline256));
        if e.v_counter_irq[1] {
            counter_irqs += 1;
            assert_eq!(gpu.v_count, 5);
            assert_eq!(gpu.get_disp_stat(CpuType::ARM7) & 0x4, 0x4);
        }
        if e.frame_finished {
            assert_eq!(gpu.v_count, 192);
            assert_eq!(e.v_blank_irq, [true, false]);
        }
        if gpu.get_disp_stat(CpuType::ARM9) & 1 != 0 {
            v_blank_lines += 1;
            assert!(gpu.v_count >= 192 && gpu.v_count < 262);
        }
        assert_eq!(gpu.get_disp_stat(CpuType::ARM9) & 0x2, 0);
    }
    assert_eq!(counter_irqs, 1);
    assert_eq!(v_blank_lines, 70);
    assert_eq!(gpu.v_count, 0);
    gpu.set_disp_cap_cnt(0xFFFF_FFFF, 0xFFFF_FFFF);
    assert_eq!(gpu.get_disp_cap_cnt(), 0xEF3F_1F1F);
    gpu.set_pow_cnt1(0xFFFF, 0xFFFF);
    assert_eq!(gpu.pow_cnt1, 0x820F);
}

#[test]
fn enabled_banks_are_copied() {
    let mut m = GpuMemBuf::new();
    // Banks A and I enabled, bank E not.
    m.queue_vram(&[0x80, 0, 0, 0, 0x03, 0, 0, 0, 0x81]);
    let mut vram = vec![0u8; 0xA4000];
    for (i, b) in vram.iter_mut().enumerate() {
        *b = (i % 251) as u8 + 1;
    }
    let vram: Box<[u8; 0xA4000]> = vram.into_boxed_slice().try_into().unwrap();
    m.read_vram(&vram);
    assert_eq!(m.vram_mem[0], 1);
    assert_eq!(m.vram_mem[0x1FFFF], (0x1FFFF % 251) as u8 + 1);
    assert_eq!(m.vram_mem[0x20000], 0);
    assert_eq!(m.vram_mem[0x80000], 0);
    assert_eq!(m.vram_mem[0x9FFFF], 0);
    assert_eq!(m.vram_mem[0xA0000], (0xA0000 % 251) as u8 + 1);
    assert_eq!(m.vram_mem[0xA3FFF], (0xA3FFF % 251) as u8 + 1);
    let pal = [7u8; 0x800];
    let mut oam = [0u8; 0x800];
    oam[0x7FF] = 9;
    m.read_palettes_oam(&pal, &oam);
    assert_eq!(m.pal, vec![7u8; 0x800]);
    assert_eq!(m.oam[0x7FF], 9);
    assert_eq!(m.oam[0], 0);
}

#[test]
fn captures_land_in_marked_blocks() {
    // Capture enabled, bank B (block 1), offset 2, 128x128 pixels.
    let cnt: u32 = 0x8000_0000 | (1 << 16) | (2 << 18);
    let mut bank = Box::new([0xEEu8; 0x20000]);
    GpuMemBuf::mark_block_as_captured(cnt, &mut bank);
    assert_eq!(&bank[0x10000..0x10008], b"CAPTURE_");
    assert_eq!(&bank[0x10008..0x1000C], &cnt.to_le_bytes());
    assert_eq!(bank[0x1000C], 0xEE);
    assert_eq!(bank[0xFFFF], 0xEE);

    let mut m = GpuMemBuf::new();
    m.queue_vram(&[0x80, 0x80, 0, 0, 0, 0, 0, 0, 0]);
    m.use_queued_vram();
    m.vram_mem[0x20000..0x40000].copy_from_slice(&bank[..]);
    // A marked block of bank A whose control word names another block.
    m.vram_mem[0..8].copy_from_slice(b"CAPTURE_");
    m.vram_mem[8..12].copy_from_slice(&cnt.to_le_bytes());
    let capture = vec![0x5Au8; 0x80000];
    let capture: Box<[u8; 0x80000]> = capture.into_boxed_slice().try_into().unwrap();
    m.insert_capture_mem(&capture);
    assert_eq!(&m.vram_mem[0x30000..0x38000], &[0x5Au8; 0x8000][..]);
    assert_eq!(m.vram_mem[0x38000], 0xEE);
    assert_eq!(m.vram_mem[0x2FFFF], 0xEE);
    assert_eq!(&m.vram_mem[0..8], b"CAPTURE_");
}

#[test]
fn geometry_engine_starts_empty() {
    let g = Gpu3DRegisters::new();
    assert_eq!(g.gx_stat, 0x0400_0000);
    assert_eq!(g.matrices.proj[0], 0x1000);
    assert_eq!(g.matrices.coord_stack[31][15], 0x1000);
    assert!(g.tex_mtx_push);
    assert_eq!(g.geometry.cur_viewport, 0xC000_0000);
    assert_eq!(g.geometry.polygons.len(), 8192);
    // Empty, less than half full, not busy, length 0.
    assert_eq!(g.get_gx_stat(), 0x0600_0000);
    assert_eq!(g.get_ram_count(), 0);
}

#[test]
fn packed_commands_are_unpacked() {
    let mut g = Gpu3DRegisters::new();
    // MTX_MODE (one parameter), MTX_PUSH (none), MTX_IDENTITY (none), BEGIN_VTXS (one).
    let full = g.set_gx_fifo(0xFFFF_FFFF, 0x4015_1110);
    assert!(!full);
    assert_eq!(g.queue.cmd_fifo, vec![0x110]);
    assert_eq!(g.queue.cmd_remaining_params, 1);
    g.set_gx_fifo(0xFFFF_FFFF, 2);
    // The mode's parameter, then both commands without parameters, then
    // BEGIN_VTXS waits for its parameter.
    assert_eq!(g.queue.cmd_fifo, vec![0x110, 2, 0x11, 0x15, 0x140]);
    assert_eq!(g.queue.cmd_fifo_len, 3);
    assert!(g.can_run_cmds());
    g.set_gx_fifo_multiple(&[1, 0x72, 0x1234]);
    assert_eq!(g.queue.cmd_fifo, vec![0x110, 2, 0x11, 0x15, 0x140, 1, 0x172, 0x1234]);
    assert_eq!(g.queue.last_cmd, 0);
    assert_eq!(g.queue.test_queue, 1);
    assert_eq!(g.queue.cmd_fifo_len, 5);
    assert_eq!(g.get_cmd_fifo_len(), 1);
    let stat = g.get_gx_stat();
    assert_eq!(stat & 1, 1);
    assert_eq!((stat >> 16) & 0x1FF, 1);
    assert_eq!(stat & 0x0800_0000, 0x0800_0000);
    assert_eq!(stat & 0x0400_0000, 0);
    // A zero word starts nothing.
    g.set_gx_fifo(0xFFFF_FFFF, 0);
    assert_eq!(g.queue.cmd_fifo.len(), 8);
}

#[test]
fn unpacked_ports_queue_the_same() {
    let mut a = Gpu3DRegisters::new();
    a.set_gx_fifo(0xFFFF_FFFF, 0x23);
    a.set_gx_fifo(0xFFFF_FFFF, 0x0001_0002);
    a.set_gx_fifo(0xFFFF_FFFF, 0x0003);
    let mut b = Gpu3DRegisters::new();
    b.queue_unpacked_value::<0x23>(0x0001_0002);
    b.queue_unpacked_value::<0x23>(0x0003);
    assert_eq!(a.queue.cmd_fifo, b.queue.cmd_fifo);
    assert_eq!(a.queue.cmd_fifo_len, b.queue.cmd_fifo_len);
    assert_eq!(a.queue.cmd_remaining_params, b.queue.cmd_remaining_params);
    assert_eq!(b.queue.cmd_fifo, vec![0x223, 0x0001_0002, 3]);
    let mut c = Gpu3DRegisters::new();
    c.queue_unpacked_value::<0x11>(0xDEAD);
    assert_eq!(c.queue.cmd_fifo, vec![0x11]);
    assert_eq!(c.queue.cmd_fifo_len, 1);
}

#[test]
fn fifo_fills_up() {
    let mut g = Gpu3DRegisters::new();
    let mut full = false;
    for _ in 0..259 {
        full = g.queue_unpacked_value::<0x11>(0);
    }
    assert!(!full);
    assert!(g.is_cmd_fifo_half_full());
    assert!(g.queue_unpacked_value::<0x11>(0));
    assert!(g.is_cmd_fifo_full());
    g.queue.processing_offset = 200;
    g.swap_buffers();
    assert_eq!(g.queue.cmd_fifo.len(), 60);
    assert_eq!(g.queue.processing_offset, 0);
    assert!(g.geometry.consume && g.geometry.skip);
}

#[test]
fn polygon_state_commands() {
    let mut g = Gpu3DRegisters::new();
    let mut p = [0u32; 32];
    // x = -1 (0x3FF), y = 511, z = -512.
    p[0] = 0x3FF | (0x1FF << 10) | (0x200 << 20);
    g.exe_normal(&p);
    assert_eq!(g.geometry.cur_polygon.normal, [-8, 511 * 8, -512 * 8]);
    p[0] = 0x8000_1234;
    g.exe_tex_image_param(&p);
    assert_eq!(g.geometry.cur_vtx.tex_coord_trans_mode, TextureCoordTransMode::Normal);
    p[0] = 0x4000_0000;
    g.exe_tex_image_param(&p);
    assert_eq!(g.geometry.cur_vtx.tex_coord_trans_mode, TextureCoordTransMode::TexCoord);
    p[0] = 0xFFFF_0010;
    g.exe_tex_coord(&p);
    assert_eq!(g.geometry.cur_vtx.tex_coords, [0x10, -1]);
    assert_eq!(g.geometry.tex_matrices.len(), 1);
    assert_eq!(g.geometry.cur_vtx.tex_matrix_index, 0);
    assert!(!g.tex_mtx_push);
    g.exe_tex_coord(&p);
    assert_eq!(g.geometry.tex_matrices.len(), 1);
    p[0] = 0xFFFF_FFFF;
    g.exe_pltt_base(&p);
    assert_eq!(g.geometry.cur_polygon.palette_addr, 0x1FFF);
    p[0] = 0x001F_00C0;
    g.exe_polygon_attr(&p);
    p[0] = 0x1234_5678;
    g.exe_viewport(&p);
    p[0] = 3;
    g.exe_begin_vtxs(&p);
    assert_eq!(g.geometry.vertex_list_primitive_type, PrimitiveType::QuadliteralStrips);
    assert_eq!(g.geometry.cur_polygon.attr, 0x001F_00C0);
    assert_eq!(g.geometry.cur_polygon.viewport, 0x1234_5678);
    g.geometry.vertices_size = 6;
    g.geometry.vertex_list_size = 6;
    g.add_polygon();
    assert_eq!(g.geometry.polygons_size, 1);
    assert_eq!(g.geometry.polygons[0].vertices_index, 2);
    assert_eq!(g.geometry.polygons[0].polygon_type, PrimitiveType::QuadliteralStrips);
    assert_eq!(g.get_ram_count(), (6 << 16) | 1);
    // A new list drops nothing when the last polygon was complete ...
    g.exe_begin_vtxs(&[0u32; 32]);
    assert_eq!(g.geometry.vertices_size, 6);
    // ... and the vertices of an unfinished one otherwise.
    g.geometry.vertices_size = 8;
    g.geometry.vertex_list_size = 2;
    g.exe_begin_vtxs(&[0u32; 32]);
    assert_eq!(g.geometry.vertices_size, 6);
    p[0] = 0x1FF;
    g.exe_swap_buffers(&p);
    assert!(g.geometry.flushed);
    assert_eq!(g.geometry.swap_buffers, 0xFF);
    g.queue.test_queue = 1;
    g.exe_box_test(&p);
    assert_eq!(g.gx_stat & 2, 2);
    assert_eq!(g.queue.test_queue, 0);
    g.exe_spe_emi(&p);
    assert_eq!(g.geometry.material_color1, 0x1FF);
    assert_eq!(g.get_pos_result(3), 0);
    assert_eq!(g.get_vec_result(2), 0);
}

#[test]
fn skipped_frames_ignore_vertex_data() {
    let mut g = Gpu3DRegisters::new();
    g.geometry.skip = true;
    let mut p = [0u32; 32];
    p[0] = 0x3FF;
    g.exe_normal(&p);
    g.exe_tex_coord(&p);
    p[0] = 2;
    g.exe_begin_vtxs(&p);
    assert_eq!(g.geometry.cur_polygon.normal, [0, 0, 0]);
    assert_eq!(g.geometry.cur_vtx.tex_coords, [0, 0]);
    assert_eq!(g.geometry.vertex_list_primitive_type, PrimitiveType::SeparateTriangles);
}

#[test]
fn each_engine_gets_its_half_of_palettes_and_oam() {
    let mut m = GpuMemBuf::new();
    let mut pal = [0u8; 0x800];
    let mut oam = [0u8; 0x800];
    pal[0x400] = 7;
    oam[3] = 9;
    m.read_palettes_oam(&pal, &oam);
    let (pa, oa) = m.engine_palettes_oam(false);
    let (pb, ob) = m.engine_palettes_oam(true);
    assert_eq!((pa.len(), oa.len(), pb.len(), ob.len()), (0x400, 0x400, 0x400, 0x400));
    assert_eq!(pb[0], 7);
    assert_eq!(oa[3], 9);
    assert_eq!(pa[0], 0);
}
