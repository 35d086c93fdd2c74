use vstd::prelude::*;
use crate::graphics::gpu::DISPLAY_HEIGHT;
use crate::graphics::gpu_2d::registers_2d::{DispCnt, Gpu2DRegisters};

verus! {

/// Two half words side by side, `lo` in the low half.
pub open spec fn pack16(lo: u16, hi: u16) -> u32 {
    (lo as u32) | ((hi as u32) << 16u32)
}

/// The blend control, both alpha coefficients and the brightness
/// coefficient of a line in one word, as the shader reads them.
pub open spec fn blend_word(r: Gpu2DRegisters) -> u32 {
    let eva = (r.bld_alpha & 0x1F) as u32;
    let evb = (r.bld_alpha >> 8u16) as u32;
    (r.bld_cnt as u32) | (eva << 16u32) | (evb << 21u32) | ((r.bld_y as u32) << 26u32)
}

/// The distance that a reference point has moved by line `l` is at most one
/// step of at most 0x8000 per line since line 0.
pub open spec fn movement_bounded(s: Seq<i32>) -> bool {
    &&& s.len() == 384
    &&& forall|k: int|
        0 <= k < 384 ==> {
            let l = if k < 192 {
                k
            } else {
                k - 192
            };
            -0x8000 * l <= #[trigger] s[k] <= 0x8000 * l
        }
}

/// The reference point movement of line `l` of one background: restarted
/// at zero, or one more step from the line before.
pub open spec fn moved(prev: Seq<i32>, k: int, step: i16, restart: bool) -> i32 {
    if restart {
        0
    } else {
        (step + prev[k - 1]) as i32
    }
}

/// The memories a 2D engine draws from: the LCDC view of VRAM, its
/// background and object VRAM, its palettes and object attributes, and its
/// extended palettes.
pub struct Gpu2DMem<'a> {
    pub lcdc: &'a [u8],
    pub bg: &'a [u8],
    pub obj: &'a [u8],
    pub pal: &'a [u8],
    pub oam: &'a [u8],
    pub bg_ext_pal: &'a [u8],
    pub obj_ext_pal: &'a [u8],
}

/// Window bounds and layer enables of each line.
#[derive(Clone)]
pub struct WinBgUbo {
    pub win_h_v: [u32; 384],
    pub win_in_out: [u32; 192],
}

/// Scroll offsets and rotation parameters of each line.
#[derive(Clone)]
pub struct BgUbo {
    pub ofs: [u32; 768],
    pub x: [i32; 384],
    pub y: [i32; 384],
    pub pa: [i32; 384],
    pub pb: [i32; 384],
    pub pc: [i32; 384],
    pub pd: [i32; 384],
}

/// Blend settings of each line.
#[derive(Clone)]
pub struct BlendUbo {
    pub bld_cnts_alphas_ys: [u32; 192],
}

/// The registers of a 2D engine as they were on each line of a frame, for
/// the renderer.
#[derive(Clone)]
pub struct Gpu2DRenderRegs {
    pub disp_cnts: [u32; 192],
    pub bg_cnts: [u16; 768],
    pub win_bg_ubo: WinBgUbo,
    pub bg_ubo: BgUbo,
    pub blend_ubo: BlendUbo,
}

impl Gpu2DRenderRegs {
    /// The accumulated reference point movements stay in range.
    pub open spec fn wf(&self) -> bool {
        &&& movement_bounded(self.bg_ubo.pb@)
        &&& movement_bounded(self.bg_ubo.pd@)
    }

    /// Registers of a frame with every line zero.
    pub fn new() -> (r: Self)
        ensures
            r.wf(),
            r.disp_cnts@ == Seq::new(192, |i: int| 0u32),
            r.bg_cnts@ == Seq::new(768, |i: int| 0u16),
            r.bg_ubo.pb@ == Seq::new(384, |i: int| 0i32),
            r.bg_ubo.pd@ == Seq::new(384, |i: int| 0i32),
    {
        let r = Gpu2DRenderRegs {
            disp_cnts: [0u32; 192],
            bg_cnts: [0u16; 768],
            win_bg_ubo: WinBgUbo { win_h_v: [0u32; 384], win_in_out: [0u32; 192] },
            bg_ubo: BgUbo {
                ofs: [0u32; 768],
                x: [0i32; 384],
                y: [0i32; 384],
                pa: [0i32; 384],
                pb: [0i32; 384],
                pc: [0i32; 384],
                pd: [0i32; 384],
            },
            blend_ubo: BlendUbo { bld_cnts_alphas_ys: [0u32; 192] },
        };
        assert(r.disp_cnts@ =~= Seq::new(192, |i: int| 0u32));
        assert(r.bg_cnts@ =~= Seq::new(768, |i: int| 0u16));
        assert(r.bg_ubo.pb@ =~= Seq::new(384, |i: int| 0i32));
        assert(r.bg_ubo.pd@ =~= Seq::new(384, |i: int| 0i32));
        r
    }

    /// Clears the display and background controls of every line.
    pub fn reset(&mut self)
        requires
            old(self).wf(),
        ensures
            final(self).wf(),
            final(self).disp_cnts@ == Seq::new(192, |i: int| 0u32),
            final(self).bg_cnts@ == Seq::new(768, |i: int| 0u16),
            final(self).win_bg_ubo.win_h_v == old(self).win_bg_ubo.win_h_v,
            final(self).win_bg_ubo.win_in_out == old(self).win_bg_ubo.win_in_out,
            final(self).bg_ubo == old(self).bg_ubo,
            final(self).blend_ubo == old(self).blend_ubo,
    {
        self.disp_cnts = [0u32; 192];
        self.bg_cnts = [0u16; 768];
        assert(self.disp_cnts@ =~= Seq::new(192, |i: int| 0u32));
        assert(self.bg_cnts@ =~= Seq::new(768, |i: int| 0u16));
    }

    /// Records the registers of line `line`; a reference point that was
    /// written, or the first line, restarts the movement at zero.
    pub fn on_scanline(&mut self, inner: &mut Gpu2DRegisters, line: u8)
        requires
            old(self).wf(),
            (line as usize) < DISPLAY_HEIGHT,
        ensures
            final(self).wf(),
            ({
                let l = line as int;
                let i = *old(inner);
                let o = *old(self);
                let f = *final(self);
                let restart_x = line == 0 || i.bg_x_dirty;
                let restart_y = line == 0 || i.bg_y_dirty;
                &&& f.disp_cnts@ == o.disp_cnts@.update(l, i.disp_cnt.0)
                &&& f.bg_cnts@ == o.bg_cnts@.update(4 * l, i.bg_cnt@[0].0).update(
                    4 * l + 1,
                    i.bg_cnt@[1].0,
                ).update(4 * l + 2, i.bg_cnt@[2].0).update(4 * l + 3, i.bg_cnt@[3].0)
                &&& f.win_bg_ubo.win_h_v@ == o.win_bg_ubo.win_h_v@.update(
                    2 * l,
                    pack16(i.win_h@[0], i.win_v@[0]),
                ).update(2 * l + 1, pack16(i.win_h@[1], i.win_v@[1]))
                &&& f.win_bg_ubo.win_in_out@ == o.win_bg_ubo.win_in_out@.update(
                    l,
                    pack16(i.win_in, i.win_out),
                )
                &&& f.bg_ubo.ofs@ == o.bg_ubo.ofs@.update(
                    4 * l,
                    pack16(i.bg_h_ofs@[0], i.bg_v_ofs@[0]),
                ).update(4 * l + 1, pack16(i.bg_h_ofs@[1], i.bg_v_ofs@[1])).update(
                    4 * l + 2,
                    pack16(i.bg_h_ofs@[2], i.bg_v_ofs@[2]),
                ).update(4 * l + 3, pack16(i.bg_h_ofs@[3], i.bg_v_ofs@[3]))
                &&& f.bg_ubo.x@ == o.bg_ubo.x@.update(l, i.bg_x@[0]).update(192 + l, i.bg_x@[1])
                &&& f.bg_ubo.y@ == o.bg_ubo.y@.update(l, i.bg_y@[0]).update(192 + l, i.bg_y@[1])
                &&& f.bg_ubo.pa@ == o.bg_ubo.pa@.update(l, i.bg_pa@[0] as i32).update(
                    192 + l,
                    i.bg_pa@[1] as i32,
                )
                &&& f.bg_ubo.pc@ == o.bg_ubo.pc@.update(l, i.bg_pc@[0] as i32).update(
                    192 + l,
                    i.bg_pc@[1] as i32,
                )
                &&& f.bg_ubo.pb@ == o.bg_ubo.pb@.update(
                    l,
                    moved(o.bg_ubo.pb@, l, i.bg_pb@[0], restart_x),
                ).update(192 + l, moved(o.bg_ubo.pb@, 192 + l, i.bg_pb@[1], restart_x))
                &&& f.bg_ubo.pd@ == o.bg_ubo.pd@.update(
                    l,
                    moved(o.bg_ubo.pd@, l, i.bg_pd@[0], restart_y),
                ).update(192 + l, moved(o.bg_ubo.pd@, 192 + l, i.bg_pd@[1], restart_y))
                &&& f.blend_ubo.bld_cnts_alphas_ys@ == o.blend_ubo.bld_cnts_alphas_ys@.update(
                    l,
                    blend_word(i),
                )
            }),
            *final(inner) == (Gpu2DRegisters {
                bg_x_dirty: false,
                bg_y_dirty: false,
                ..*old(inner)
            }),
    {
        let l = line as usize;
        self.disp_cnts[l] = inner.disp_cnt.0;
        self.bg_cnts[l * 4] = inner.bg_cnt[0].0;
        self.bg_cnts[l * 4 + 1] = inner.bg_cnt[1].0;
        self.bg_cnts[l * 4 + 2] = inner.bg_cnt[2].0;
        self.bg_cnts[l * 4 + 3] = inner.bg_cnt[3].0;

        self.win_bg_ubo.win_h_v[l * 2] = inner.win_h[0] as u32 | ((inner.win_v[0] as u32) << 16u32);
        self.win_bg_ubo.win_h_v[l * 2 + 1] = inner.win_h[1] as u32 | ((inner.win_v[1] as u32)
            << 16u32);
        self.win_bg_ubo.win_in_out[l] = inner.win_in as u32 | ((inner.win_out as u32) << 16u32);

        self.bg_ubo.ofs[l * 4] = (inner.bg_h_ofs[0] as u32) | ((inner.bg_v_ofs[0] as u32) << 16u32);
        self.bg_ubo.ofs[l * 4 + 1] = (inner.bg_h_ofs[1] as u32) | ((inner.bg_v_ofs[1] as u32)
            << 16u32);
        self.bg_ubo.ofs[l * 4 + 2] = (inner.bg_h_ofs[2] as u32) | ((inner.bg_v_ofs[2] as u32)
            << 16u32);
        self.bg_ubo.ofs[l * 4 + 3] = (inner.bg_h_ofs[3] as u32) | ((inner.bg_v_ofs[3] as u32)
            << 16u32);

        self.bg_ubo.x[l] = inner.bg_x[0];
        self.bg_ubo.x[192 + l] = inner.bg_x[1];
        self.bg_ubo.y[l] = inner.bg_y[0];
        self.bg_ubo.y[192 + l] = inner.bg_y[1];
        self.bg_ubo.pa[l] = inner.bg_pa[0] as i32;
        self.bg_ubo.pa[192 + l] = inner.bg_pa[1] as i32;
        self.bg_ubo.pc[l] = inner.bg_pc[0] as i32;
        self.bg_ubo.pc[192 + l] = inner.bg_pc[1] as i32;

        let ghost pb0 = self.bg_ubo.pb@;
        if l == 0 || inner.bg_x_dirty {
            self.bg_ubo.pb[l] = 0;
            self.bg_ubo.pb[192 + l] = 0;
            inner.bg_x_dirty = false;
        } else {
            assert(-0x8000 * (l - 1) <= pb0[l - 1] <= 0x8000 * (l - 1));
            assert(-0x8000 * (l - 1) <= pb0[191 + l] <= 0x8000 * (l - 1));
            self.bg_ubo.pb[l] = inner.bg_pb[0] as i32 + self.bg_ubo.pb[l - 1];
            self.bg_ubo.pb[192 + l] = inner.bg_pb[1] as i32 + self.bg_ubo.pb[191 + l];
        }

        let ghost pd0 = self.bg_ubo.pd@;
        if l == 0 || inner.bg_y_dirty {
            self.bg_ubo.pd[l] = 0;
            self.bg_ubo.pd[192 + l] = 0;
            inner.bg_y_dirty = false;
        } else {
            assert(-0x8000 * (l - 1) <= pd0[l - 1] <= 0x8000 * (l - 1));
            assert(-0x8000 * (l - 1) <= pd0[191 + l] <= 0x8000 * (l - 1));
            self.bg_ubo.pd[l] = inner.bg_pd[0] as i32 + self.bg_ubo.pd[l - 1];
            self.bg_ubo.pd[192 + l] = inner.bg_pd[1] as i32 + self.bg_ubo.pd[191 + l];
        }

        let eva = (inner.bld_alpha & 0x1F) as u32;
        let evb = (inner.bld_alpha >> 8u16) as u32;
        self.blend_ubo.bld_cnts_alphas_ys[l] = (inner.bld_cnt as u32) | (eva << 16u32) | (evb
            << 21u32) | ((inner.bld_y as u32) << 26u32);
    }

    /// The display control of line `line`.
    pub fn disp_cnt(&self, line: usize) -> (r: u32)
        requires
            line < DISPLAY_HEIGHT,
        ensures
            r == self.disp_cnts@[line as int],
    {
        self.disp_cnts[line]
    }

    /// The control of background `bg` on line `line`.
    pub fn bg_cnt(&self, line: usize, bg: usize) -> (r: u16)
        requires
            line < DISPLAY_HEIGHT,
            bg < 4,
        ensures
            r == self.bg_cnts@[4 * line + bg],
    {
        self.bg_cnts[line * 4 + bg]
    }

    /// The horizontal and vertical offsets of background `bg` on line `line`.
    pub fn ofs(&self, line: usize, bg: usize) -> (r: (u16, u16))
        requires
            line < DISPLAY_HEIGHT,
            bg < 4,
        ensures
            r.0 == self.bg_ubo.ofs@[4 * line + bg] as u16,
            r.1 == (self.bg_ubo.ofs@[4 * line + bg] >> 16u32) as u16,
    {
        let ofs = self.bg_ubo.ofs[line * 4 + bg];
        (ofs as u16, (ofs >> 16u32) as u16)
    }
}

/// The line registers of both engines, double buffered: index 0 holds the
/// finished frame that the renderer reads, index 1 the frame being recorded.
pub struct Gpu2DRenderRegsShared {
    pub regs_a: [Box<Gpu2DRenderRegs>; 2],
    pub regs_b: [Box<Gpu2DRenderRegs>; 2],
    pub has_vram_display: [bool; 2],
}

fn swap_pair(pair: &mut [Box<Gpu2DRenderRegs>; 2])
    ensures
        final(pair)@[0] == old(pair)@[1],
        final(pair)@[1] == old(pair)@[0],
{
    let (l, r) = pair.split_at_mut(1);
    std::mem::swap(&mut l[0], &mut r[0]);
}

impl Gpu2DRenderRegsShared {
    /// All four frames well formed.
    pub open spec fn wf(&self) -> bool {
        &&& self.regs_a@[0].wf()
        &&& self.regs_a@[1].wf()
        &&& self.regs_b@[0].wf()
        &&& self.regs_b@[1].wf()
    }

    /// Four frames of zero registers, no VRAM display.
    pub fn new() -> (r: Self)
        ensures
            r.wf(),
            r.has_vram_display@ == seq![false, false],
    {
        let r = Gpu2DRenderRegsShared {
            regs_a: [Box::new(Gpu2DRenderRegs::new()), Box::new(Gpu2DRenderRegs::new())],
            regs_b: [Box::new(Gpu2DRenderRegs::new()), Box::new(Gpu2DRenderRegs::new())],
            has_vram_display: [false; 2],
        };
        assert(r.has_vram_display@ =~= seq![false, false]);
        r
    }

    /// Clears the finished frames and starts a new frame.
    pub fn init(&mut self)
        requires
            old(self).wf(),
        ensures
            final(self).wf(),
            final(self).has_vram_display@ == seq![false, false],
            final(self).regs_a@[0].disp_cnts@ == Seq::new(192, |i: int| 0u32),
            final(self).regs_b@[0].disp_cnts@ == Seq::new(192, |i: int| 0u32),
            final(self).regs_a@[1].disp_cnts@ == Seq::new(192, |i: int| 0u32),
            final(self).regs_b@[1].disp_cnts@ == Seq::new(192, |i: int| 0u32),
    {
        self.regs_a[0].reset();
        self.regs_b[0].reset();
        self.has_vram_display[0] = false;
        self.reload_registers();
        assert(self.has_vram_display@ =~= seq![false, false]);
    }

    /// Records line `line` of both engines; a line with VRAM display on
    /// engine A marks the frame as showing VRAM.
    pub fn on_scanline(&mut self, inner_a: &mut Gpu2DRegisters, inner_b: &mut Gpu2DRegisters, line: u8)
        requires
            old(self).wf(),
            (line as usize) < DISPLAY_HEIGHT,
        ensures
            final(self).wf(),
            final(self).regs_a@[1].disp_cnts@ == old(self).regs_a@[1].disp_cnts@.update(
                line as int,
                old(inner_a).disp_cnt.0,
            ),
            final(self).regs_b@[1].disp_cnts@ == old(self).regs_b@[1].disp_cnts@.update(
                line as int,
                old(inner_b).disp_cnt.0,
            ),
            final(self).regs_a@[0] == old(self).regs_a@[0],
            final(self).regs_b@[0] == old(self).regs_b@[0],
            final(self).has_vram_display@ == old(self).has_vram_display@.update(
                1,
                old(self).has_vram_display@[1] || old(inner_a).disp_cnt.spec_display_mode() == 2,
            ),
            !final(inner_a).bg_x_dirty && !final(inner_a).bg_y_dirty,
            !final(inner_b).bg_x_dirty && !final(inner_b).bg_y_dirty,
    {
        self.regs_a[1].on_scanline(inner_a, line);
        self.regs_b[1].on_scanline(inner_b, line);
        let mode = DispCnt(self.regs_a[1].disp_cnts[line as usize]).display_mode();
        if mode == 2 {
            self.has_vram_display[1] = true;
        }
    }

    /// Hands the recorded frame to the renderer: the two frames of each
    /// engine change places.
    pub fn on_scanline_finish(&mut self)
        requires
            old(self).wf(),
        ensures
            final(self).wf(),
            final(self).regs_a@[0] == old(self).regs_a@[1],
            final(self).regs_a@[1] == old(self).regs_a@[0],
            final(self).regs_b@[0] == old(self).regs_b@[1],
            final(self).regs_b@[1] == old(self).regs_b@[0],
            final(self).has_vram_display@ == old(self).has_vram_display@.update(
                0,
                old(self).has_vram_display@[1],
            ),
    {
        swap_pair(&mut self.regs_a);
        swap_pair(&mut self.regs_b);
        self.has_vram_display[0] = self.has_vram_display[1];
    }

    /// Starts recording a new frame.
    pub fn reload_registers(&mut self)
        requires
            old(self).wf(),
        ensures
            final(self).wf(),
            final(self).regs_a@[0] == old(self).regs_a@[0],
            final(self).regs_b@[0] == old(self).regs_b@[0],
            final(self).regs_a@[1].disp_cnts@ == Seq::new(192, |i: int| 0u32),
            final(self).regs_b@[1].disp_cnts@ == Seq::new(192, |i: int| 0u32),
            final(self).regs_a@[1].bg_cnts@ == Seq::new(768, |i: int| 0u16),
            final(self).regs_b@[1].bg_cnts@ == Seq::new(768, |i: int| 0u16),
            final(self).has_vram_display@ == old(self).has_vram_display@.update(1, false),
    {
        self.regs_a[1].reset();
        self.regs_b[1].reset();
        self.has_vram_display[1] = false;
    }
}

} // verus!
