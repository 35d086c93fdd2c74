use vstd::prelude::*;
use crate::graphics::gpu_2d::Gpu2DEngine;

verus! {

/// `old` with the bits that `mask` selects taken from `value`.
pub open spec fn merge16(old: u16, mask: u16, value: u16) -> u16 {
    (old & !mask) | (value & mask)
}

/// `old` with the bits that `mask` selects taken from `value`.
pub open spec fn merge32(old: u32, mask: u32, value: u32) -> u32 {
    (old & !mask) | (value & mask)
}

/// A 28-bit two's complement number held in the low bits of `v`.
pub open spec fn sign_extend28(v: u32) -> int {
    let low = (v & 0x0FFF_FFFF) as int;
    if low >= 0x0800_0000 {
        low - 0x1000_0000
    } else {
        low
    }
}

/// `x`, but at most 16.
pub open spec fn clamp16(x: u16) -> u16 {
    if x < 16 {
        x
    } else {
        16
    }
}

/// The display control register of a 2D engine.
#[derive(Clone, Copy, PartialEq, Eq, Structural)]
pub struct DispCnt(pub u32);

impl DispCnt {
    /// Bits 16 and 17: off, layers, VRAM or main memory display.
    pub open spec fn spec_display_mode(self) -> u8 {
        ((self.0 >> 16u32) & 3) as u8
    }

    /// Bits 16 and 17: off, layers, VRAM or main memory display.
    pub fn display_mode(&self) -> (r: u8)
        ensures
            r == self.spec_display_mode(),
    {
        let v = self.0;
        ((v >> 16u32) & 3) as u8
    }

    /// Bits 0 to 2: the background mode.
    pub fn bg_mode(&self) -> (r: u8)
        ensures
            r == (self.0 & 7) as u8,
    {
        let v = self.0;
        (v & 7) as u8
    }

    /// Whether window 0, window 1 or the object window is shown (bits 13 to 15).
    pub fn is_any_window_enabled(&self) -> (r: bool)
        ensures
            r == (self.0 & 0x2000 != 0 || self.0 & 0x4000 != 0 || self.0 & 0x8000 != 0),
    {
        let v = self.0;
        v & 0x2000 != 0 || v & 0x4000 != 0 || v & 0x8000 != 0
    }
}

/// The control register of one background.
#[derive(Clone, Copy, PartialEq, Eq, Structural)]
pub struct BgCnt(pub u16);

impl BgCnt {
    /// Bits 0 and 1: the drawing priority.
    pub fn priority(&self) -> (r: u8)
        ensures
            r == (self.0 & 3) as u8,
    {
        let v = self.0;
        (v & 3) as u8
    }

    /// Bits 14 and 15: the screen size.
    pub fn screen_size(&self) -> (r: u8)
        ensures
            r == (self.0 >> 14u16) as u8,
    {
        let v = self.0;
        (v >> 14u16) as u8
    }
}

/// The color special effect of the blend control register.
#[derive(Clone, Copy, Debug, PartialEq, Eq, Structural)]
pub enum BldMode {
    NoEffect,
    AlphaBlending,
    BrightnessIncrease,
    BrightnessDecrease,
}

impl BldMode {
    /// The effect numbered `value`.
    pub fn from_bits(value: u8) -> (r: BldMode)
        requires
            value <= 3,
        ensures
            value == 0 ==> r == BldMode::NoEffect,
            value == 1 ==> r == BldMode::AlphaBlending,
            value == 2 ==> r == BldMode::BrightnessIncrease,
            value == 3 ==> r == BldMode::BrightnessDecrease,
    {
        if value == 0 {
            BldMode::NoEffect
        } else if value == 1 {
            BldMode::AlphaBlending
        } else if value == 2 {
            BldMode::BrightnessIncrease
        } else {
            BldMode::BrightnessDecrease
        }
    }
}

/// The reference points as last written, before the engine moves them.
pub struct Gpu2DRegistersInner {
    pub x: [i32; 2],
    pub y: [i32; 2],
}

/// The registers of a 2D engine as the processor writes them.
pub struct Gpu2DRegisters {
    pub engine: Gpu2DEngine,
    pub disp_cnt: DispCnt,
    pub bg_cnt: [BgCnt; 4],
    pub bg_h_ofs: [u16; 4],
    pub bg_v_ofs: [u16; 4],
    pub bg_pa: [i16; 2],
    pub bg_pb: [i16; 2],
    pub bg_pc: [i16; 2],
    pub bg_pd: [i16; 2],
    pub bg_x: [i32; 2],
    pub bg_y: [i32; 2],
    pub bg_x_dirty: bool,
    pub bg_y_dirty: bool,
    pub bld_cnt: u16,
    pub bld_alpha: u16,
    pub bld_y: u8,
    pub win_h: [u16; 2],
    pub win_v: [u16; 2],
    pub win_in: u16,
    pub win_out: u16,
    pub mosaic: u16,
    pub master_bright: u16,
    pub internal: Gpu2DRegistersInner,
}

proof fn lemma_sign_extend28_bits(v: u32)
    by (bit_vector)
    ensures
        v & 0x0800_0000 != 0 ==> (v & 0x0FFF_FFFF) >= 0x0800_0000 && ((v | 0xF000_0000) as i32) as int == (v
            & 0x0FFF_FFFF) as int - 0x1000_0000,
        v & 0x0800_0000 == 0 ==> (v & 0x0FFF_FFFF) < 0x0800_0000 && ((v & !0xF000_0000u32) as i32) as int == (v
            & 0x0FFF_FFFF) as int,
{
}

proof fn lemma_sign_extend28(v: u32)
    ensures
        (if v & 0x0800_0000 != 0 {
            (v | 0xF000_0000) as i32
        } else {
            (v & !0xF000_0000u32) as i32
        }) as int == sign_extend28(v),
{
    lemma_sign_extend28_bits(v);
}

impl Gpu2DRegisters {
    /// The registers of an engine after reset: all zero.
    pub fn new(engine: Gpu2DEngine) -> (r: Self)
        ensures
            r.engine == engine,
            r.disp_cnt.0 == 0,
            forall|i: int| 0 <= i < 4 ==> r.bg_cnt@[i].0 == 0 && r.bg_h_ofs@[i] == 0 && r.bg_v_ofs@[i] == 0,
            forall|i: int|
                0 <= i < 2 ==> r.bg_pa@[i] == 0 && r.bg_pb@[i] == 0 && r.bg_pc@[i] == 0 && r.bg_pd@[i]
                    == 0 && r.bg_x@[i] == 0 && r.bg_y@[i] == 0 && r.win_h@[i] == 0 && r.win_v@[i]
                    == 0 && r.internal.x@[i] == 0 && r.internal.y@[i] == 0,
            !r.bg_x_dirty,
            !r.bg_y_dirty,
            r.bld_cnt == 0,
            r.bld_alpha == 0,
            r.bld_y == 0,
            r.win_in == 0,
            r.win_out == 0,
            r.mosaic == 0,
            r.master_bright == 0,
    {
        Gpu2DRegisters {
            engine,
            disp_cnt: DispCnt(0),
            bg_cnt: [BgCnt(0), BgCnt(0), BgCnt(0), BgCnt(0)],
            bg_h_ofs: [0; 4],
            bg_v_ofs: [0; 4],
            bg_pa: [0; 2],
            bg_pb: [0; 2],
            bg_pc: [0; 2],
            bg_pd: [0; 2],
            bg_x: [0; 2],
            bg_y: [0; 2],
            bg_x_dirty: false,
            bg_y_dirty: false,
            bld_cnt: 0,
            bld_alpha: 0,
            bld_y: 0,
            win_h: [0; 2],
            win_v: [0; 2],
            win_in: 0,
            win_out: 0,
            mosaic: 0,
            master_bright: 0,
            internal: Gpu2DRegistersInner { x: [0; 2], y: [0; 2] },
        }
    }

    /// The display control register.
    pub fn get_disp_cnt(&self) -> (r: u32)
        ensures
            r == self.disp_cnt.0,
    {
        self.disp_cnt.0
    }

    /// The control register of background `bg_num`.
    pub fn get_bg_cnt(&self, bg_num: usize) -> (r: u16)
        requires
            bg_num < 4,
        ensures
            r == self.bg_cnt@[bg_num as int].0,
    {
        self.bg_cnt[bg_num].0
    }

    /// Writes the display control register; engine B has no 3D layer, no
    /// VRAM display and no bitmap object settings, so those bits stay.
    pub fn set_disp_cnt(&mut self, mask: u32, value: u32)
        ensures
            *final(self) == (Gpu2DRegisters {
                disp_cnt: DispCnt(
                    merge32(
                        old(self).disp_cnt.0,
                        if old(self).engine == Gpu2DEngine::B {
                            mask & 0xC0B1FFF7
                        } else {
                            mask
                        },
                        value,
                    ),
                ),
                ..*old(self)
            }),
    {
        let mut mask = mask;
        if self.engine == Gpu2DEngine::B {
            mask = mask & 0xC0B1FFF7;
        }
        self.disp_cnt = DispCnt((self.disp_cnt.0 & !mask) | (value & mask));
    }

    /// Writes the control register of background `bg_num`.
    pub fn set_bg_cnt(&mut self, bg_num: usize, mask: u16, value: u16)
        requires
            bg_num < 4,
        ensures
            final(self).bg_cnt@ == old(self).bg_cnt@.update(
                bg_num as int,
                BgCnt(merge16(old(self).bg_cnt@[bg_num as int].0, mask, value)),
            ),
            *final(self) == (Gpu2DRegisters { bg_cnt: final(self).bg_cnt, ..*old(self) }),
    {
        let v = (self.bg_cnt[bg_num].0 & !mask) | (value & mask);
        self.bg_cnt[bg_num] = BgCnt(v);
    }

    /// Writes the horizontal offset of background `bg_num` (9 bits).
    pub fn set_bg_h_ofs(&mut self, bg_num: usize, mask: u16, value: u16)
        requires
            bg_num < 4,
        ensures
            final(self).bg_h_ofs@ == old(self).bg_h_ofs@.update(
                bg_num as int,
                merge16(old(self).bg_h_ofs@[bg_num as int], mask & 0x01FF, value),
            ),
            *final(self) == (Gpu2DRegisters { bg_h_ofs: final(self).bg_h_ofs, ..*old(self) }),
    {
        let mask = mask & 0x01FF;
        self.bg_h_ofs[bg_num] = (self.bg_h_ofs[bg_num] & !mask) | (value & mask);
    }

    /// Writes the vertical offset of background `bg_num` (9 bits).
    pub fn set_bg_v_ofs(&mut self, bg_num: usize, mask: u16, value: u16)
        requires
            bg_num < 4,
        ensures
            final(self).bg_v_ofs@ == old(self).bg_v_ofs@.update(
                bg_num as int,
                merge16(old(self).bg_v_ofs@[bg_num as int], mask & 0x01FF, value),
            ),
            *final(self) == (Gpu2DRegisters { bg_v_ofs: final(self).bg_v_ofs, ..*old(self) }),
    {
        let mask = mask & 0x01FF;
        self.bg_v_ofs[bg_num] = (self.bg_v_ofs[bg_num] & !mask) | (value & mask);
    }

    /// Writes parameter A of the rotated background `bg_num` (2 or 3).
    pub fn set_bg_pa(&mut self, bg_num: usize, mask: u16, value: u16)
        requires
            2 <= bg_num < 4,
        ensures
            final(self).bg_pa@ == old(self).bg_pa@.update(
                bg_num - 2,
                merge16(old(self).bg_pa@[bg_num - 2] as u16, mask, value) as i16,
            ),
            *final(self) == (Gpu2DRegisters { bg_pa: final(self).bg_pa, ..*old(self) }),
    {
        let i = bg_num - 2;
        self.bg_pa[i] = ((self.bg_pa[i] as u16 & !mask) | (value & mask)) as i16;
    }

    /// Writes parameter B of the rotated background `bg_num` (2 or 3).
    pub fn set_bg_pb(&mut self, bg_num: usize, mask: u16, value: u16)
        requires
            2 <= bg_num < 4,
        ensures
            final(self).bg_pb@ == old(self).bg_pb@.update(
                bg_num - 2,
                merge16(old(self).bg_pb@[bg_num - 2] as u16, mask, value) as i16,
            ),
            *final(self) == (Gpu2DRegisters { bg_pb: final(self).bg_pb, ..*old(self) }),
    {
        let i = bg_num - 2;
        self.bg_pb[i] = ((self.bg_pb[i] as u16 & !mask) | (value & mask)) as i16;
    }

    /// Writes parameter C of the rotated background `bg_num` (2 or 3).
    pub fn set_bg_pc(&mut self, bg_num: usize, mask: u16, value: u16)
        requires
            2 <= bg_num < 4,
        ensures
            final(self).bg_pc@ == old(self).bg_pc@.update(
                bg_num - 2,
                merge16(old(self).bg_pc@[bg_num - 2] as u16, mask, value) as i16,
            ),
            *final(self) == (Gpu2DRegisters { bg_pc: final(self).bg_pc, ..*old(self) }),
    {
        let i = bg_num - 2;
        self.bg_pc[i] = ((self.bg_pc[i] as u16 & !mask) | (value & mask)) as i16;
    }

    /// Writes parameter D of the rotated background `bg_num` (2 or 3).
    pub fn set_bg_pd(&mut self, bg_num: usize, mask: u16, value: u16)
        requires
            2 <= bg_num < 4,
        ensures
            final(self).bg_pd@ == old(self).bg_pd@.update(
                bg_num - 2,
                merge16(old(self).bg_pd@[bg_num - 2] as u16, mask, value) as i16,
            ),
            *final(self) == (Gpu2DRegisters { bg_pd: final(self).bg_pd, ..*old(self) }),
    {
        let i = bg_num - 2;
        self.bg_pd[i] = ((self.bg_pd[i] as u16 & !mask) | (value & mask)) as i16;
    }

    /// Writes the X reference point of the rotated background `bg_num` (2 or
    /// 3): a 28-bit signed fixed point number; the point moves from there.
    pub fn set_bg_x(&mut self, bg_num: usize, mask: u32, value: u32)
        requires
            2 <= bg_num < 4,
        ensures
            final(self).bg_x@[bg_num - 2] as int == sign_extend28(
                merge32(old(self).bg_x@[bg_num - 2] as u32, mask & 0x0FFF_FFFF, value),
            ),
            final(self).bg_x@ == old(self).bg_x@.update(bg_num - 2, final(self).bg_x@[bg_num - 2]),
            final(self).internal.x@ == old(self).internal.x@.update(bg_num - 2, final(self).bg_x@[bg_num - 2]),
            final(self).bg_x_dirty,
            *final(self) == (Gpu2DRegisters {
                bg_x: final(self).bg_x,
                internal: final(self).internal,
                bg_x_dirty: true,
                ..*old(self)
            }),
            final(self).internal.y == old(self).internal.y,
    {
        let i = bg_num - 2;
        let mask = mask & 0x0FFF_FFFF;
        let mut bg_x = (self.bg_x[i] as u32 & !mask) | (value & mask);
        proof {
            lemma_sign_extend28(bg_x);
        }
        if bg_x & 0x0800_0000 != 0 {
            bg_x = bg_x | 0xF000_0000;
        } else {
            bg_x = bg_x & !0xF000_0000u32;
        }
        let bg_x = bg_x as i32;
        self.internal.x[i] = bg_x;
        self.bg_x[i] = bg_x;
        self.bg_x_dirty = true;
    }

    /// Writes the Y reference point of the rotated background `bg_num` (2 or
    /// 3): a 28-bit signed fixed point number; the point moves from there.
    pub fn set_bg_y(&mut self, bg_num: usize, mask: u32, value: u32)
        requires
            2 <= bg_num < 4,
        ensures
            final(self).bg_y@[bg_num - 2] as int == sign_extend28(
                merge32(old(self).bg_y@[bg_num - 2] as u32, mask & 0x0FFF_FFFF, value),
            ),
            final(self).bg_y@ == old(self).bg_y@.update(bg_num - 2, final(self).bg_y@[bg_num - 2]),
            final(self).internal.y@ == old(self).internal.y@.update(bg_num - 2, final(self).bg_y@[bg_num - 2]),
            final(self).bg_y_dirty,
            *final(self) == (Gpu2DRegisters {
                bg_y: final(self).bg_y,
                internal: final(self).internal,
                bg_y_dirty: true,
                ..*old(self)
            }),
            final(self).internal.x == old(self).internal.x,
    {
        let i = bg_num - 2;
        let mask = mask & 0x0FFF_FFFF;
        let mut bg_y = (self.bg_y[i] as u32 & !mask) | (value & mask);
        proof {
            lemma_sign_extend28(bg_y);
        }
        if bg_y & 0x0800_0000 != 0 {
            bg_y = bg_y | 0xF000_0000;
        } else {
            bg_y = bg_y & !0xF000_0000u32;
        }
        let bg_y = bg_y as i32;
        self.internal.y[i] = bg_y;
        self.bg_y[i] = bg_y;
        self.bg_y_dirty = true;
    }

    /// Writes the horizontal bounds of window `win`.
    pub fn set_win_h(&mut self, win: usize, mask: u16, value: u16)
        requires
            win < 2,
        ensures
            final(self).win_h@ == old(self).win_h@.update(
                win as int,
                merge16(old(self).win_h@[win as int], mask, value),
            ),
            *final(self) == (Gpu2DRegisters { win_h: final(self).win_h, ..*old(self) }),
    {
        self.win_h[win] = (self.win_h[win] & !mask) | (value & mask);
    }

    /// Writes the vertical bounds of window `win`.
    pub fn set_win_v(&mut self, win: usize, mask: u16, value: u16)
        requires
            win < 2,
        ensures
            final(self).win_v@ == old(self).win_v@.update(
                win as int,
                merge16(old(self).win_v@[win as int], mask, value),
            ),
            *final(self) == (Gpu2DRegisters { win_v: final(self).win_v, ..*old(self) }),
    {
        self.win_v[win] = (self.win_v[win] & !mask) | (value & mask);
    }

    /// Writes the inside-window layer enables (two 6-bit groups).
    pub fn set_win_in(&mut self, mask: u16, value: u16)
        ensures
            *final(self) == (Gpu2DRegisters {
                win_in: merge16(old(self).win_in, mask & 0x3F3F, value),
                ..*old(self)
            }),
    {
        let mask = mask & 0x3F3F;
        self.win_in = (self.win_in & !mask) | (value & mask);
    }

    /// Writes the outside-window layer enables (two 6-bit groups).
    pub fn set_win_out(&mut self, mask: u16, value: u16)
        ensures
            *final(self) == (Gpu2DRegisters {
                win_out: merge16(old(self).win_out, mask & 0x3F3F, value),
                ..*old(self)
            }),
    {
        let mask = mask & 0x3F3F;
        self.win_out = (self.win_out & !mask) | (value & mask);
    }

    /// Writes the mosaic size register.
    pub fn set_mosaic(&mut self, mask: u16, value: u16)
        ensures
            *final(self) == (Gpu2DRegisters { mosaic: merge16(old(self).mosaic, mask, value), ..*old(self) }),
    {
        self.mosaic = (self.mosaic & !mask) | (value & mask);
    }

    /// Writes the blend control register (14 bits).
    pub fn set_bld_cnt(&mut self, mask: u16, value: u16)
        ensures
            *final(self) == (Gpu2DRegisters {
                bld_cnt: merge16(old(self).bld_cnt, mask & 0x3FFF, value),
                ..*old(self)
            }),
    {
        let mask = mask & 0x3FFF;
        self.bld_cnt = (self.bld_cnt & !mask) | (value & mask);
    }

    /// Writes the alpha blend coefficients; each is held at 16 at most.
    pub fn set_bld_alpha(&mut self, mask: u16, value: u16)
        ensures
            ({
                let alpha = merge16(old(self).bld_alpha, mask & 0x1F1F, value);
                final(self).bld_alpha == clamp16(alpha & 0x1F) + 0x100 * clamp16(alpha >> 8u16)
            }),
            final(self).bld_alpha & 0xFF <= 16,
            final(self).bld_alpha >> 8u16 <= 16,
            *final(self) == (Gpu2DRegisters { bld_alpha: final(self).bld_alpha, ..*old(self) }),
    {
        let mask = mask & 0x1F1F;
        let alpha = (self.bld_alpha & !mask) | (value & mask);
        let lo = alpha & 0x1F;
        let hi = alpha >> 8u16;
        let eva = if lo < 16 {
            lo
        } else {
            16
        };
        let evb = if hi < 16 {
            hi
        } else {
            16
        };
        assert(eva | (evb << 8u16) == eva + 0x100 * evb && (eva | (evb << 8u16)) & 0xFF == eva && (eva
            | (evb << 8u16)) >> 8u16 == evb) by (bit_vector)
            requires
                eva <= 16,
                evb <= 16,
        ;
        self.bld_alpha = eva | (evb << 8u16);
    }

    /// Writes the brightness coefficient; it is held at 16 at most.
    pub fn set_bld_y(&mut self, value: u8)
        ensures
            *final(self) == (Gpu2DRegisters {
                bld_y: if value & 0x1F < 16 {
                    value & 0x1F
                } else {
                    16
                },
                ..*old(self)
            }),
    {
        let v = value & 0x1F;
        self.bld_y = if v < 16 {
            v
        } else {
            16
        };
    }

    /// Writes the master brightness register.
    pub fn set_master_bright(&mut self, mask: u16, value: u16)
        ensures
            *final(self) == (Gpu2DRegisters {
                master_bright: merge16(old(self).master_bright, mask & 0xC01F, value),
                ..*old(self)
            }),
    {
        let mask = mask & 0xC01F;
        self.master_bright = (self.master_bright & !mask) | (value & mask);
    }
}

} // verus!
