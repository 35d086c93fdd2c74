use vstd::prelude::*;
use crate::graphics::gpu_2d::registers_2d::{merge16, merge32};

verus! {

// The rendering registers of the 3D engine: display control, edge colors,
// clear color and depth, fog and toon tables. Writes go to the pending set
// (index 1), which the renderer copies to the set it draws with (index 0)
// at the end of a line; a write that changes a register marks the frame
// for redrawing. The floating point forms of the clear color and depth are
// derived from these registers by the renderer.

/// The display control bits a write acknowledges: the color buffer
/// underflow (bit 12) and the polygon or vertex memory overflow (bit 13).
pub const DISP_3D_ACK_UNDERFLOW: u16 = 0x1000;
pub const DISP_3D_ACK_OVERFLOW: u16 = 0x2000;

/// The writable bits of each register.
pub const DISP_3D_CNT_MASK: u16 = 0x4FFF;
pub const COLOR_MASK: u16 = 0x7FFF;
pub const CLEAR_COLOR_MASK: u32 = 0x3F1F_FFFF;
pub const FOG_COLOR_MASK: u32 = 0x001F_7FFF;

/// One set of 3D rendering registers.
#[derive(Clone, Copy)]
pub struct Gpu3DRendererInner {
    pub disp_cnt: u16,
    pub edge_colors: [u16; 8],
    pub clear_color: u32,
    pub clear_depth: u16,
    pub fog_color: u32,
    pub fog_offset: u16,
    pub fog_table: [u8; 32],
    pub toon_table: [u16; 32],
}

impl Gpu3DRendererInner {
    /// The registers after reset: all zero but the clear depth, at its
    /// farthest (0x7FFF).
    pub fn new() -> (r: Self)
        ensures
            r.disp_cnt == 0 && r.clear_color == 0 && r.clear_depth == 0x7FFF && r.fog_color == 0 && r.fog_offset == 0,
            r.edge_colors@ == Seq::new(8, |i: int| 0u16),
            r.fog_table@ == Seq::new(32, |i: int| 0u8),
            r.toon_table@ == Seq::new(32, |i: int| 0u16),
    {
        let r = Gpu3DRendererInner {
            disp_cnt: 0,
            edge_colors: [0u16; 8],
            clear_color: 0,
            clear_depth: 0x7FFF,
            fog_color: 0,
            fog_offset: 0,
            fog_table: [0u8; 32],
            toon_table: [0u16; 32],
        };
        assert(r.edge_colors@ =~= Seq::new(8, |i: int| 0u16));
        assert(r.fog_table@ =~= Seq::new(32, |i: int| 0u8));
        assert(r.toon_table@ =~= Seq::new(32, |i: int| 0u16));
        r
    }
}

/// The display control with the error bits that `value` acknowledges
/// cleared.
pub open spec fn disp_3d_ack(cur: u16, value: u16) -> u16 {
    let c1 = if value & DISP_3D_ACK_UNDERFLOW != 0 {
        cur & !DISP_3D_ACK_UNDERFLOW
    } else {
        cur
    };
    if value & DISP_3D_ACK_OVERFLOW != 0 {
        c1 & !DISP_3D_ACK_OVERFLOW
    } else {
        c1
    }
}

/// The display control after a write of `value` under `mask`: the
/// acknowledged error bits clear, then the writable bits selected.
pub open spec fn disp_3d_cnt_after(cur: u16, mask: u16, value: u16) -> u16 {
    merge16(disp_3d_ack(cur, value), mask & DISP_3D_CNT_MASK, value)
}

/// The 24-bit depth a clear depth register stands for: nine bits more,
/// and all of them set at the farthest depth.
pub open spec fn spec_expanded_clear_depth(depth: u16) -> u32 {
    (depth * 0x200 + ((depth + 1) / 0x8000) * 0x1FF) as u32
}

/// The 24-bit depth that clear depth register value `depth` (15 bits)
/// stands for.
pub fn expanded_clear_depth(depth: u16) -> (r: u32)
    requires
        depth <= 0x7FFF,
    ensures
        r == spec_expanded_clear_depth(depth),
        r <= 0xFF_FFFF,
{
    let d = depth as u32;
    d * 0x200 + ((d + 1) / 0x8000) * 0x1FF
}

/// The rendering registers of the 3D renderer, pending and in use, and
/// whether the frame must be drawn again.
pub struct Gpu3DRendererRegs {
    pub dirty: bool,
    pub inners: [Gpu3DRendererInner; 2],
}

impl Gpu3DRendererRegs {
    /// Registers after reset, both sets, nothing to redraw.
    pub fn new() -> (r: Self)
        ensures
            !r.dirty,
            r.inners[0] == r.inners[1],
            r.inners[1].clear_depth == 0x7FFF && r.inners[1].disp_cnt == 0,
    {
        let inner = Gpu3DRendererInner::new();
        Gpu3DRendererRegs { dirty: false, inners: [inner, inner] }
    }

    /// Resets both sets of registers and the redraw mark.
    pub fn init(&mut self)
        ensures
            !final(self).dirty,
            final(self).inners[0] == final(self).inners[1],
            final(self).inners[1].clear_depth == 0x7FFF && final(self).inners[1].disp_cnt == 0,
    {
        *self = Gpu3DRendererRegs::new();
    }

    /// Marks the frame for redrawing.
    pub fn invalidate(&mut self)
        ensures
            final(self).dirty,
            final(self).inners == old(self).inners,
    {
        self.dirty = true;
    }

    /// The pending display control.
    pub fn get_disp_3d_cnt(&self) -> (r: u16)
        ensures
            r == self.inners[1].disp_cnt,
    {
        self.inners[1].disp_cnt
    }

    /// Writes the display control: set error bits in `value` acknowledge
    /// (clear) those errors, and the writable bits that `mask` selects are
    /// taken from `value`; the frame is marked for redrawing when that
    /// selection changes the acknowledged register.
    pub fn set_disp_3d_cnt(&mut self, mask: u16, value: u16)
        ensures
            final(self).inners[0] == old(self).inners[0],
            final(self).inners[1] == (Gpu3DRendererInner {
                disp_cnt: disp_3d_cnt_after(old(self).inners[1].disp_cnt, mask, value),
                ..old(self).inners[1]
            }),
            final(self).dirty == (old(self).dirty || disp_3d_cnt_after(old(self).inners[1].disp_cnt, mask, value) != disp_3d_ack(
                old(self).inners[1].disp_cnt,
                value,
            )),
    {
        let mut inner = self.inners[1];
        if value & DISP_3D_ACK_UNDERFLOW != 0 {
            inner.disp_cnt = inner.disp_cnt & !DISP_3D_ACK_UNDERFLOW;
        }
        if value & DISP_3D_ACK_OVERFLOW != 0 {
            inner.disp_cnt = inner.disp_cnt & !DISP_3D_ACK_OVERFLOW;
        }
        let m = mask & DISP_3D_CNT_MASK;
        let new_value = (inner.disp_cnt & !m) | (value & m);
        let changed = inner.disp_cnt != new_value;
        inner.disp_cnt = new_value;
        self.inners[1] = inner;
        if changed {
            self.invalidate();
        }
    }
}

/// A register after a write of `value` under `mask` (`mask` cut to the
/// writable bits `writable`).
pub open spec fn reg16_after(cur: u16, mask: u16, writable: u16, value: u16) -> u16 {
    merge16(cur, mask & writable, value)
}

pub open spec fn reg32_after(cur: u32, mask: u32, writable: u32, value: u32) -> u32 {
    merge32(cur, mask & writable, value)
}

impl Gpu3DRendererRegs {
    /// Writes edge color `index` (15 bits); a change marks the frame for
    /// redrawing.
    pub fn set_edge_color(&mut self, index: usize, mask: u16, value: u16)
        requires
            index < 8,
        ensures
            final(self).inners[0] == old(self).inners[0],
            final(self).inners[1].edge_colors@ == old(self).inners[1].edge_colors@.update(
                index as int,
                reg16_after(old(self).inners[1].edge_colors@[index as int], mask, COLOR_MASK, value),
            ),
            final(self).inners[1] == (Gpu3DRendererInner { edge_colors: final(self).inners[1].edge_colors, ..old(self).inners[1] }),
            final(self).dirty == (old(self).dirty || value & (mask & COLOR_MASK) != old(self).inners[1].edge_colors@[index as int] & (mask
                & COLOR_MASK)),
    {
        let m = mask & COLOR_MASK;
        let mut inner = self.inners[1];
        if value & m == inner.edge_colors[index] & m {
            proof {
                lemma_merge16_same(inner.edge_colors@[index as int], m, value);
                assert(inner.edge_colors@ =~= old(self).inners[1].edge_colors@.update(index as int, reg16_after(old(self).inners[1].edge_colors@[index as int], mask, COLOR_MASK, value)));
            }
            return;
        }
        inner.edge_colors[index] = (inner.edge_colors[index] & !m) | (value & m);
        self.inners[1] = inner;
        self.invalidate();
    }

    /// Writes the clear color, fog flag, alpha and polygon number; a
    /// change marks the frame for redrawing.
    pub fn set_clear_color(&mut self, mask: u32, value: u32)
        ensures
            final(self).inners[0] == old(self).inners[0],
            final(self).inners[1] == (Gpu3DRendererInner {
                clear_color: reg32_after(old(self).inners[1].clear_color, mask, CLEAR_COLOR_MASK, value),
                ..old(self).inners[1]
            }),
            final(self).dirty == (old(self).dirty || value & (mask & CLEAR_COLOR_MASK) != old(self).inners[1].clear_color & (mask
                & CLEAR_COLOR_MASK)),
    {
        let m = mask & CLEAR_COLOR_MASK;
        let mut inner = self.inners[1];
        if value & m == inner.clear_color & m {
            proof {
                lemma_merge32_same(inner.clear_color, m, value);
            }
            return;
        }
        inner.clear_color = (inner.clear_color & !m) | (value & m);
        self.inners[1] = inner;
        self.invalidate();
    }

    /// Writes the clear depth (15 bits); a change marks the frame for
    /// redrawing.
    pub fn set_clear_depth(&mut self, mask: u16, value: u16)
        ensures
            final(self).inners[0] == old(self).inners[0],
            final(self).inners[1] == (Gpu3DRendererInner {
                clear_depth: reg16_after(old(self).inners[1].clear_depth, mask, COLOR_MASK, value),
                ..old(self).inners[1]
            }),
            final(self).dirty == (old(self).dirty || value & (mask & COLOR_MASK) != old(self).inners[1].clear_depth & (mask & COLOR_MASK)),
    {
        let m = mask & COLOR_MASK;
        let mut inner = self.inners[1];
        if value & m == inner.clear_depth & m {
            proof {
                lemma_merge16_same(inner.clear_depth, m, value);
            }
            return;
        }
        inner.clear_depth = (inner.clear_depth & !m) | (value & m);
        self.inners[1] = inner;
        self.invalidate();
    }

    /// Writes toon table entry `index` (15 bits); a change marks the frame
    /// for redrawing.
    pub fn set_toon_table(&mut self, index: usize, mask: u16, value: u16)
        requires
            index < 32,
        ensures
            final(self).inners[0] == old(self).inners[0],
            final(self).inners[1].toon_table@ == old(self).inners[1].toon_table@.update(
                index as int,
                reg16_after(old(self).inners[1].toon_table@[index as int], mask, COLOR_MASK, value),
            ),
            final(self).inners[1] == (Gpu3DRendererInner { toon_table: final(self).inners[1].toon_table, ..old(self).inners[1] }),
            final(self).dirty == (old(self).dirty || value & (mask & COLOR_MASK) != old(self).inners[1].toon_table@[index as int] & (mask
                & COLOR_MASK)),
    {
        let m = mask & COLOR_MASK;
        let mut inner = self.inners[1];
        if value & m == inner.toon_table[index] & m {
            proof {
                lemma_merge16_same(inner.toon_table@[index as int], m, value);
                assert(inner.toon_table@ =~= old(self).inners[1].toon_table@.update(index as int, reg16_after(old(self).inners[1].toon_table@[index as int], mask, COLOR_MASK, value)));
            }
            return;
        }
        inner.toon_table[index] = (inner.toon_table[index] & !m) | (value & m);
        self.inners[1] = inner;
        self.invalidate();
    }

    /// Writes the fog color and alpha; a change marks the frame for
    /// redrawing.
    pub fn set_fog_color(&mut self, mask: u32, value: u32)
        ensures
            final(self).inners[0] == old(self).inners[0],
            final(self).inners[1] == (Gpu3DRendererInner {
                fog_color: reg32_after(old(self).inners[1].fog_color, mask, FOG_COLOR_MASK, value),
                ..old(self).inners[1]
            }),
            final(self).dirty == (old(self).dirty || value & (mask & FOG_COLOR_MASK) != old(self).inners[1].fog_color & (mask
                & FOG_COLOR_MASK)),
    {
        let m = mask & FOG_COLOR_MASK;
        let mut inner = self.inners[1];
        if value & m == inner.fog_color & m {
            proof {
                lemma_merge32_same(inner.fog_color, m, value);
            }
            return;
        }
        inner.fog_color = (inner.fog_color & !m) | (value & m);
        self.inners[1] = inner;
        self.invalidate();
    }

    /// Writes the fog offset (15 bits); a change marks the frame for
    /// redrawing.
    pub fn set_fog_offset(&mut self, mask: u16, value: u16)
        ensures
            final(self).inners[0] == old(self).inners[0],
            final(self).inners[1] == (Gpu3DRendererInner {
                fog_offset: reg16_after(old(self).inners[1].fog_offset, mask, COLOR_MASK, value),
                ..old(self).inners[1]
            }),
            final(self).dirty == (old(self).dirty || value & (mask & COLOR_MASK) != old(self).inners[1].fog_offset & (mask & COLOR_MASK)),
    {
        let m = mask & COLOR_MASK;
        let mut inner = self.inners[1];
        if value & m == inner.fog_offset & m {
            proof {
                lemma_merge16_same(inner.fog_offset, m, value);
            }
            return;
        }
        inner.fog_offset = (inner.fog_offset & !m) | (value & m);
        self.inners[1] = inner;
        self.invalidate();
    }

    /// Writes fog table entry `index` (7 bits); a change marks the frame
    /// for redrawing.
    pub fn set_fog_table(&mut self, index: usize, value: u8)
        requires
            index < 32,
        ensures
            final(self).inners[0] == old(self).inners[0],
            final(self).inners[1].fog_table@ == if value & 0x7F == old(self).inners[1].fog_table@[index as int] & 0x7F {
                old(self).inners[1].fog_table@
            } else {
                old(self).inners[1].fog_table@.update(index as int, value & 0x7F)
            },
            final(self).inners[1] == (Gpu3DRendererInner { fog_table: final(self).inners[1].fog_table, ..old(self).inners[1] }),
            final(self).dirty == (old(self).dirty || value & 0x7F != old(self).inners[1].fog_table@[index as int] & 0x7F),
    {
        let mut inner = self.inners[1];
        if value & 0x7F == inner.fog_table[index] & 0x7F {
            return;
        }
        inner.fog_table[index] = value & 0x7F;
        self.inners[1] = inner;
        self.invalidate();
    }

    /// At the end of a line the renderer takes the pending registers.
    pub fn finish_scanline(&mut self)
        ensures
            final(self).inners[0] == old(self).inners[1],
            final(self).inners[1] == old(self).inners[1],
            final(self).dirty == old(self).dirty,
    {
        self.inners[0] = self.inners[1];
    }
}

/// A write whose selected bits match the register leaves it as it is.
pub proof fn lemma_merge16_same(cur: u16, mask: u16, value: u16)
    requires
        value & mask == cur & mask,
    ensures
        merge16(cur, mask, value) == cur,
{
    assert((cur & !mask) | (value & mask) == cur) by (bit_vector)
        requires
            value & mask == cur & mask,
    ;
}

pub proof fn lemma_merge32_same(cur: u32, mask: u32, value: u32)
    requires
        value & mask == cur & mask,
    ensures
        merge32(cur, mask, value) == cur,
{
    assert((cur & !mask) | (value & mask) == cur) by (bit_vector)
        requires
            value & mask == cur & mask,
    ;
}

} // verus!
