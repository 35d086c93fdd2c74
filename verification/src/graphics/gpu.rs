use vstd::prelude::*;
use crate::cpu_type::{cpu_index, CpuType};
use crate::cycle_manager::EventType;

verus! {

/// Pixels per line of either screen.
pub const DISPLAY_WIDTH: usize = 256;

/// Lines of either screen.
pub const DISPLAY_HEIGHT: usize = 192;

/// Display status: in vertical blank (bit 0).
pub const V_BLANK_FLAG: u16 = 0x01;
/// Display status: in horizontal blank (bit 1).
pub const H_BLANK_FLAG: u16 = 0x02;
/// Display status: the line counter matches the set line (bit 2).
pub const V_COUNTER_FLAG: u16 = 0x04;
/// Display status: interrupt on vertical blank (bit 3).
pub const V_BLANK_IRQ_ENABLE: u16 = 0x08;
/// Display status: interrupt on horizontal blank (bit 4).
pub const H_BLANK_IRQ_ENABLE: u16 = 0x10;
/// Display status: interrupt on a line counter match (bit 5).
pub const V_COUNTER_IRQ_ENABLE: u16 = 0x20;

/// The line that a display status word waits for: bit 7 above bits 8 to 15.
pub open spec fn v_match(stat: u16) -> u16 {
    (((stat >> 7u16) & 1) << 8u16) | (stat >> 8u16)
}

/// Whether a display status word is in vertical blank.
pub open spec fn in_v_blank(stat: u16) -> bool {
    stat & V_BLANK_FLAG != 0
}

/// What the emulator does after the horizontal blank of a line starts.
#[derive(Clone, Copy, Debug, PartialEq, Eq)]
pub struct HBlankActions {
    /// The visible line whose registers the renderer records, if any.
    pub render_line: Option<u8>,
    /// Which processors (ARM9, ARM7) get the horizontal blank interrupt.
    pub h_blank_irq: [bool; 2],
    /// When the next line starts, and its event.
    pub next: (u32, EventType),
}

/// What the emulator does after a line ends.
#[derive(Clone, Copy, Debug, PartialEq, Eq)]
pub struct LineEndActions {
    /// The last visible line ended: the frame goes to the renderer.
    pub frame_finished: bool,
    /// Which processors get the vertical blank interrupt.
    pub v_blank_irq: [bool; 2],
    /// Vertical blank ends: the renderer takes the registers of a new frame.
    pub reload_registers: bool,
    /// The frame is complete and the line counter starts over.
    pub frame_ready: bool,
    /// Which processors get the line counter match interrupt.
    pub v_counter_irq: [bool; 2],
    /// When the horizontal blank of the next line starts, and its event.
    pub next: (u32, EventType),
}

/// The display status of both processors and the line counter.
pub struct Gpu {
    pub disp_stat: [u16; 2],
    pub pow_cnt1: u16,
    pub disp_cap_cnt: u32,
    pub v_count: u16,
}

/// The status word of a processor at a line end: vertical blank set at line
/// 192 and cleared at line 262, the counter match flag from the new line,
/// horizontal blank cleared.
pub open spec fn stat_at_line_end(stat: u16, line: u16) -> u16 {
    let s1 = if line == 192 {
        stat | V_BLANK_FLAG
    } else if line == 262 {
        stat & !V_BLANK_FLAG
    } else {
        stat
    };
    let s2 = if line % 263 == v_match(s1) {
        s1 | V_COUNTER_FLAG
    } else {
        s1 & !V_COUNTER_FLAG
    };
    s2 & !H_BLANK_FLAG
}

proof fn lemma_stat_bits(s: u16, v: u16, m: u16)
    by (bit_vector)
    ensures
        ((s | 1u16) & 1 != 0),
        ((s & !1u16) & 1 == 0),
        ((s | 4u16) & 1) == (s & 1),
        ((s & !4u16) & 1) == (s & 1),
        ((s & !2u16) & 1) == (s & 1),
        ((s | 2u16) & 1) == (s & 1),
        ((s | 1u16) & 0x20) == (s & 0x20),
        ((s & !1u16) & 0x20) == (s & 0x20),
        (((s & !m) | (v & m)) & 1) == (s & 1) || m & 1 != 0,
        ((s & !(m & 0xFFB8u16)) | (v & (m & 0xFFB8u16))) & 1 == s & 1,
        v_match(s | 1u16) == v_match(s),
        v_match(s & !1u16) == v_match(s),
        0u16 & 1u16 == 0,
        (((s | 4u16) & !2u16) & 1) == (s & 1),
        (((s & !4u16) & !2u16) & 1) == (s & 1),
{
}

impl Gpu {
    /// Both processors' status in vertical blank exactly on lines 192 to 261,
    /// and the line counter below 263.
    pub open spec fn wf(&self) -> bool {
        &&& self.v_count <= 262
        &&& in_v_blank(self.disp_stat@[0]) == (192 <= self.v_count <= 261)
        &&& in_v_blank(self.disp_stat@[1]) == (192 <= self.v_count <= 261)
    }

    /// Status registers cleared, on line 0.
    pub fn new() -> (r: Self)
        ensures
            r.wf(),
            r.disp_stat@ == seq![0u16, 0u16],
            r.pow_cnt1 == 0,
            r.disp_cap_cnt == 0,
            r.v_count == 0,
    {
        let r = Gpu { disp_stat: [0u16; 2], pow_cnt1: 0, disp_cap_cnt: 0, v_count: 0 };
        proof {
            lemma_stat_bits(0, 0, 0);
        }
        assert(r.disp_stat@ =~= seq![0u16, 0u16]);
        r
    }

    /// The display status register of `cpu`.
    pub fn get_disp_stat(&self, cpu: CpuType) -> (r: u16)
        ensures
            r == self.disp_stat@[cpu_index(cpu)],
    {
        self.disp_stat[cpu.index() as usize]
    }

    /// The display capture control register.
    pub fn get_disp_cap_cnt(&self) -> (r: u32)
        ensures
            r == self.disp_cap_cnt,
    {
        self.disp_cap_cnt
    }

    /// Writes the display status register of `cpu`: the flags (bits 0 to 2)
    /// are read only.
    pub fn set_disp_stat(&mut self, cpu: CpuType, mask: u16, value: u16)
        requires
            old(self).wf(),
        ensures
            final(self).wf(),
            final(self).disp_stat@ == old(self).disp_stat@.update(
                cpu_index(cpu),
                (old(self).disp_stat@[cpu_index(cpu)] & !(mask & 0xFFB8)) | (value & (mask & 0xFFB8)),
            ),
            final(self).v_count == old(self).v_count,
            final(self).pow_cnt1 == old(self).pow_cnt1,
            final(self).disp_cap_cnt == old(self).disp_cap_cnt,
    {
        let i = cpu.index() as usize;
        let m = mask & 0xFFB8;
        let s = self.disp_stat[i];
        proof {
            lemma_stat_bits(s, value, mask);
        }
        self.disp_stat[i] = (s & !m) | (value & m);
    }

    /// Writes the power control register (bits 0 to 3, 9 and 15).
    pub fn set_pow_cnt1(&mut self, mask: u16, value: u16)
        ensures
            final(self).pow_cnt1 == (old(self).pow_cnt1 & !(mask & 0x820F)) | (value & (mask & 0x820F)),
            final(self).disp_stat == old(self).disp_stat,
            final(self).v_count == old(self).v_count,
            final(self).disp_cap_cnt == old(self).disp_cap_cnt,
    {
        let m = mask & 0x820F;
        self.pow_cnt1 = (self.pow_cnt1 & !m) | (value & m);
    }

    /// Writes the display capture control register.
    pub fn set_disp_cap_cnt(&mut self, mask: u32, value: u32)
        ensures
            final(self).disp_cap_cnt == (old(self).disp_cap_cnt & !(mask & 0xEF3F1F1F)) | (value & (mask
                & 0xEF3F1F1F)),
            final(self).disp_stat == old(self).disp_stat,
            final(self).v_count == old(self).v_count,
            final(self).pow_cnt1 == old(self).pow_cnt1,
    {
        let m = mask & 0xEF3F1F1F;
        self.disp_cap_cnt = (self.disp_cap_cnt & !m) | (value & m);
    }

    /// The first event of the display: the horizontal blank of line 0, 8
    /// pixels late.
    pub fn initialize_schedule() -> (r: (u32, EventType))
        ensures
            r == (1584u32, EventType::GpuScanline256),
    {
        ((256 + 8) * 6, EventType::GpuScanline256)
    }

    /// Horizontal blank of the current line: a visible line is recorded,
    /// both status words get the blank flag, and the line ends 99 pixels
    /// later.
    pub fn on_scanline256(&mut self) -> (r: HBlankActions)
        requires
            old(self).wf(),
        ensures
            final(self).wf(),
            final(self).v_count == old(self).v_count,
            final(self).disp_stat@ == seq![
                old(self).disp_stat@[0] | H_BLANK_FLAG,
                old(self).disp_stat@[1] | H_BLANK_FLAG,
            ],
            final(self).pow_cnt1 == old(self).pow_cnt1,
            final(self).disp_cap_cnt == old(self).disp_cap_cnt,
            r.render_line == if old(self).v_count < 192 {
                Some(old(self).v_count as u8)
            } else {
                None::<u8>
            },
            r.h_blank_irq@ == seq![
                old(self).disp_stat@[0] & H_BLANK_IRQ_ENABLE != 0,
                old(self).disp_stat@[1] & H_BLANK_IRQ_ENABLE != 0,
            ],
            r.next == (594u32, EventType::GpuScanline355),
    {
        let render_line = if self.v_count < 192 {
            Some(self.v_count as u8)
        } else {
            None
        };
        let s0 = self.disp_stat[0];
        let s1 = self.disp_stat[1];
        proof {
            lemma_stat_bits(s0, 0, 0);
            lemma_stat_bits(s1, 0, 0);
        }
        self.disp_stat = [s0 | H_BLANK_FLAG, s1 | H_BLANK_FLAG];
        let irq = [s0 & H_BLANK_IRQ_ENABLE != 0, s1 & H_BLANK_IRQ_ENABLE != 0];
        let r = HBlankActions { render_line, h_blank_irq: irq, next: ((355 - 256) * 6, EventType::GpuScanline355) };
        assert(self.disp_stat@ =~= seq![s0 | H_BLANK_FLAG, s1 | H_BLANK_FLAG]);
        assert(r.h_blank_irq@ =~= seq![s0 & H_BLANK_IRQ_ENABLE != 0, s1 & H_BLANK_IRQ_ENABLE != 0]);
        r
    }

    /// End of the current line: the counter moves on (263 lines a frame);
    /// line 192 starts vertical blank and ends the frame, line 262 ends
    /// vertical blank, and each processor's counter match flag follows its
    /// set line.
    pub fn on_scanline355(&mut self) -> (r: LineEndActions)
        requires
            old(self).wf(),
        ensures
            final(self).wf(),
            ({
                let line = (old(self).v_count + 1) as u16;
                &&& final(self).v_count == line % 263
                &&& final(self).disp_stat@ == seq![
                    stat_at_line_end(old(self).disp_stat@[0], line),
                    stat_at_line_end(old(self).disp_stat@[1], line),
                ]
                &&& final(self).disp_cap_cnt == if line == 192 {
                    old(self).disp_cap_cnt & !0x8000_0000u32
                } else {
                    old(self).disp_cap_cnt
                }
                &&& final(self).pow_cnt1 == old(self).pow_cnt1
                &&& r.frame_finished == (line == 192)
                &&& r.v_blank_irq@ == seq![
                    line == 192 && old(self).disp_stat@[0] & V_BLANK_IRQ_ENABLE != 0,
                    line == 192 && old(self).disp_stat@[1] & V_BLANK_IRQ_ENABLE != 0,
                ]
                &&& r.reload_registers == (line == 262)
                &&& r.frame_ready == (line == 263)
                &&& r.v_counter_irq@ == seq![
                    line % 263 == v_match(old(self).disp_stat@[0]) && old(self).disp_stat@[0] & V_COUNTER_IRQ_ENABLE != 0,
                    line % 263 == v_match(old(self).disp_stat@[1]) && old(self).disp_stat@[1] & V_COUNTER_IRQ_ENABLE != 0,
                ]
                &&& r.next == (1536u32, EventType::GpuScanline256)
            }),
    {
        let line = self.v_count + 1;
        let mut v_blank_irq = [false, false];
        let mut frame_finished = false;
        let mut reload_registers = false;
        let mut frame_ready = false;
        let s0 = self.disp_stat[0];
        let s1 = self.disp_stat[1];
        proof {
            lemma_stat_bits(s0, 0, 0);
            lemma_stat_bits(s1, 0, 0);
        }
        self.v_count = line;
        if line == 192 {
            frame_finished = true;
            self.disp_stat = [s0 | V_BLANK_FLAG, s1 | V_BLANK_FLAG];
            v_blank_irq = [s0 & V_BLANK_IRQ_ENABLE != 0, s1 & V_BLANK_IRQ_ENABLE != 0];
            self.disp_cap_cnt = self.disp_cap_cnt & !0x8000_0000u32;
        } else if line == 262 {
            self.disp_stat = [s0 & !V_BLANK_FLAG, s1 & !V_BLANK_FLAG];
            reload_registers = true;
        } else if line == 263 {
            frame_ready = true;
            self.v_count = 0;
        }
        let mut v_counter_irq = [false, false];
        let mut i: usize = 0;
        while i < 2
            invariant
                i <= 2,
                self.v_count == line % 263,
                line == old(self).v_count + 1,
                self.pow_cnt1 == old(self).pow_cnt1,
                self.disp_cap_cnt == if line == 192 {
                    old(self).disp_cap_cnt & !0x8000_0000u32
                } else {
                    old(self).disp_cap_cnt
                },
                old(self).v_count <= 262,
                forall|k: int|
                    0 <= k < 2 ==> #[trigger] self.disp_stat@[k] == if k < i {
                        stat_at_line_end(old(self).disp_stat@[k], line)
                    } else {
                        if line == 192 {
                            old(self).disp_stat@[k] | V_BLANK_FLAG
                        } else if line == 262 {
                            old(self).disp_stat@[k] & !V_BLANK_FLAG
                        } else {
                            old(self).disp_stat@[k]
                        }
                    },
                forall|k: int|
                    0 <= k < i ==> #[trigger] v_counter_irq@[k] == (line % 263 == v_match(old(self).disp_stat@[k])
                        && old(self).disp_stat@[k] & V_COUNTER_IRQ_ENABLE != 0),
                forall|k: int| i <= k < 2 ==> !#[trigger] v_counter_irq@[k],
            decreases 2 - i,
        {
            let s = self.disp_stat[i];
            let ghost o = old(self).disp_stat@[i as int];
            proof {
                lemma_stat_bits(o, 0, 0);
                lemma_stat_bits(s, 0, 0);
                assert(v_match(s) == v_match(o));
                assert(s & V_COUNTER_IRQ_ENABLE == o & V_COUNTER_IRQ_ENABLE);
            }
            let vm = (((s >> 7u16) & 1) << 8u16) | (s >> 8u16);
            let s2 = if self.v_count == vm {
                v_counter_irq[i] = s & V_COUNTER_IRQ_ENABLE != 0;
                s | V_COUNTER_FLAG
            } else {
                s & !V_COUNTER_FLAG
            };
            self.disp_stat[i] = s2 & !H_BLANK_FLAG;
            i = i + 1;
        }
        proof {
            assert(self.disp_stat@ =~= seq![
                stat_at_line_end(old(self).disp_stat@[0], line),
                stat_at_line_end(old(self).disp_stat@[1], line),
            ]);
            assert(v_counter_irq@ =~= seq![
                line % 263 == v_match(old(self).disp_stat@[0]) && old(self).disp_stat@[0] & V_COUNTER_IRQ_ENABLE != 0,
                line % 263 == v_match(old(self).disp_stat@[1]) && old(self).disp_stat@[1] & V_COUNTER_IRQ_ENABLE != 0,
            ]);
            let a = old(self).disp_stat@[0];
            let b = old(self).disp_stat@[1];
            lemma_stat_bits(a | V_BLANK_FLAG, 0, 0);
            lemma_stat_bits(a & !V_BLANK_FLAG, 0, 0);
            lemma_stat_bits(b | V_BLANK_FLAG, 0, 0);
            lemma_stat_bits(b & !V_BLANK_FLAG, 0, 0);
        }
        let r = LineEndActions {
            frame_finished,
            v_blank_irq,
            reload_registers,
            frame_ready,
            v_counter_irq,
            next: (256 * 6, EventType::GpuScanline256),
        };
        assert(r.v_blank_irq@ =~= seq![
            line == 192 && old(self).disp_stat@[0] & V_BLANK_IRQ_ENABLE != 0,
            line == 192 && old(self).disp_stat@[1] & V_BLANK_IRQ_ENABLE != 0,
        ]);
        r
    }
}

} // verus!
