use vstd::prelude::*;
use crate::cartridge_layout::{le_u32, read_u32_le};

verus! {

/// Bytes of VRAM bank A, the size of each of the four banks that can hold a
/// display capture.
pub const BANK_A_SIZE: usize = 0x20000;

/// Number of VRAM banks.
pub const BANK_COUNT: usize = 9;

/// Bytes of palette memory of both engines.
pub const STANDARD_PALETTES_SIZE: usize = 0x800;

/// Bytes of object attribute memory of both engines.
pub const OAM_SIZE: usize = 0x800;

/// Bytes of one capture block: a bank holds four.
pub const CAPTURE_BLOCK_SIZE: usize = 0x8000;

/// The marker written at the start of a VRAM block that holds a display
/// capture.
pub const CAPTURE_IDENTIFIER: [u8; 8] = [0x43, 0x41, 0x50, 0x54, 0x55, 0x52, 0x45, 0x5F];

/// The marker as a sequence: "CAPTURE_".
pub open spec fn capture_identifier() -> Seq<u8> {
    seq![0x43u8, 0x41, 0x50, 0x54, 0x55, 0x52, 0x45, 0x5F]
}

/// Whether byte `i` is one of the first eight bytes of a capture block of
/// the first four banks.
pub open spec fn in_marker_area(i: int) -> bool {
    0 <= i < 4 * BANK_A_SIZE && i % (CAPTURE_BLOCK_SIZE as int) < 8
}

/// Whether the capture block that byte `i` lies in starts with the marker.
pub open spec fn block_marked(s: Seq<u8>, i: int) -> bool {
    let start = i - i % (CAPTURE_BLOCK_SIZE as int);
    s.subrange(start, start + 8) == capture_identifier()
}

/// Bytes of all VRAM banks together.
pub const VRAM_TOTAL_SIZE: usize = 0xA4000;

/// Where bank `b` starts in VRAM: A to D take 128 KiB each, E 64 KiB,
/// F and G 16 KiB, H 32 KiB and I 16 KiB, in that order.
pub open spec fn bank_start(b: int) -> int {
    if b < 4 {
        b * 0x20000
    } else if b == 4 {
        0x80000
    } else if b == 5 {
        0x90000
    } else if b == 6 {
        0x94000
    } else if b == 7 {
        0x98000
    } else {
        0xA0000
    }
}

/// The bank that VRAM byte `i` belongs to.
pub open spec fn bank_of(i: int) -> int {
    if i < 0x20000 {
        0
    } else if i < 0x40000 {
        1
    } else if i < 0x60000 {
        2
    } else if i < 0x80000 {
        3
    } else if i < 0x90000 {
        4
    } else if i < 0x94000 {
        5
    } else if i < 0x98000 {
        6
    } else if i < 0xA0000 {
        7
    } else {
        8
    }
}

/// Whether a bank control value enables its bank (bit 7).
pub open spec fn bank_enabled(cnt: u8) -> bool {
    cnt & 0x80 != 0
}

/// The first byte of bank `b` and the first byte after it.
fn bank_range(b: usize) -> (r: (usize, usize))
    requires
        b < 9,
    ensures
        r.0 == bank_start(b as int),
        r.1 == if b == 8 {
            VRAM_TOTAL_SIZE as int
        } else {
            bank_start(b + 1)
        },
        forall|i: int| r.0 <= i < r.1 <==> 0 <= i < VRAM_TOTAL_SIZE && bank_of(i) == b,
{
    if b < 4 {
        (b * 0x20000, b * 0x20000 + 0x20000)
    } else if b == 4 {
        (0x80000, 0x90000)
    } else if b == 5 {
        (0x90000, 0x94000)
    } else if b == 6 {
        (0x94000, 0x98000)
    } else if b == 7 {
        (0x98000, 0xA0000)
    } else {
        (0xA0000, 0xA4000)
    }
}

/// Whether a display capture control word has capturing enabled (bit 31).
pub open spec fn capture_enabled(c: u32) -> bool {
    c & 0x8000_0000 != 0
}

/// The bank a capture is written to (bits 16 and 17).
pub open spec fn capture_write_block(c: u32) -> u32 {
    (c >> 16u32) & 3
}

/// The 32 KiB block of the bank a capture is written to (bits 18 and 19).
pub open spec fn capture_write_offset(c: u32) -> u32 {
    (c >> 18u32) & 3
}

/// Bytes of one capture, by its size (bits 20 and 21): 128x128, 256x64,
/// 256x128 or 256x192 pixels of two bytes.
pub open spec fn capture_bytes(c: u32) -> int {
    let size = (c >> 20u32) & 3;
    if size == 0 {
        0x8000
    } else if size == 1 {
        0x8000
    } else if size == 2 {
        0x10000
    } else {
        0x18000
    }
}

/// Byte `k` (0 to 3) of a word, least significant first.
pub open spec fn word_byte(w: u32, k: int) -> u8 {
    ((w >> (8 * k) as u32) & 0xFF) as u8
}

/// Whether capture block `blk` (0 to 15, four to a bank) of `mem` takes a
/// capture: its bank is enabled, it starts with the marker, and the capture
/// control word stored after the marker is enabled and names this block.
pub open spec fn capture_lands(mem: Seq<u8>, cnt: Seq<u8>, blk: int) -> bool {
    let start = blk * CAPTURE_BLOCK_SIZE as int;
    let c = le_u32(mem, start + 8);
    &&& bank_enabled(cnt[blk / 4])
    &&& mem.subrange(start, start + 8) == capture_identifier()
    &&& capture_enabled(c)
    &&& capture_write_block(c) == blk / 4
    &&& capture_write_offset(c) == blk % 4
}

/// `mem` after capture block `blk` has been looked at: where a capture lands,
/// its bytes are copied from the same place of `cap`.
pub open spec fn insert_block(mem: Seq<u8>, cnt: Seq<u8>, cap: Seq<u8>, blk: int) -> Seq<u8> {
    let start = blk * CAPTURE_BLOCK_SIZE as int;
    let n = capture_bytes(le_u32(mem, start + 8));
    if capture_lands(mem, cnt, blk) {
        Seq::new(mem.len(), |i: int| if start <= i < start + n { cap[i] } else { mem[i] })
    } else {
        mem
    }
}

/// `mem` after the first `n` capture blocks have been looked at, in order.
pub open spec fn insert_blocks(mem: Seq<u8>, cnt: Seq<u8>, cap: Seq<u8>, n: int) -> Seq<u8>
    decreases n,
{
    if n <= 0 {
        mem
    } else {
        insert_block(insert_blocks(mem, cnt, cap, n - 1), cnt, cap, n - 1)
    }
}

/// Whether no capture that lands reaches past the captured frames `cap`.
pub open spec fn captures_fit(mem: Seq<u8>, cnt: Seq<u8>, cap: Seq<u8>) -> bool {
    forall|blk: int|
        0 <= blk < 16 && #[trigger] capture_lands(insert_blocks(mem, cnt, cap, blk), cnt, blk) ==> blk
            * CAPTURE_BLOCK_SIZE as int + capture_bytes(
            le_u32(insert_blocks(mem, cnt, cap, blk), blk * CAPTURE_BLOCK_SIZE as int + 8),
        ) <= cap.len()
}

proof fn lemma_insert_blocks_len(mem: Seq<u8>, cnt: Seq<u8>, cap: Seq<u8>, n: int)
    ensures
        insert_blocks(mem, cnt, cap, n).len() == mem.len(),
    decreases n,
{
    if n > 0 {
        lemma_insert_blocks_len(mem, cnt, cap, n - 1);
    }
}

/// VRAM, palettes and object memory as the renderer last took them from the
/// emulated machine.
pub struct GpuMemBuf {
    pub vram_cnt: [u8; 9],
    pub queued_vram_cnt: [u8; 9],
    pub vram_mem: Vec<u8>,
    pub pal: Vec<u8>,
    pub oam: Vec<u8>,
}

impl GpuMemBuf {
    /// Whether the buffers have the sizes of the machine's memories.
    pub open spec fn wf(&self) -> bool {
        &&& self.vram_mem@.len() == VRAM_TOTAL_SIZE
        &&& self.pal@.len() == STANDARD_PALETTES_SIZE
        &&& self.oam@.len() == OAM_SIZE
    }

    /// Banks unmapped, memory zero.
    pub fn new() -> (r: Self)
        ensures
            r.wf(),
            r.vram_cnt@ == Seq::new(9, |i: int| 0u8),
            r.queued_vram_cnt@ == Seq::new(9, |i: int| 0u8),
            r.vram_mem@ == Seq::new(VRAM_TOTAL_SIZE as nat, |i: int| 0u8),
            r.pal@ == Seq::new(STANDARD_PALETTES_SIZE as nat, |i: int| 0u8),
            r.oam@ == Seq::new(OAM_SIZE as nat, |i: int| 0u8),
    {
        let r = GpuMemBuf {
            vram_cnt: [0u8; 9],
            queued_vram_cnt: [0u8; 9],
            vram_mem: vec![0u8; VRAM_TOTAL_SIZE],
            pal: vec![0u8; STANDARD_PALETTES_SIZE],
            oam: vec![0u8; OAM_SIZE],
        };
        assert(r.vram_cnt@ =~= Seq::new(9, |i: int| 0u8));
        assert(r.queued_vram_cnt@ =~= Seq::new(9, |i: int| 0u8));
        assert(r.vram_mem@ =~= Seq::new(VRAM_TOTAL_SIZE as nat, |i: int| 0u8));
        assert(r.pal@ =~= Seq::new(STANDARD_PALETTES_SIZE as nat, |i: int| 0u8));
        assert(r.oam@ =~= Seq::new(OAM_SIZE as nat, |i: int| 0u8));
        r
    }

    /// Copies the banks that the queued bank controls enable from the
    /// machine's VRAM; the others keep what they held.
    pub fn read_vram(&mut self, vram: &[u8; VRAM_TOTAL_SIZE])
        requires
            old(self).wf(),
        ensures
            final(self).wf(),
            forall|i: int|
                0 <= i < VRAM_TOTAL_SIZE ==> #[trigger] final(self).vram_mem@[i] == if bank_enabled(
                    old(self).queued_vram_cnt@[bank_of(i)],
                ) {
                    vram@[i]
                } else {
                    old(self).vram_mem@[i]
                },
            final(self).vram_cnt == old(self).vram_cnt,
            final(self).queued_vram_cnt == old(self).queued_vram_cnt,
            final(self).pal == old(self).pal,
            final(self).oam == old(self).oam,
    {
        let ghost before = self.vram_mem@;
        let mut b: usize = 0;
        while b < 9
            invariant
                b <= 9,
                self.wf(),
                before.len() == VRAM_TOTAL_SIZE,
                self.vram_cnt == old(self).vram_cnt,
                self.queued_vram_cnt == old(self).queued_vram_cnt,
                self.pal == old(self).pal,
                self.oam == old(self).oam,
                forall|i: int|
                    0 <= i < VRAM_TOTAL_SIZE ==> #[trigger] self.vram_mem@[i] == if bank_of(i) < b
                        && bank_enabled(self.queued_vram_cnt@[bank_of(i)]) {
                        vram@[i]
                    } else {
                        before[i]
                    },
            decreases 9 - b,
        {
            if self.queued_vram_cnt[b] & 0x80 != 0 {
                let (start, end) = bank_range(b);
                let mut k: usize = start;
                while k < end
                    invariant
                        start <= k <= end,
                        end <= VRAM_TOTAL_SIZE,
                        b < 9,
                        self.wf(),
                        before.len() == VRAM_TOTAL_SIZE,
                        bank_enabled(self.queued_vram_cnt@[b as int]),
                        self.vram_cnt == old(self).vram_cnt,
                        self.queued_vram_cnt == old(self).queued_vram_cnt,
                        self.pal == old(self).pal,
                        self.oam == old(self).oam,
                        forall|i: int| start <= i < end <==> 0 <= i < VRAM_TOTAL_SIZE && bank_of(i) == b,
                        forall|i: int|
                            0 <= i < VRAM_TOTAL_SIZE ==> #[trigger] self.vram_mem@[i] == if (bank_of(i) < b
                                && bank_enabled(self.queued_vram_cnt@[bank_of(i)])) || (start <= i < k) {
                                vram@[i]
                            } else {
                                before[i]
                            },
                    decreases end - k,
                {
                    self.vram_mem[k] = vram[k];
                    k = k + 1;
                }
            }
            b = b + 1;
        }
    }

    /// Takes the palettes and the object memory of both engines.
    pub fn read_palettes_oam(
        &mut self,
        palettes: &[u8; STANDARD_PALETTES_SIZE],
        oam: &[u8; OAM_SIZE],
    )
        requires
            old(self).wf(),
        ensures
            final(self).wf(),
            final(self).pal@ == palettes@,
            final(self).oam@ == oam@,
            final(self).vram_mem == old(self).vram_mem,
            final(self).vram_cnt == old(self).vram_cnt,
            final(self).queued_vram_cnt == old(self).queued_vram_cnt,
    {
        let mut k: usize = 0;
        while k < STANDARD_PALETTES_SIZE
            invariant
                k <= STANDARD_PALETTES_SIZE,
                self.pal@.len() == STANDARD_PALETTES_SIZE,
                self.oam@.len() == OAM_SIZE,
                forall|i: int| 0 <= i < k ==> self.pal@[i] == palettes@[i],
                forall|i: int| 0 <= i < k ==> self.oam@[i] == oam@[i],
                self.vram_mem == old(self).vram_mem,
                self.vram_cnt == old(self).vram_cnt,
                self.queued_vram_cnt == old(self).queued_vram_cnt,
            decreases STANDARD_PALETTES_SIZE - k,
        {
            self.pal[k] = palettes[k];
            self.oam[k] = oam[k];
            k = k + 1;
        }
        assert(self.pal@ =~= palettes@);
        assert(self.oam@ =~= oam@);
    }

    /// The standard palettes and object memory of one engine (the second
    /// half of each for engine B), as the renderer hands them to it.
    pub fn engine_palettes_oam(&self, engine_b: bool) -> (r: (Vec<u8>, Vec<u8>))
        requires
            self.wf(),
        ensures
            r.0@ == (if engine_b {
                self.pal@.subrange((STANDARD_PALETTES_SIZE / 2) as int, STANDARD_PALETTES_SIZE as int)
            } else {
                self.pal@.subrange(0, (STANDARD_PALETTES_SIZE / 2) as int)
            }),
            r.1@ == (if engine_b {
                self.oam@.subrange((OAM_SIZE / 2) as int, OAM_SIZE as int)
            } else {
                self.oam@.subrange(0, (OAM_SIZE / 2) as int)
            }),
    {
        let (ps, os) = if engine_b { (STANDARD_PALETTES_SIZE / 2, OAM_SIZE / 2) } else { (0, 0) };
        let mut pal: Vec<u8> = Vec::new();
        let mut oam: Vec<u8> = Vec::new();
        let mut k: usize = 0;
        while k < STANDARD_PALETTES_SIZE / 2
            invariant
                k <= STANDARD_PALETTES_SIZE / 2,
                self.wf(),
                ps + STANDARD_PALETTES_SIZE / 2 <= STANDARD_PALETTES_SIZE,
                os + OAM_SIZE / 2 <= OAM_SIZE,
                ps == (if engine_b { STANDARD_PALETTES_SIZE / 2 } else { 0 }),
                os == (if engine_b { OAM_SIZE / 2 } else { 0 }),
                pal@ == self.pal@.subrange(ps as int, ps + k),
                oam@ == self.oam@.subrange(os as int, os + k),
            decreases STANDARD_PALETTES_SIZE / 2 - k,
        {
            pal.push(self.pal[ps + k]);
            oam.push(self.oam[os + k]);
            k = k + 1;
            assert(pal@ =~= self.pal@.subrange(ps as int, ps + k));
            assert(oam@ =~= self.oam@.subrange(os as int, os + k));
        }
        (pal, oam)
    }

    /// Unmaps every bank.
    pub fn init(&mut self)
        ensures
            final(self).vram_cnt@ == Seq::new(9, |i: int| 0u8),
            final(self).queued_vram_cnt == old(self).queued_vram_cnt,
            final(self).vram_mem == old(self).vram_mem,
    {
        self.vram_cnt = [0u8; 9];
        assert(self.vram_cnt@ =~= Seq::new(9, |i: int| 0u8));
    }

    /// Remembers the bank controls of the frame that is being drawn.
    pub fn queue_vram(&mut self, cnt: &[u8; 9])
        ensures
            final(self).queued_vram_cnt == *cnt,
            final(self).vram_cnt == old(self).vram_cnt,
            final(self).vram_mem == old(self).vram_mem,
    {
        self.queued_vram_cnt = *cnt;
    }

    /// Takes the remembered bank controls as the current ones.
    pub fn use_queued_vram(&mut self)
        ensures
            final(self).vram_cnt == old(self).queued_vram_cnt,
            final(self).queued_vram_cnt == old(self).queued_vram_cnt,
            final(self).vram_mem == old(self).vram_mem,
    {
        self.vram_cnt = self.queued_vram_cnt;
    }

    /// Marks the 32 KiB block of `bank` that capture control `disp_cap_cnt`
    /// writes to: the marker, then the control word, least significant byte
    /// first.
    pub fn mark_block_as_captured(disp_cap_cnt: u32, bank: &mut [u8; BANK_A_SIZE])
        ensures
            ({
                let w = capture_write_offset(disp_cap_cnt) * CAPTURE_BLOCK_SIZE as int;
                forall|i: int|
                    0 <= i < BANK_A_SIZE ==> #[trigger] final(bank)@[i] == if w <= i < w + 8 {
                        capture_identifier()[i - w]
                    } else if w + 8 <= i < w + 12 {
                        word_byte(disp_cap_cnt, i - w - 8)
                    } else {
                        old(bank)@[i]
                    }
            }),
    {
        let c = disp_cap_cnt;
        let off = (c >> 18u32) & 3;
        assert(off < 4) by (bit_vector)
            requires
                off == (c >> 18u32) & 3,
        ;
        let w = off as usize * CAPTURE_BLOCK_SIZE;
        let id = CAPTURE_IDENTIFIER;
        assert(id@ == capture_identifier());
        let ghost before = bank@;
        let mut k: usize = 0;
        while k < 8
            invariant
                k <= 8,
                w + 12 <= BANK_A_SIZE,
                id@ == capture_identifier(),
                forall|i: int|
                    0 <= i < BANK_A_SIZE ==> #[trigger] bank@[i] == if w <= i < w + k {
                        capture_identifier()[i - w]
                    } else {
                        before[i]
                    },
            decreases 8 - k,
        {
            bank[w + k] = id[k];
            k = k + 1;
        }
        let b0 = ((c >> 0u32) & 0xFF) as u8;
        let b1 = ((c >> 8u32) & 0xFF) as u8;
        let b2 = ((c >> 16u32) & 0xFF) as u8;
        let b3 = ((c >> 24u32) & 0xFF) as u8;
        bank[w + 8] = b0;
        bank[w + 9] = b1;
        bank[w + 10] = b2;
        bank[w + 11] = b3;
        assert(word_byte(c, 0) == b0 && word_byte(c, 1) == b1 && word_byte(c, 2) == b2 && word_byte(c, 3) == b3);
    }

    /// Copies the captured frames `capture_mem` (the first four banks'
    /// worth) into the capture blocks that take them, block by block: a
    /// block of an enabled bank that starts with the marker, followed by an
    /// enabled capture control word naming this block, gets the capture's
    /// bytes from the same place of `capture_mem`.
    pub fn insert_capture_mem(&mut self, capture_mem: &[u8; 0x80000])
        requires
            old(self).wf(),
            captures_fit(old(self).vram_mem@, old(self).vram_cnt@, capture_mem@),
        ensures
            final(self).wf(),
            final(self).vram_mem@ == insert_blocks(old(self).vram_mem@, old(self).vram_cnt@, capture_mem@, 16),
            final(self).vram_cnt == old(self).vram_cnt,
            final(self).queued_vram_cnt == old(self).queued_vram_cnt,
            final(self).pal == old(self).pal,
            final(self).oam == old(self).oam,
    {
        let id = CAPTURE_IDENTIFIER;
        assert(id@ == capture_identifier());
        let ghost mem0 = self.vram_mem@;
        let ghost cnt = self.vram_cnt@;
        let ghost cap = capture_mem@;
        let mut blk: usize = 0;
        while blk < 16
            invariant
                blk <= 16,
                self.wf(),
                id@ == capture_identifier(),
                cnt == self.vram_cnt@,
                cap == capture_mem@,
                cap.len() == 0x80000,
                captures_fit(mem0, cnt, cap),
                self.vram_mem@ == insert_blocks(mem0, cnt, cap, blk as int),
                self.vram_cnt == old(self).vram_cnt,
                self.queued_vram_cnt == old(self).queued_vram_cnt,
                self.pal == old(self).pal,
                self.oam == old(self).oam,
            decreases 16 - blk,
        {
            let start = blk * CAPTURE_BLOCK_SIZE;
            let bank_num = blk / 4;
            let offset_num = blk % 4;
            let ghost mem = self.vram_mem@;
            let mut lands = self.vram_cnt[bank_num] & 0x80 != 0;
            let mut k: usize = 0;
            while k < 8
                invariant
                    k <= 8,
                    start == blk * CAPTURE_BLOCK_SIZE,
                    blk < 16,
                    id@ == capture_identifier(),
                    self.vram_mem@ == mem,
                    mem.len() == VRAM_TOTAL_SIZE,
                    lands == (bank_enabled(cnt[blk as int / 4]) && forall|j: int|
                        0 <= j < k ==> mem[start + j] == capture_identifier()[j]),
                    cnt == self.vram_cnt@,
                decreases 8 - k,
            {
                if self.vram_mem[start + k] != id[k] {
                    lands = false;
                }
                k = k + 1;
            }
            proof {
                assert((forall|j: int| 0 <= j < 8 ==> mem[start + j] == capture_identifier()[j]) == (
                mem.subrange(start as int, start + 8) =~= capture_identifier()));
            }
            let c = read_u32_le(self.vram_mem.as_slice(), start + 8);
            let wb = (c >> 16u32) & 3;
            let wo = (c >> 18u32) & 3;
            let size = (c >> 20u32) & 3;
            if lands && c & 0x8000_0000 != 0 && wb == bank_num as u32 && wo == offset_num as u32 {
                let n: usize = if size == 0 {
                    0x8000
                } else if size == 1 {
                    0x8000
                } else if size == 2 {
                    0x10000
                } else {
                    0x18000
                };
                proof {
                    assert(capture_lands(mem, cnt, blk as int));
                    assert(n == capture_bytes(le_u32(mem, start + 8)));
                }
                let mut k: usize = start;
                while k < start + n
                    invariant
                        start <= k <= start + n,
                        start + n <= 0x80000,
                        self.wf(),
                        cap == capture_mem@,
                        cap.len() == 0x80000,
                        mem.len() == VRAM_TOTAL_SIZE,
                        forall|i: int|
                            0 <= i < VRAM_TOTAL_SIZE ==> #[trigger] self.vram_mem@[i] == if start <= i < k {
                                cap[i]
                            } else {
                                mem[i]
                            },
                        self.vram_cnt == old(self).vram_cnt,
                        self.queued_vram_cnt == old(self).queued_vram_cnt,
                        self.pal == old(self).pal,
                        self.oam == old(self).oam,
                    decreases start + n - k,
                {
                    self.vram_mem[k] = capture_mem[k];
                    k = k + 1;
                }
                proof {
                    assert(self.vram_mem@ =~= insert_block(mem, cnt, cap, blk as int));
                }
            } else {
                proof {
                    assert(!capture_lands(mem, cnt, blk as int));
                }
            }
            blk = blk + 1;
        }
    }

    /// Clears the capture marker of every capture block that has one, in the
    /// first four banks of `vram_mem`.
    pub fn unmark_blocks_as_captured(vram_mem: &mut Vec<u8>)
        requires
            old(vram_mem)@.len() >= 4 * BANK_A_SIZE,
        ensures
            final(vram_mem)@.len() == old(vram_mem)@.len(),
            forall|i: int|
                0 <= i < final(vram_mem)@.len() ==> #[trigger] final(vram_mem)@[i] == if in_marker_area(i)
                    && block_marked(old(vram_mem)@, i) {
                    0u8
                } else {
                    old(vram_mem)@[i]
                },
    {
        let id = CAPTURE_IDENTIFIER;
        assert(id@ == capture_identifier());
        let mut block: usize = 0;
        while block < 16
            invariant
                block <= 16,
                id@ == capture_identifier(),
                vram_mem@.len() == old(vram_mem)@.len(),
                old(vram_mem)@.len() >= 4 * BANK_A_SIZE,
                forall|i: int|
                    0 <= i < vram_mem@.len() ==> #[trigger] vram_mem@[i] == if in_marker_area(i)
                        && i < block * CAPTURE_BLOCK_SIZE && block_marked(old(vram_mem)@, i) {
                        0u8
                    } else {
                        old(vram_mem)@[i]
                    },
            decreases 16 - block,
        {
            let start = block * CAPTURE_BLOCK_SIZE;
            let mut matches = true;
            let mut k: usize = 0;
            while k < 8
                invariant
                    k <= 8,
                    start == block * CAPTURE_BLOCK_SIZE,
                    block < 16,
                    id@ == capture_identifier(),
                    vram_mem@.len() >= 4 * BANK_A_SIZE,
                    forall|j: int| start <= j < start + 8 ==> vram_mem@[j] == old(vram_mem)@[j],
                    matches == forall|j: int| 0 <= j < k ==> old(vram_mem)@[start + j] == capture_identifier()[j],
                decreases 8 - k,
            {
                if vram_mem[start + k] != id[k] {
                    matches = false;
                }
                k = k + 1;
            }
            proof {
                assert(matches == (old(vram_mem)@.subrange(start as int, start + 8) =~= capture_identifier()));
            }
            let ghost before = vram_mem@;
            if matches {
                let mut k: usize = 0;
                while k < 8
                    invariant
                        k <= 8,
                        start == block * CAPTURE_BLOCK_SIZE,
                        block < 16,
                        vram_mem@.len() == before.len(),
                        before.len() >= 4 * BANK_A_SIZE,
                        forall|j: int|
                            0 <= j < vram_mem@.len() ==> #[trigger] vram_mem@[j] == if start <= j < start + k {
                                0u8
                            } else {
                                before[j]
                            },
                    decreases 8 - k,
                {
                    vram_mem.set(start + k, 0);
                    k = k + 1;
                }
            }
            proof {
                assert forall|i: int| 0 <= i < vram_mem@.len() implies #[trigger] vram_mem@[i] == if in_marker_area(i)
                    && i < (block + 1) * CAPTURE_BLOCK_SIZE && block_marked(old(vram_mem)@, i) {
                    0u8
                } else {
                    old(vram_mem)@[i]
                } by {
                    if start <= i < start + CAPTURE_BLOCK_SIZE {
                        assert(i - i % (CAPTURE_BLOCK_SIZE as int) == start) by (nonlinear_arith)
                            requires
                                start == block * CAPTURE_BLOCK_SIZE,
                                start <= i < start + CAPTURE_BLOCK_SIZE,
                                CAPTURE_BLOCK_SIZE == 0x8000,
                        ;
                    } else if i < start {
                        assert(i < block * CAPTURE_BLOCK_SIZE);
                    } else {
                        assert(i >= (block + 1) * CAPTURE_BLOCK_SIZE);
                    }
                }
            }
            block = block + 1;
        }
    }
}

} // verus!
