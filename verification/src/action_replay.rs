use vstd::prelude::*;

verus! {

/// A memory access the interpreter asks for, or the end of the code.
/// The value of a read is handed to the next `step`, zero-extended.
#[derive(PartialEq, Eq, Structural, Debug, Clone, Copy)]
pub enum ArAction {
    /// The code ran to its end.
    Done,
    /// The step changed only the interpreter's own state.
    Idle,
    Read8(u32),
    Read16(u32),
    Read32(u32),
    Write8(u32, u8),
    Write16(u32, u16),
    Write32(u32, u32),
}

/// What the interpreter does with the next step.
#[derive(PartialEq, Eq, Structural, Debug, Clone, Copy)]
pub enum ArPending {
    /// Decode the code line at `addr`.
    Fetch,
    /// Set the condition flag from the word read.
    CondWord { op0: u32, op1: u32 },
    /// Set the condition flag from the half-word read.
    CondHalf { op0: u32, op1: u32 },
    /// Load the offset register from the word read.
    LoadOffset,
    /// Load the data register from the value read, cut to the given byte width.
    LoadData { width: u8 },
    /// Write byte `j` of the inline parameters of a parameter-copy line.
    ParamCopy { op0: u32, op1: u32, j: u32 },
    /// Read byte `j` of a memory copy.
    CopyRead { op0: u32, op1: u32, j: u32 },
    /// Write byte `j` of a memory copy, the value read.
    CopyWrite { op0: u32, op1: u32, j: u32 },
}

/// The Action Replay DS code interpreter: its registers and where it stands in
/// the code (pairs of words, `addr` indexes the first word of a line).
#[derive(PartialEq, Eq, Structural, Debug, Clone, Copy)]
pub struct ArInterpreter {
    pub offset: u32,
    pub data_reg: u32,
    pub counter: u32,
    pub loop_count: u32,
    pub loop_address: u64,
    pub cond_flag: bool,
    pub addr: u64,
    pub pending: ArPending,
}

/// Longest code the interpreter runs: a slice of words cannot be longer.
pub open spec fn max_code_len() -> int {
    0x2000_0000_0000_0000
}

/// Words a parameter-copy line of `op1` bytes skips after the line.
pub open spec fn param_skip(op1: u32) -> u64 {
    (((op1 as u64 + 7) as u64) & !7u64) >> 2u64
}

/// The address field of a code line.
pub open spec fn line_addr(op0: u32) -> u32 {
    op0 & 0x0FFF_FFFF
}

/// The address a condition line reads: its own field, or the offset when that is 0.
pub open spec fn cond_addr(op0: u32, offset: u32) -> u32 {
    if line_addr(op0) != 0 { line_addr(op0) } else { offset }
}

/// Byte `j` of the inline parameters that follow the line at `addr`.
pub open spec fn param_byte(code: Seq<u32>, addr: u64, j: u32) -> u8 {
    let idx = addr as int + 2 + (j >> 2u32) as int;
    let word: u32 = if 0 <= idx < code.len() { code[idx] } else { 0 };
    (word >> ((j & 3) * 8)) as u8
}

/// The condition flag a word condition sets: it is set when the condition
/// does not hold.
pub open spec fn word_cond(op0: u32, op1: u32, mem: u32) -> bool {
    let kind = op0 >> 28u32;
    if kind == 3 { op1 <= mem } else if kind == 4 { op1 >= mem } else if kind == 5 { op1 != mem } else { op1 == mem }
}

/// The condition flag a half-word condition sets, the upper half of `op1`
/// masking bits of the value read.
pub open spec fn half_cond(op0: u32, op1: u32, mem16: u16) -> bool {
    let kind = op0 >> 28u32;
    let mem = (mem16 as u32) & !(op1 >> 16u32);
    let value = op1 & 0xFFFF;
    if kind == 7 { value <= mem } else if kind == 8 { value >= mem } else if kind == 9 { value != mem } else { value == mem }
}

/// Moves past the current line.
pub open spec fn next_line(s: ArInterpreter) -> ArInterpreter {
    ArInterpreter { addr: (s.addr + 2) as u64, pending: ArPending::Fetch, ..s }
}

/// The control lines (0xD0 to 0xDC): conditions, loops and the offset and data
/// registers.
pub open spec fn ar_control_line(s: ArInterpreter, op: u32, op1: u32) -> (ArInterpreter, ArAction) {
    let at = op1.wrapping_add(s.offset);
    if op == 0xD0 {
        (next_line(ArInterpreter { cond_flag: false, ..s }), ArAction::Idle)
    } else if op == 0xD1 || op == 0xD2 {
        if s.loop_count != 0 {
            (next_line(ArInterpreter { loop_count: (s.loop_count - 1) as u32, addr: s.loop_address, ..s }), ArAction::Idle)
        } else if op == 0xD1 {
            (next_line(ArInterpreter { cond_flag: false, ..s }), ArAction::Idle)
        } else {
            (next_line(ArInterpreter { offset: 0, data_reg: 0, cond_flag: false, ..s }), ArAction::Idle)
        }
    } else if op == 0xD3 {
        (next_line(ArInterpreter { offset: op1, ..s }), ArAction::Idle)
    } else if op == 0xD4 {
        (next_line(ArInterpreter { data_reg: s.data_reg.wrapping_add(op1), ..s }), ArAction::Idle)
    } else if op == 0xD5 {
        (next_line(ArInterpreter { data_reg: op1, ..s }), ArAction::Idle)
    } else if op == 0xD6 {
        (next_line(ArInterpreter { offset: s.offset.wrapping_add(4), ..s }), ArAction::Write32(at, s.data_reg))
    } else if op == 0xD7 {
        (next_line(ArInterpreter { offset: s.offset.wrapping_add(2), ..s }), ArAction::Write16(at, s.data_reg as u16))
    } else if op == 0xD8 {
        (next_line(ArInterpreter { offset: s.offset.wrapping_add(1), ..s }), ArAction::Write8(at, s.data_reg as u8))
    } else if op == 0xD9 {
        (ArInterpreter { pending: ArPending::LoadData { width: 4 }, ..s }, ArAction::Read32(at))
    } else if op == 0xDA {
        (ArInterpreter { pending: ArPending::LoadData { width: 2 }, ..s }, ArAction::Read16(at))
    } else if op == 0xDB {
        (ArInterpreter { pending: ArPending::LoadData { width: 1 }, ..s }, ArAction::Read8(at))
    } else if op == 0xDC {
        (next_line(ArInterpreter { offset: s.offset.wrapping_add(op1), ..s }), ArAction::Idle)
    } else {
        (next_line(s), ArAction::Idle)
    }
}

/// Decodes and runs the line at `addr` (`op0`, `op1`) while the condition flag is clear,
/// or runs the control lines while it is set.
pub open spec fn ar_exec_line(s: ArInterpreter, code: Seq<u32>, op0: u32, op1: u32) -> (ArInterpreter, ArAction) {
    let kind = op0 >> 28u32;
    let op = op0 >> 24u32;
    let dst = line_addr(op0).wrapping_add(s.offset);
    if kind == 0 {
        (next_line(s), ArAction::Write32(dst, op1))
    } else if kind == 1 {
        (next_line(s), ArAction::Write16(dst, op1 as u16))
    } else if kind == 2 {
        (next_line(s), ArAction::Write8(dst, op1 as u8))
    } else if 3 <= kind <= 6 {
        (ArInterpreter { pending: ArPending::CondWord { op0, op1 }, ..s }, ArAction::Read32(cond_addr(op0, s.offset)))
    } else if 7 <= kind <= 0xA {
        (ArInterpreter { pending: ArPending::CondHalf { op0, op1 }, ..s }, ArAction::Read16(cond_addr(op0, s.offset)))
    } else if kind == 0xB {
        (ArInterpreter { pending: ArPending::LoadOffset, ..s }, ArAction::Read32(dst))
    } else if kind == 0xC {
        if op == 0xC0 {
            (next_line(ArInterpreter { loop_count: op1, loop_address: s.addr, ..s }), ArAction::Idle)
        } else if op == 0xC5 {
            let counter = s.counter.wrapping_add(1);
            (next_line(ArInterpreter { counter, cond_flag: (counter & op1 & 0xFFFF) != (op1 >> 16u32), ..s }), ArAction::Idle)
        } else if op == 0xC6 {
            (next_line(s), ArAction::Write32(op1, s.offset))
        } else {
            (next_line(s), ArAction::Idle)
        }
    } else if kind == 0xD {
        ar_control_line(s, op, op1)
    } else if kind == 0xE {
        (ArInterpreter { pending: ArPending::ParamCopy { op0, op1, j: 0 }, ..s }, ArAction::Idle)
    } else {
        (ArInterpreter { pending: ArPending::CopyRead { op0, op1, j: 0 }, ..s }, ArAction::Idle)
    }
}

/// One step of the interpreter, `response` being the value of the read the
/// previous step asked for.
pub open spec fn ar_step(s: ArInterpreter, code: Seq<u32>, response: u32) -> (ArInterpreter, ArAction) {
    match s.pending {
        ArPending::Fetch => {
            if !(s.addr + 1 < code.len()) {
                (s, ArAction::Done)
            } else {
                let op0 = code[s.addr as int];
                let op1 = code[s.addr + 1];
                let op = op0 >> 24u32;
                if s.cond_flag {
                    let addr = if (op >> 4u32) == 0xE { (s.addr + param_skip(op1)) as u64 } else { s.addr };
                    let counter = if (op >> 4u32) != 0xE && op == 0xC5 { s.counter.wrapping_add(1) } else { s.counter };
                    if op != 0xD0 && op != 0xD1 && op != 0xD2 {
                        (next_line(ArInterpreter { addr, counter, ..s }), ArAction::Idle)
                    } else {
                        ar_exec_line(s, code, op0, op1)
                    }
                } else {
                    ar_exec_line(s, code, op0, op1)
                }
            }
        },
        ArPending::CondWord { op0, op1 } => (next_line(ArInterpreter { cond_flag: word_cond(op0, op1, response), ..s }), ArAction::Idle),
        ArPending::CondHalf { op0, op1 } => (next_line(ArInterpreter { cond_flag: half_cond(op0, op1, response as u16), ..s }), ArAction::Idle),
        ArPending::LoadOffset => (next_line(ArInterpreter { offset: response, ..s }), ArAction::Idle),
        ArPending::LoadData { width } => {
            let v = if width == 1 { (response as u8) as u32 } else if width == 2 { (response as u16) as u32 } else { response };
            (next_line(ArInterpreter { data_reg: v, ..s }), ArAction::Idle)
        },
        ArPending::ParamCopy { op0, op1, j } => {
            if j < op1 {
                (
                    ArInterpreter { pending: ArPending::ParamCopy { op0, op1, j: (j + 1) as u32 }, ..s },
                    ArAction::Write8(line_addr(op0).wrapping_add(s.offset).wrapping_add(j), param_byte(code, s.addr, j)),
                )
            } else {
                (next_line(ArInterpreter { addr: (s.addr + param_skip(op1)) as u64, ..s }), ArAction::Idle)
            }
        },
        ArPending::CopyRead { op0, op1, j } => {
            if j < op1 {
                (ArInterpreter { pending: ArPending::CopyWrite { op0, op1, j }, ..s }, ArAction::Read8(s.offset.wrapping_add(j)))
            } else {
                (next_line(s), ArAction::Idle)
            }
        },
        ArPending::CopyWrite { op0, op1, j } => (
            ArInterpreter { pending: ArPending::CopyRead { op0, op1, j: (j + 1) as u32 }, ..s },
            ArAction::Write8(line_addr(op0).wrapping_add(j), response as u8),
        ),
    }
}

proof fn lemma_op_classes(op: u32)
    ensures
        (op >> 4u32) == 0xE ==> op != 0xD0 && op != 0xD1 && op != 0xD2 && op != 0xC5,
{
    assert((op >> 4u32) == 0xE ==> op != 0xD0 && op != 0xD1 && op != 0xD2 && op != 0xC5) by (bit_vector);
}

proof fn lemma_byte_shift(j: u32)
    ensures
        (j & 3) * 8 < 32,
{
    assert(j & 3 <= 3) by (bit_vector);
}

proof fn lemma_param_skip(op1: u32)
    ensures
        param_skip(op1) <= 0x4000_0002,
{
    let x = op1 as u64;
    assert((((x + 7) as u64) & !7u64) >> 2u64 <= 0x4000_0002) by (bit_vector)
        requires
            x <= 0xFFFF_FFFF,
    ;
}

/// Where the interpreter can stand: within (or just past) the code, with the
/// loop start behind the current line.
pub open spec fn ar_inv(s: ArInterpreter, code_len: int) -> bool {
    &&& s.addr <= code_len + max_code_len()
    &&& s.loop_address <= s.addr
    &&& s.loop_address <= code_len
    &&& s.addr != 0 ==> s.addr >= s.loop_address + 2
    &&& s.addr == 0 ==> s.loop_address == 0
    &&& match s.pending {
        ArPending::Fetch => true,
        ArPending::CopyWrite { op1, j, .. } => j < op1 && s.addr + 1 < code_len,
        ArPending::ParamCopy { j, op1, .. } => j <= op1 && s.addr + 1 < code_len,
        ArPending::CopyRead { j, op1, .. } => j <= op1 && s.addr + 1 < code_len,
        _ => s.addr + 1 < code_len,
    }
}

impl ArInterpreter {
    /// A fresh interpreter at the start of the code.
    pub fn new() -> (r: Self)
        ensures
            r == (ArInterpreter {
                offset: 0,
                data_reg: 0,
                counter: 0,
                loop_count: 0,
                loop_address: 0,
                cond_flag: false,
                addr: 0,
                pending: ArPending::Fetch,
            }),
    {
        ArInterpreter {
            offset: 0,
            data_reg: 0,
            counter: 0,
            loop_count: 0,
            loop_address: 0,
            cond_flag: false,
            addr: 0,
            pending: ArPending::Fetch,
        }
    }

    fn exec_control_line(&mut self, op: u32, op1: u32) -> (r: ArAction)
        requires
            old(self).addr + 1 < max_code_len(),
            old(self).loop_address <= old(self).addr,
            old(self).pending == ArPending::Fetch,
        ensures
            (*final(self), r) == ar_control_line(*old(self), op, op1),
    {
        let at = op1.wrapping_add(self.offset);
        let mut action = ArAction::Idle;
        if op == 0xD0 {
            self.cond_flag = false;
        } else if op == 0xD1 || op == 0xD2 {
            if self.loop_count != 0 {
                self.loop_count = self.loop_count - 1;
                self.addr = self.loop_address;
            } else {
                if op == 0xD2 {
                    self.offset = 0;
                    self.data_reg = 0;
                }
                self.cond_flag = false;
            }
        } else if op == 0xD3 {
            self.offset = op1;
        } else if op == 0xD4 {
            self.data_reg = self.data_reg.wrapping_add(op1);
        } else if op == 0xD5 {
            self.data_reg = op1;
        } else if op == 0xD6 {
            action = ArAction::Write32(at, self.data_reg);
            self.offset = self.offset.wrapping_add(4);
        } else if op == 0xD7 {
            action = ArAction::Write16(at, self.data_reg as u16);
            self.offset = self.offset.wrapping_add(2);
        } else if op == 0xD8 {
            action = ArAction::Write8(at, self.data_reg as u8);
            self.offset = self.offset.wrapping_add(1);
        } else if op == 0xD9 {
            self.pending = ArPending::LoadData { width: 4 };
            return ArAction::Read32(at);
        } else if op == 0xDA {
            self.pending = ArPending::LoadData { width: 2 };
            return ArAction::Read16(at);
        } else if op == 0xDB {
            self.pending = ArPending::LoadData { width: 1 };
            return ArAction::Read8(at);
        } else if op == 0xDC {
            self.offset = self.offset.wrapping_add(op1);
        }
        self.addr = self.addr + 2;
        action
    }

    fn exec_line(&mut self, code: &[u32], op0: u32, op1: u32) -> (r: ArAction)
        requires
            old(self).addr + 1 < code@.len() <= max_code_len(),
            old(self).loop_address <= old(self).addr,
            old(self).pending == ArPending::Fetch,
        ensures
            (*final(self), r) == ar_exec_line(*old(self), code@, op0, op1),
    {
        let kind = op0 >> 28u32;
        let op = op0 >> 24u32;
        let dst = (op0 & 0x0FFF_FFFF).wrapping_add(self.offset);
        if kind == 0 {
            self.addr = self.addr + 2;
            ArAction::Write32(dst, op1)
        } else if kind == 1 {
            self.addr = self.addr + 2;
            ArAction::Write16(dst, op1 as u16)
        } else if kind == 2 {
            self.addr = self.addr + 2;
            ArAction::Write8(dst, op1 as u8)
        } else if 3 <= kind && kind <= 6 {
            let at = if op0 & 0x0FFF_FFFF != 0 { op0 & 0x0FFF_FFFF } else { self.offset };
            self.pending = ArPending::CondWord { op0, op1 };
            ArAction::Read32(at)
        } else if 7 <= kind && kind <= 0xA {
            let at = if op0 & 0x0FFF_FFFF != 0 { op0 & 0x0FFF_FFFF } else { self.offset };
            self.pending = ArPending::CondHalf { op0, op1 };
            ArAction::Read16(at)
        } else if kind == 0xB {
            self.pending = ArPending::LoadOffset;
            ArAction::Read32(dst)
        } else if kind == 0xC {
            if op == 0xC0 {
                self.loop_count = op1;
                self.loop_address = self.addr;
            } else if op == 0xC5 {
                self.counter = self.counter.wrapping_add(1);
                self.cond_flag = (self.counter & op1 & 0xFFFF) != (op1 >> 16u32);
            } else if op == 0xC6 {
                self.addr = self.addr + 2;
                return ArAction::Write32(op1, self.offset);
            }
            self.addr = self.addr + 2;
            ArAction::Idle
        } else if kind == 0xD {
            self.exec_control_line(op, op1)
        } else if kind == 0xE {
            self.pending = ArPending::ParamCopy { op0, op1, j: 0 };
            ArAction::Idle
        } else {
            self.pending = ArPending::CopyRead { op0, op1, j: 0 };
            ArAction::Idle
        }
    }

    /// Runs one step of the code: decodes a line or goes on with one that waits
    /// for memory. `response` is the value of the read that the previous step
    /// asked for (ignored otherwise).
    pub fn step(&mut self, code: &[u32], response: u32) -> (r: ArAction)
        requires
            code@.len() <= max_code_len(),
            ar_inv(*old(self), code@.len() as int),
        ensures
            (*final(self), r) == ar_step(*old(self), code@, response),
    {
        match self.pending {
            ArPending::Fetch => {
                if !(self.addr + 1 < code.len() as u64) {
                    return ArAction::Done;
                }
                let op0 = code[self.addr as usize];
                let op1 = code[self.addr as usize + 1];
                let op = op0 >> 24u32;
                proof {
                    lemma_op_classes(op);
                }
                if self.cond_flag {
                    if (op >> 4u32) == 0xE {
                        proof {
                            lemma_param_skip(op1);
                        }
                        self.addr = self.addr + (((op1 as u64 + 7) & !7u64) >> 2u64);
                    } else if op == 0xC5 {
                        self.counter = self.counter.wrapping_add(1);
                    }
                    if op != 0xD0 && op != 0xD1 && op != 0xD2 {
                        self.addr = self.addr + 2;
                        return ArAction::Idle;
                    }
                }
                self.exec_line(code, op0, op1)
            },
            ArPending::CondWord { op0, op1 } => {
                let kind = op0 >> 28u32;
                let mem = response;
                self.cond_flag = if kind == 3 {
                    op1 <= mem
                } else if kind == 4 {
                    op1 >= mem
                } else if kind == 5 {
                    op1 != mem
                } else {
                    op1 == mem
                };
                self.addr = self.addr + 2;
                self.pending = ArPending::Fetch;
                ArAction::Idle
            },
            ArPending::CondHalf { op0, op1 } => {
                let kind = op0 >> 28u32;
                let mem = (response as u16) as u32 & !(op1 >> 16u32);
                let value = op1 & 0xFFFF;
                self.cond_flag = if kind == 7 {
                    value <= mem
                } else if kind == 8 {
                    value >= mem
                } else if kind == 9 {
                    value != mem
                } else {
                    value == mem
                };
                self.addr = self.addr + 2;
                self.pending = ArPending::Fetch;
                ArAction::Idle
            },
            ArPending::LoadOffset => {
                self.offset = response;
                self.addr = self.addr + 2;
                self.pending = ArPending::Fetch;
                ArAction::Idle
            },
            ArPending::LoadData { width } => {
                self.data_reg = if width == 1 {
                    (response as u8) as u32
                } else if width == 2 {
                    (response as u16) as u32
                } else {
                    response
                };
                self.addr = self.addr + 2;
                self.pending = ArPending::Fetch;
                ArAction::Idle
            },
            ArPending::ParamCopy { op0, op1, j } => {
                if j < op1 {
                    let idx: u64 = self.addr + 2 + (j >> 2u32) as u64;
                    let word = if idx < code.len() as u64 { code[idx as usize] } else { 0 };
                    proof {
                        lemma_byte_shift(j);
                    }
                    let value = (word >> ((j & 0x3) * 8)) as u8;
                    let at = (op0 & 0x0FFF_FFFF).wrapping_add(self.offset).wrapping_add(j);
                    self.pending = ArPending::ParamCopy { op0, op1, j: j + 1 };
                    ArAction::Write8(at, value)
                } else {
                    proof {
                        lemma_param_skip(op1);
                    }
                    self.addr = self.addr + (((op1 as u64 + 7) & !7u64) >> 2u64) + 2;
                    self.pending = ArPending::Fetch;
                    ArAction::Idle
                }
            },
            ArPending::CopyRead { op0, op1, j } => {
                if j < op1 {
                    self.pending = ArPending::CopyWrite { op0, op1, j };
                    ArAction::Read8(self.offset.wrapping_add(j))
                } else {
                    self.addr = self.addr + 2;
                    self.pending = ArPending::Fetch;
                    ArAction::Idle
                }
            },
            ArPending::CopyWrite { op0, op1, j } => {
                self.pending = ArPending::CopyRead { op0, op1, j: j + 1 };
                ArAction::Write8((op0 & 0x0FFF_FFFF).wrapping_add(j), response as u8)
            },
        }
    }
}

} // verus!

verus! {

/// Weight of the work left on the current line.
pub open spec fn ar_micro(p: ArPending) -> int {
    match p {
        ArPending::Fetch => 0x4_0000_0000,
        ArPending::ParamCopy { op1, j, .. } => op1 - j + 1,
        ArPending::CopyRead { op1, j, .. } => 2 * (op1 - j) + 1,
        ArPending::CopyWrite { op1, j, .. } => 2 * (op1 - j),
        _ => 1,
    }
}

/// The measure of the work left, compared lexicographically: whether the first
/// line is still to run, how far the loop start can still move on, the loop
/// iterations left, the code left and the work left on the current line.
pub open spec fn ar_measure(s: ArInterpreter, len: int) -> (int, int, int, int, int) {
    (
        if s.addr == 0 { 1 } else { 0 },
        len + 2 - s.loop_address,
        s.loop_count as int,
        if s.addr < len { len - s.addr } else { 0 },
        ar_micro(s.pending),
    )
}

/// Lexicographic order on the measure.
pub open spec fn lex_lt(a: (int, int, int, int, int), b: (int, int, int, int, int)) -> bool {
    ||| a.0 < b.0
    ||| a.0 == b.0 && a.1 < b.1
    ||| a.0 == b.0 && a.1 == b.1 && a.2 < b.2
    ||| a.0 == b.0 && a.1 == b.1 && a.2 == b.2 && a.3 < b.3
    ||| a.0 == b.0 && a.1 == b.1 && a.2 == b.2 && a.3 == b.3 && a.4 < b.4
}

proof fn lemma_fwd(s: ArInterpreter, s2: ArInterpreter, len: int)
    requires
        ar_inv(s, len),
        len <= max_code_len(),
        s.pending == ArPending::Fetch,
        s.addr + 1 < len,
        s.addr + 2 <= s2.addr <= s.addr + 0x4000_0004,
        s2.loop_address == s.loop_address,
        s2.loop_count == s.loop_count,
        s2.pending == ArPending::Fetch,
    ensures
        ar_inv(s2, len),
        lex_lt(ar_measure(s2, len), ar_measure(s, len)),
        ar_measure(s2, len).1 >= 0,
{
}

proof fn lemma_pend(s: ArInterpreter, s2: ArInterpreter, len: int)
    requires
        ar_inv(s, len),
        len <= max_code_len(),
        s.pending == ArPending::Fetch,
        s.addr + 1 < len,
        s2.addr == s.addr,
        s2.loop_address == s.loop_address,
        s2.loop_count == s.loop_count,
        s2.pending != ArPending::Fetch,
        match s2.pending {
            ArPending::ParamCopy { j, .. } => j == 0,
            ArPending::CopyRead { j, .. } => j == 0,
            ArPending::CopyWrite { .. } => false,
            _ => true,
        },
    ensures
        ar_inv(s2, len),
        lex_lt(ar_measure(s2, len), ar_measure(s, len)),
        ar_measure(s2, len).1 >= 0,
        ar_measure(s2, len).4 >= 0,
{
}

proof fn lemma_loop_start(s: ArInterpreter, s2: ArInterpreter, len: int)
    requires
        ar_inv(s, len),
        len <= max_code_len(),
        s.pending == ArPending::Fetch,
        s.addr + 1 < len,
        s2.addr == s.addr + 2,
        s2.loop_address == s.addr,
        s2.pending == ArPending::Fetch,
    ensures
        ar_inv(s2, len),
        lex_lt(ar_measure(s2, len), ar_measure(s, len)),
        ar_measure(s2, len).1 >= 0,
{
}

proof fn lemma_loop_jump(s: ArInterpreter, s2: ArInterpreter, len: int)
    requires
        ar_inv(s, len),
        len <= max_code_len(),
        s.pending == ArPending::Fetch,
        s.addr + 1 < len,
        s.loop_count > 0,
        s2.addr == s.loop_address + 2,
        s2.loop_address == s.loop_address,
        s2.loop_count == s.loop_count - 1,
        s2.pending == ArPending::Fetch,
    ensures
        ar_inv(s2, len),
        lex_lt(ar_measure(s2, len), ar_measure(s, len)),
        ar_measure(s2, len).1 >= 0,
{
}

/// Every cheat code runs to its end: a step that is not the end keeps the
/// interpreter where it can stand and lowers a measure that is bounded below
/// (every component stays non-negative), and the end leaves it as it was.
pub proof fn law_ar_step_terminates(s: ArInterpreter, code: Seq<u32>, response: u32)
    requires
        code.len() <= max_code_len(),
        ar_inv(s, code.len() as int),
    ensures
        ({
            let (s2, a) = ar_step(s, code, response);
            &&& a == ArAction::Done ==> s2 == s
            &&& a != ArAction::Done ==> ar_inv(s2, code.len() as int) && lex_lt(
                ar_measure(s2, code.len() as int),
                ar_measure(s, code.len() as int),
            )
            &&& ar_measure(s2, code.len() as int).1 >= 0
            &&& ar_measure(s2, code.len() as int).4 >= 0
        }),
{
    let len: int = code.len() as int;
    let (s2, a) = ar_step(s, code, response);
    match s.pending {
        ArPending::Fetch => {
            if s.addr + 1 < len {
                let op0 = code[s.addr as int];
                let op1 = code[s.addr + 1];
                let op = op0 >> 24u32;
                lemma_param_skip(op1);
                lemma_op_classes(op);
                let kind = op0 >> 28u32;
                if s.cond_flag && op != 0xD0 && op != 0xD1 && op != 0xD2 {
                    lemma_fwd(s, s2, len);
                } else if kind <= 2 {
                    lemma_fwd(s, s2, len);
                } else if kind <= 0xB {
                    lemma_pend(s, s2, len);
                } else if kind == 0xC {
                    if op == 0xC0 {
                        lemma_loop_start(s, s2, len);
                    } else {
                        lemma_fwd(s, s2, len);
                    }
                } else if kind == 0xD {
                    assert((s2, a) == ar_control_line(s, op, op1));
                    if (op == 0xD1 || op == 0xD2) && s.loop_count != 0 {
                        lemma_loop_jump(s, s2, len);
                    } else if op == 0xD9 || op == 0xDA || op == 0xDB {
                        lemma_pend(s, s2, len);
                    } else {
                        lemma_fwd(s, s2, len);
                    }
                } else {
                    lemma_pend(s, s2, len);
                }
                assert(a != ArAction::Done);
                assert(ar_inv(s2, len));
                assert(lex_lt(ar_measure(s2, len), ar_measure(s, len)));
            } else {
                assert(a == ArAction::Done);
                assert(s2 == s);
            }
        },
        ArPending::ParamCopy { op0, op1, j } => {
            lemma_param_skip(op1);
        },
        _ => {},
    }
}

/// The measure as one number: its components in mixed radix, each below
/// the bound `ar_inv` gives it.
pub open spec fn ar_rank(s: ArInterpreter, len: int) -> int {
    let m = ar_measure(s, len);
    let b4 = 0x4_0000_0001int;
    let b3 = len + 1;
    let b2 = 0x1_0000_0000int;
    let b1 = len + 3;
    (((m.0 * b1 + m.1) * b2 + m.2) * b3 + m.3) * b4 + m.4
}

/// Whether running the code with the responses `rs`, one per step, reaches
/// the end of the code.
pub open spec fn ar_run_done(s: ArInterpreter, code: Seq<u32>, rs: Seq<u32>) -> bool
    decreases rs.len(),
{
    if rs.len() == 0 {
        false
    } else {
        let (s2, a) = ar_step(s, code, rs[0]);
        a == ArAction::Done || ar_run_done(s2, code, rs.drop_first())
    }
}

proof fn lemma_measure_bounds(s: ArInterpreter, len: int)
    requires
        ar_inv(s, len),
        0 <= len <= max_code_len(),
    ensures
        ({
            let m = ar_measure(s, len);
            &&& 0 <= m.0 < 2
            &&& 0 <= m.1 < len + 3
            &&& 0 <= m.2 < 0x1_0000_0000
            &&& 0 <= m.3 < len + 1
            &&& 0 <= m.4 < 0x4_0000_0001
        }),
{
}

/// Mixed-radix numbers whose digits are in range compare as their digits do.
proof fn lemma_rank_lt(a: (int, int, int, int, int), b: (int, int, int, int, int), b1: int, b3: int)
    requires
        lex_lt(a, b),
        0 <= a.0 < 2 && 0 <= b.0 < 2,
        0 <= a.1 < b1 && 0 <= b.1 < b1,
        0 <= a.2 < 0x1_0000_0000 && 0 <= b.2 < 0x1_0000_0000,
        0 <= a.3 < b3 && 0 <= b.3 < b3,
        0 <= a.4 < 0x4_0000_0001 && 0 <= b.4 < 0x4_0000_0001,
    ensures
        (((a.0 * b1 + a.1) * 0x1_0000_0000 + a.2) * b3 + a.3) * 0x4_0000_0001 + a.4
            < (((b.0 * b1 + b.1) * 0x1_0000_0000 + b.2) * b3 + b.3) * 0x4_0000_0001 + b.4,
{
    let b4 = 0x4_0000_0001int;
    let b2 = 0x1_0000_0000int;
    let x3a = ((a.0 * b1 + a.1) * b2 + a.2) * b3 + a.3;
    let x3b = ((b.0 * b1 + b.1) * b2 + b.2) * b3 + b.3;
    let x2a = (a.0 * b1 + a.1) * b2 + a.2;
    let x2b = (b.0 * b1 + b.1) * b2 + b.2;
    let x1a = a.0 * b1 + a.1;
    let x1b = b.0 * b1 + b.1;
    // Each prefix compares lexicographically, and a smaller prefix stays
    // smaller whatever digits follow.
    assert(a.0 < b.0 ==> x1a < x1b) by (nonlinear_arith)
        requires
            x1a == a.0 * b1 + a.1,
            x1b == b.0 * b1 + b.1,
            0 <= a.1 < b1,
            0 <= b.1,
    ;
    assert(x1a < x1b ==> x2a < x2b) by (nonlinear_arith)
        requires
            x2a == x1a * b2 + a.2,
            x2b == x1b * b2 + b.2,
            0 <= a.2 < b2,
            0 <= b.2,
    ;
    assert(x2a < x2b ==> x3a < x3b) by (nonlinear_arith)
        requires
            x3a == x2a * b3 + a.3,
            x3b == x2b * b3 + b.3,
            0 <= a.3 < b3,
            0 <= b.3,
    ;
    assert(x3a < x3b ==> x3a * b4 + a.4 < x3b * b4 + b.4) by (nonlinear_arith)
        requires
            0 <= a.4 < b4,
            0 <= b.4,
    ;
    if a.0 == b.0 {
        assert(a.1 < b.1 ==> x1a < x1b);
        if a.1 == b.1 {
            assert(x1a == x1b);
            assert(a.2 < b.2 ==> x2a < x2b);
            if a.2 == b.2 {
                assert(x2a == x2b);
                assert(a.3 < b.3 ==> x3a < x3b);
                if a.3 == b.3 {
                    assert(x3a == x3b);
                }
            }
        }
    }
}

/// Every run of a cheat code ends: from any state the interpreter can stand
/// in, any responses longer than its rank bring it to the end of the code.
pub proof fn law_ar_run_ends(s: ArInterpreter, code: Seq<u32>, rs: Seq<u32>)
    requires
        code.len() <= max_code_len(),
        ar_inv(s, code.len() as int),
        rs.len() > ar_rank(s, code.len() as int),
    ensures
        ar_run_done(s, code, rs),
    decreases rs.len(),
{
    let len = code.len() as int;
    lemma_measure_bounds(s, len);
    assert(ar_rank(s, len) >= 0) by (nonlinear_arith)
        requires
            0 <= ar_measure(s, len).0,
            0 <= ar_measure(s, len).1,
            0 <= ar_measure(s, len).2,
            0 <= ar_measure(s, len).3,
            0 <= ar_measure(s, len).4,
            0 <= len,
            ar_rank(s, len) == (((ar_measure(s, len).0 * (len + 3) + ar_measure(s, len).1) * 0x1_0000_0000
                + ar_measure(s, len).2) * (len + 1) + ar_measure(s, len).3) * 0x4_0000_0001 + ar_measure(s, len).4,
    ;
    law_ar_step_terminates(s, code, rs[0]);
    let (s2, a) = ar_step(s, code, rs[0]);
    if a != ArAction::Done {
        lemma_measure_bounds(s2, len);
        lemma_rank_lt(ar_measure(s2, len), ar_measure(s, len), len + 3, len + 1);
        law_ar_run_ends(s2, code, rs.drop_first());
    }
}

/// The word conditions: after the word is read, the condition flag is set
/// exactly when the condition fails, so the lines it guards run exactly when
/// it holds: type 3 "if the argument is greater than the word", 4 "if less",
/// 5 "if equal", 6 "if not equal". The half-word conditions (7 to 10) do the
/// same on the half-word read with the bits of the argument's upper half
/// cleared, against its lower half.
pub proof fn law_ar_conditions(s: ArInterpreter, code: Seq<u32>, response: u32)
    ensures
        ({
            let flag = ar_step(s, code, response).0.cond_flag;
            match s.pending {
                ArPending::CondWord { op0, op1 } => {
                    let kind = op0 >> 28u32;
                    &&& kind == 3 ==> (flag <==> !(op1 > response))
                    &&& kind == 4 ==> (flag <==> !(op1 < response))
                    &&& kind == 5 ==> (flag <==> !(op1 == response))
                    &&& kind == 6 ==> (flag <==> !(op1 != response))
                },
                ArPending::CondHalf { op0, op1 } => {
                    let kind = op0 >> 28u32;
                    let mem = (response as u16 as u32) & !(op1 >> 16u32);
                    let value = op1 & 0xFFFF;
                    &&& kind == 7 ==> (flag <==> !(value > mem))
                    &&& kind == 8 ==> (flag <==> !(value < mem))
                    &&& kind == 9 ==> (flag <==> !(value == mem))
                    &&& kind == 10 ==> (flag <==> !(value != mem))
                },
                _ => true,
            }
        }),
{
}

/// A write line (types 0 to 2) writes exactly when the condition flag is
/// clear: the word, half-word or byte of its argument at its address (the
/// low 28 bits of its first word) plus the offset register; under a set flag
/// it is passed over.
pub proof fn law_ar_guarded_writes(s: ArInterpreter, code: Seq<u32>, response: u32)
    requires
        s.pending == ArPending::Fetch,
        s.addr + 1 < code.len(),
        code.len() <= max_code_len(),
        code[s.addr as int] >> 28u32 <= 2,
    ensures
        ({
            let op0 = code[s.addr as int];
            let op1 = code[s.addr + 1];
            let (s2, a) = ar_step(s, code, response);
            let at = (op0 & 0x0FFF_FFFF).wrapping_add(s.offset);
            &&& s.cond_flag ==> a == ArAction::Idle
            &&& !s.cond_flag && op0 >> 28u32 == 0 ==> a == ArAction::Write32(at, op1)
            &&& !s.cond_flag && op0 >> 28u32 == 1 ==> a == ArAction::Write16(at, op1 as u16)
            &&& !s.cond_flag && op0 >> 28u32 == 2 ==> a == ArAction::Write8(at, op1 as u8)
            &&& s2.addr == s.addr + 2
        }),
{
    let op0 = code[s.addr as int];
    let op = op0 >> 24u32;
    vstd::bits::lemma_u32_shr_is_div(op0, 28);
    vstd::bits::lemma_u32_shr_is_div(op0, 24);
    vstd::bits::lemma_u32_shr_is_div(op, 4);
    vstd::arithmetic::power2::lemma2_to64();
    assert(op0 as nat / 0x1000_0000 <= 2);
    assert(op < 0x30) by (nonlinear_arith)
        requires
            op == op0 as nat / 0x100_0000,
            op0 as nat / 0x1000_0000 <= 2,
    ;
}

/// The register lines that run (condition flag clear), with `op` the line's
/// top byte: 0xD3 loads the offset register with the argument, 0xDC adds it;
/// 0xD4 adds the argument to the data register, 0xD5 loads it; 0xD6, 0xD7 and
/// 0xD8 write the data register's word, half-word or byte at the argument
/// plus the offset and move the offset on by 4, 2 or 1; 0xD0 clears the
/// condition flag whether it was set or not; 0xB loads the offset from the
/// word at the line's address plus the offset.
pub proof fn law_ar_register_lines(s: ArInterpreter, code: Seq<u32>, response: u32)
    requires
        s.pending == ArPending::Fetch,
        s.addr + 1 < code.len(),
        code.len() <= max_code_len(),
    ensures
        ({
            let op0 = code[s.addr as int];
            let op1 = code[s.addr + 1];
            let op = op0 >> 24u32;
            let kind = op0 >> 28u32;
            let (s2, a) = ar_step(s, code, response);
            let at = op1.wrapping_add(s.offset);
            let moved = ArInterpreter { addr: (s.addr + 2) as u64, ..s };
            &&& kind == 0xD && op == 0xD0 ==> s2 == (ArInterpreter { cond_flag: false, ..moved }) && a == ArAction::Idle
            &&& !s.cond_flag && kind == 0xD && op == 0xD3 ==> s2 == (ArInterpreter { offset: op1, ..moved }) && a == ArAction::Idle
            &&& !s.cond_flag && kind == 0xD && op == 0xDC ==> s2 == (ArInterpreter { offset: s.offset.wrapping_add(op1), ..moved })
                && a == ArAction::Idle
            &&& !s.cond_flag && kind == 0xD && op == 0xD4 ==> s2 == (ArInterpreter { data_reg: s.data_reg.wrapping_add(op1), ..moved })
                && a == ArAction::Idle
            &&& !s.cond_flag && kind == 0xD && op == 0xD5 ==> s2 == (ArInterpreter { data_reg: op1, ..moved }) && a == ArAction::Idle
            &&& !s.cond_flag && kind == 0xD && op == 0xD6 ==> s2 == (ArInterpreter { offset: s.offset.wrapping_add(4), ..moved })
                && a == ArAction::Write32(at, s.data_reg)
            &&& !s.cond_flag && kind == 0xD && op == 0xD7 ==> s2 == (ArInterpreter { offset: s.offset.wrapping_add(2), ..moved })
                && a == ArAction::Write16(at, s.data_reg as u16)
            &&& !s.cond_flag && kind == 0xD && op == 0xD8 ==> s2 == (ArInterpreter { offset: s.offset.wrapping_add(1), ..moved })
                && a == ArAction::Write8(at, s.data_reg as u8)
            &&& !s.cond_flag && kind == 0xB ==> a == ArAction::Read32((op0 & 0x0FFF_FFFF).wrapping_add(s.offset))
                && ar_step(s2, code, response).0 == (ArInterpreter { offset: response, ..moved })
        }),
{
}

/// A loop: 0xC0 remembers the line and the count; 0xD1 and 0xD2 go back to
/// the line after it while the count lasts, counting down, and once it is
/// spent move on with the flag cleared (0xD2 also clearing the offset and
/// data registers); they run whether the flag is set or not.
pub proof fn law_ar_loops(s: ArInterpreter, code: Seq<u32>, response: u32)
    requires
        s.pending == ArPending::Fetch,
        s.addr + 1 < code.len(),
        code.len() <= max_code_len(),
        s.loop_address + 2 <= u64::MAX,
    ensures
        ({
            let op0 = code[s.addr as int];
            let op1 = code[s.addr + 1];
            let op = op0 >> 24u32;
            let kind = op0 >> 28u32;
            let (s2, a) = ar_step(s, code, response);
            let moved = ArInterpreter { addr: (s.addr + 2) as u64, ..s };
            &&& !s.cond_flag && kind == 0xC && op == 0xC0 ==> s2 == (ArInterpreter { loop_count: op1, loop_address: s.addr, ..moved })
            &&& kind == 0xD && (op == 0xD1 || op == 0xD2) && s.loop_count != 0 ==> s2 == (ArInterpreter {
                loop_count: (s.loop_count - 1) as u32,
                addr: (s.loop_address + 2) as u64,
                ..s
            })
            &&& kind == 0xD && op == 0xD1 && s.loop_count == 0 ==> s2 == (ArInterpreter { cond_flag: false, ..moved })
            &&& kind == 0xD && op == 0xD2 && s.loop_count == 0 ==> s2 == (ArInterpreter {
                cond_flag: false,
                offset: 0,
                data_reg: 0,
                ..moved
            })
        }),
{
}

} // verus!
