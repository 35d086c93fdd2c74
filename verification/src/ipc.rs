use vstd::prelude::*;
use crate::cpu_regs::InterruptFlag;
use crate::cpu_type::{cpu_index, CpuType};
use crate::fixed_fifo::FixedFifo;

verus! {

/// FIFO control: the send queue is empty.
pub const SEND_EMPTY: u16 = 0x0001;
/// FIFO control: the send queue is full.
pub const SEND_FULL: u16 = 0x0002;
/// FIFO control: interrupt when the send queue empties.
pub const SEND_EMPTY_IRQ: u16 = 0x0004;
/// FIFO control: a written one empties the send queue.
pub const SEND_CLEAR: u16 = 0x0008;
/// FIFO control: the receive queue is empty.
pub const RECV_EMPTY: u16 = 0x0100;
/// FIFO control: the receive queue is full.
pub const RECV_FULL: u16 = 0x0200;
/// FIFO control: interrupt when the receive queue gets a word.
pub const RECV_NOT_EMPTY_IRQ: u16 = 0x0400;
/// FIFO control: a send to a full queue or a read of an empty one happened.
pub const ERR: u16 = 0x4000;
/// FIFO control: the queues are on.
pub const ENABLE: u16 = 0x8000;

/// Words a queue holds.
pub const FIFO_DEPTH: usize = 16;

/// Whether the bits of `m` are set in `cnt`.
pub open spec fn flag(cnt: u16, m: u16) -> bool {
    cnt & m != 0
}

/// `cnt` with the bits of `m` set or cleared.
pub open spec fn with_flag(cnt: u16, m: u16, on: bool) -> u16 {
    if on {
        cnt | m
    } else {
        cnt & !m
    }
}

proof fn lemma_flags(cnt: u16, m: u16, m2: u16, on: bool)
    by (bit_vector)
    requires
        m == 1 || m == 2 || m == 0x100 || m == 0x200 || m == 0x4000,
        m2 == 1 || m2 == 2 || m2 == 0x100 || m2 == 0x200,
    ensures
        ((cnt | m) & m2 != 0) == (m == m2 || cnt & m2 != 0),
        ((cnt & !m) & m2 != 0) == (m != m2 && cnt & m2 != 0),
{
}

/// Facts on control words: clearing or setting a status bit keeps the
/// interrupt enables, the register write keeps the status bits, the sync
/// write keeps the interrupt enable, and the reset word.
proof fn lemma_cnt_bits(x: u16, n: u16)
    by (bit_vector)
    ensures
        ((x & !0x100u16) & 0x400 != 0) == (x & 0x400 != 0),
        ((x | 1u16) & 4 != 0) == (x & 4 != 0),
        ((x & !0x8404u16) | (n & 0x8404)) & 1 == x & 1,
        ((x & !0x8404u16) | (n & 0x8404)) & 2 == x & 2,
        ((x & !0x8404u16) | (n & 0x8404)) & 0x100 == x & 0x100,
        ((x & !0x8404u16) | (n & 0x8404)) & 0x200 == x & 0x200,
        (((x & !0xFu16) | ((n >> 8u16) & 0xF)) & 0x4000 != 0) == (x & 0x4000 != 0),
        0x0101u16 & 1 != 0 && 0x0101u16 & 2 == 0 && 0x0101u16 & 0x100 != 0 && 0x0101u16 & 0x200 == 0,
{
}

/// Setting or clearing one control bit leaves the other queue flags.
proof fn lemma_status_flags(cnt: u16, m: u16, on: bool)
    requires
        m == SEND_EMPTY || m == SEND_FULL || m == RECV_EMPTY || m == RECV_FULL || m == ERR,
    ensures
        flag(with_flag(cnt, m, on), SEND_EMPTY) == if m == SEND_EMPTY {
            on
        } else {
            flag(cnt, SEND_EMPTY)
        },
        flag(with_flag(cnt, m, on), SEND_FULL) == if m == SEND_FULL {
            on
        } else {
            flag(cnt, SEND_FULL)
        },
        flag(with_flag(cnt, m, on), RECV_EMPTY) == if m == RECV_EMPTY {
            on
        } else {
            flag(cnt, RECV_EMPTY)
        },
        flag(with_flag(cnt, m, on), RECV_FULL) == if m == RECV_FULL {
            on
        } else {
            flag(cnt, RECV_FULL)
        },
{
    lemma_flags(cnt, m, SEND_EMPTY, on);
    lemma_flags(cnt, m, SEND_FULL, on);
    lemma_flags(cnt, m, RECV_EMPTY, on);
    lemma_flags(cnt, m, RECV_FULL, on);
}

/// The tag of a FIFO message (bits 0 to 4), the subsystem it is for.
pub open spec fn message_tag(value: u32) -> u32 {
    value & 0x1F
}

/// The data of a FIFO message (bits 6 to 31).
pub open spec fn message_data(value: u32) -> u32 {
    value >> 6u32
}

/// The tag of messages for the sound driver.
pub const TAG_SOUND: u32 = 7;

/// How the ARM7 side of the processor link is emulated.
#[derive(Clone, Copy, Debug, PartialEq, Eq, Structural)]
pub enum IpcMode {
    /// Both processors run their code.
    Lle,
    /// The ARM7 runs its code, but sound messages go to the emulator's
    /// sound driver.
    LleSoundHle,
    /// The ARM7 side is the emulator's own.
    Hle,
}

/// What the emulator does after a FIFO access.
#[derive(Clone, Copy, Debug, PartialEq, Eq, Structural)]
pub enum IpcEvent {
    Nothing,
    Interrupt(CpuType, InterruptFlag),
    SoundHle(u32),
    HleRecv,
}

/// The send queue of one processor and its view of the control register.
pub struct Fifo {
    pub cnt: u16,
    pub queue: FixedFifo<u32, 16>,
    pub last_received: u32,
}

impl Fifo {
    /// An empty queue; the control register says both queues are empty.
    pub fn new() -> (r: Self)
        ensures
            r.cnt == 0x0101,
            r.queue.wf(),
            r.queue.view() == Seq::<u32>::empty(),
            r.last_received == 0,
    {
        Fifo { cnt: 0x0101, queue: FixedFifo::new(0), last_received: 0 }
    }
}

/// The link between the processors: a send queue each.
pub struct Ipc {
    pub fifo: [Fifo; 2],
    pub mode: IpcMode,
}

/// The control flags of each processor say how full the queues are: its own
/// send queue, and the other's queue as its receive queue.
pub open spec fn status_matches(cnt_c: u16, cnt_o: u16, len: nat) -> bool {
    &&& flag(cnt_c, SEND_EMPTY) == (len == 0)
    &&& flag(cnt_c, SEND_FULL) == (len == 16)
    &&& flag(cnt_o, RECV_EMPTY) == (len == 0)
    &&& flag(cnt_o, RECV_FULL) == (len == 16)
}

impl Ipc {
    /// Both queues are laid out consistently.
    pub open spec fn wf(&self) -> bool {
        &&& self.fifo@[0].queue.wf()
        &&& self.fifo@[1].queue.wf()
    }

    /// The control flags of both processors match their queues.
    pub open spec fn status_consistent(&self) -> bool {
        &&& status_matches(self.fifo@[0].cnt, self.fifo@[1].cnt, self.fifo@[0].queue.view().len())
        &&& status_matches(self.fifo@[1].cnt, self.fifo@[0].cnt, self.fifo@[1].queue.view().len())
    }

    /// Two empty queues, both processors emulated.
    pub fn new() -> (r: Self)
        ensures
            r.wf(),
            r.status_consistent(),
            r.mode == IpcMode::Lle,
            r.fifo@[0].queue.view() == Seq::<u32>::empty(),
            r.fifo@[1].queue.view() == Seq::<u32>::empty(),
    {
        let r = Ipc { fifo: [Fifo::new(), Fifo::new()], mode: IpcMode::Lle };
        proof {
            lemma_cnt_bits(0, 0);
        }
        r
    }

    /// Empties both queues and picks how the ARM7 side is emulated.
    pub fn init(&mut self, mode: IpcMode)
        ensures
            final(self).wf(),
            final(self).status_consistent(),
            final(self).mode == mode,
            final(self).fifo@[0].queue.view() == Seq::<u32>::empty(),
            final(self).fifo@[1].queue.view() == Seq::<u32>::empty(),
    {
        *self = Ipc::new();
        self.mode = mode;
    }

    /// The FIFO control register that processor `cpu` reads. With the ARM7
    /// side emulated, the flags are worked out from the queues: the send
    /// queue counts as empty (the emulated side takes words at once).
    pub fn get_fifo_cnt(&self, cpu: CpuType) -> (r: u16)
        requires
            self.wf(),
        ensures
            self.mode != IpcMode::Hle ==> r == self.fifo@[cpu_index(cpu)].cnt,
            self.mode == IpcMode::Hle ==> r == with_flag(
                with_flag(
                    with_flag(self.fifo@[0].cnt | SEND_EMPTY, SEND_FULL, self.fifo@[0].queue.view().len() == 16),
                    RECV_EMPTY,
                    self.fifo@[1].queue.view().len() == 0,
                ),
                RECV_FULL,
                self.fifo@[1].queue.view().len() == 16,
            ),
    {
        if self.mode != IpcMode::Hle {
            return self.fifo[cpu.index() as usize].cnt;
        }
        let full0 = self.fifo[0].queue.len() == 16;
        let empty1 = self.fifo[1].queue.is_empty();
        let full1 = self.fifo[1].queue.len() == 16;
        let mut cnt = self.fifo[0].cnt | SEND_EMPTY;
        cnt = if full0 {
            cnt | SEND_FULL
        } else {
            cnt & !SEND_FULL
        };
        cnt = if empty1 {
            cnt | RECV_EMPTY
        } else {
            cnt & !RECV_EMPTY
        };
        cnt = if full1 {
            cnt | RECV_FULL
        } else {
            cnt & !RECV_FULL
        };
        cnt
    }

    /// Processor `cpu` writes `value` to its send register. A send with the
    /// queues off sets the error flag; a send to a full queue is dropped;
    /// sound messages from the ARM9 go to the emulator's sound driver where
    /// it runs; else the word is queued and the flags follow the queue.
    pub fn fifo_send(&mut self, cpu: CpuType, value: u32) -> (r: IpcEvent)
        requires
            old(self).wf(),
            old(self).mode == IpcMode::Hle ==> cpu == CpuType::ARM9,
        ensures
            final(self).wf(),
            final(self).mode == old(self).mode,
            old(self).mode != IpcMode::Hle ==> ({
                let c = cpu_index(cpu);
                let o = 1 - c;
                let cnt_c = old(self).fifo@[c].cnt;
                let cnt_o = old(self).fifo@[o].cnt;
                let q = old(self).fifo@[c].queue.view();
                let sound = cpu == CpuType::ARM9 && old(self).mode == IpcMode::LleSoundHle
                    && message_tag(value) == TAG_SOUND;
                if !flag(cnt_c, ENABLE) {
                    &&& final(self).fifo@[c].cnt == cnt_c | ERR
                    &&& final(self).fifo@[o] == old(self).fifo@[o]
                    &&& final(self).fifo@[c].queue == old(self).fifo@[c].queue
                    &&& final(self).fifo@[c].last_received == old(self).fifo@[c].last_received
                    &&& r == IpcEvent::Nothing
                } else if q.len() >= 16 {
                    &&& final(self).fifo == old(self).fifo
                    &&& r == IpcEvent::Nothing
                } else if sound {
                    &&& final(self).fifo == old(self).fifo
                    &&& r == IpcEvent::SoundHle(message_data(value))
                } else {
                    &&& final(self).fifo@[c].queue.view() == q.push(value)
                    &&& final(self).fifo@[c].last_received == old(self).fifo@[c].last_received
                    &&& final(self).fifo@[o].queue == old(self).fifo@[o].queue
                    &&& final(self).fifo@[o].last_received == old(self).fifo@[o].last_received
                    &&& final(self).fifo@[c].cnt == if q.len() == 0 {
                        cnt_c & !SEND_EMPTY
                    } else if q.len() == 15 {
                        cnt_c | SEND_FULL
                    } else {
                        cnt_c
                    }
                    &&& final(self).fifo@[o].cnt == if q.len() == 0 {
                        cnt_o & !RECV_EMPTY
                    } else if q.len() == 15 {
                        cnt_o | RECV_FULL
                    } else {
                        cnt_o
                    }
                    &&& r == if q.len() == 0 && flag(cnt_o, RECV_NOT_EMPTY_IRQ) {
                        IpcEvent::Interrupt(cpu.opposite(), InterruptFlag::IpcRecvFifoNotEmpty)
                    } else {
                        IpcEvent::Nothing
                    }
                }
            }),
            old(self).mode == IpcMode::Hle ==> ({
                let cnt0 = old(self).fifo@[0].cnt;
                let q = old(self).fifo@[0].queue.view();
                if !flag(cnt0, ENABLE) {
                    &&& final(self).fifo == old(self).fifo
                    &&& r == IpcEvent::Nothing
                } else if q.len() >= 16 {
                    &&& final(self).fifo@[0].cnt == cnt0 | ERR
                    &&& final(self).fifo@[0].queue == old(self).fifo@[0].queue
                    &&& final(self).fifo@[0].last_received == old(self).fifo@[0].last_received
                    &&& final(self).fifo@[1] == old(self).fifo@[1]
                    &&& r == IpcEvent::Nothing
                } else {
                    &&& final(self).fifo@[0].queue.view() == q.push(value)
                    &&& final(self).fifo@[0].last_received == old(self).fifo@[0].last_received
                    &&& final(self).fifo@[1] == old(self).fifo@[1]
                    &&& final(self).fifo@[0].cnt == if q.len() == 0 {
                        cnt0 & !SEND_EMPTY
                    } else if q.len() == 15 {
                        cnt0 | SEND_FULL
                    } else {
                        cnt0
                    }
                    &&& r == IpcEvent::HleRecv
                }
            }),
            old(self).status_consistent() && old(self).mode != IpcMode::Hle ==> final(self).status_consistent(),
    {
        if self.mode == IpcMode::Hle {
            if self.fifo[0].cnt & ENABLE != 0 {
                let fifo_len = self.fifo[0].queue.len();
                if fifo_len < 16 {
                    self.fifo[0].queue.push_back(value);
                    if fifo_len == 0 {
                        self.fifo[0].cnt = self.fifo[0].cnt & !SEND_EMPTY;
                    } else if fifo_len == 15 {
                        self.fifo[0].cnt = self.fifo[0].cnt | SEND_FULL;
                    }
                    return IpcEvent::HleRecv;
                } else {
                    self.fifo[0].cnt = self.fifo[0].cnt | ERR;
                }
            }
            return IpcEvent::Nothing;
        }
        let c = cpu.index() as usize;
        let o = 1 - c;
        if self.fifo[c].cnt & ENABLE != 0 {
            let fifo_len = self.fifo[c].queue.len();
            if fifo_len < 16 {
                if cpu == CpuType::ARM9 && self.mode == IpcMode::LleSoundHle && value & 0x1F
                    == TAG_SOUND {
                    return IpcEvent::SoundHle(value >> 6u32);
                }
                self.fifo[c].queue.push_back(value);
                if fifo_len == 0 {
                    proof {
                        lemma_status_flags(self.fifo@[c as int].cnt, SEND_EMPTY, false);
                        lemma_status_flags(self.fifo@[o as int].cnt, RECV_EMPTY, false);
                    }
                    self.fifo[c].cnt = self.fifo[c].cnt & !SEND_EMPTY;
                    let co = self.fifo[o].cnt;
                    proof {
                        lemma_cnt_bits(co, 0);
                    }
                    self.fifo[o].cnt = co & !RECV_EMPTY;
                    if self.fifo[o].cnt & RECV_NOT_EMPTY_IRQ != 0 {
                        return IpcEvent::Interrupt(cpu.other(), InterruptFlag::IpcRecvFifoNotEmpty);
                    }
                } else if fifo_len == 15 {
                    proof {
                        lemma_status_flags(self.fifo@[c as int].cnt, SEND_FULL, true);
                        lemma_status_flags(self.fifo@[o as int].cnt, RECV_FULL, true);
                    }
                    self.fifo[c].cnt = self.fifo[c].cnt | SEND_FULL;
                    self.fifo[o].cnt = self.fifo[o].cnt | RECV_FULL;
                }
            }
        } else {
            proof {
                lemma_status_flags(self.fifo@[c as int].cnt, ERR, true);
            }
            self.fifo[c].cnt = self.fifo[c].cnt | ERR;
        }
        IpcEvent::Nothing
    }

    /// Processor `cpu` reads its receive register: the word at the front of
    /// the other queue, taken off it when the queues are on; reading an
    /// empty queue sets the error flag and gives the last word again.
    pub fn fifo_recv(&mut self, cpu: CpuType) -> (r: (u32, IpcEvent))
        requires
            old(self).wf(),
        ensures
            final(self).wf(),
            final(self).mode == old(self).mode,
            ({
                let c = cpu_index(cpu);
                let o = 1 - c;
                let cnt_c = old(self).fifo@[c].cnt;
                let cnt_o = old(self).fifo@[o].cnt;
                let q = old(self).fifo@[o].queue.view();
                if q.len() == 0 {
                    &&& final(self).fifo@[c].cnt == cnt_c | ERR
                    &&& final(self).fifo@[c].queue == old(self).fifo@[c].queue
                    &&& final(self).fifo@[c].last_received == old(self).fifo@[c].last_received
                    &&& final(self).fifo@[o] == old(self).fifo@[o]
                    &&& r == (old(self).fifo@[c].last_received, IpcEvent::Nothing)
                } else if !flag(cnt_c, ENABLE) {
                    &&& final(self).fifo@[c].last_received == q[0]
                    &&& final(self).fifo@[c].cnt == cnt_c
                    &&& final(self).fifo@[c].queue == old(self).fifo@[c].queue
                    &&& final(self).fifo@[o] == old(self).fifo@[o]
                    &&& r == (q[0], IpcEvent::Nothing)
                } else {
                    &&& final(self).fifo@[c].last_received == q[0]
                    &&& final(self).fifo@[o].queue.view() == q.drop_first()
                    &&& final(self).fifo@[c].queue == old(self).fifo@[c].queue
                    &&& final(self).fifo@[o].last_received == old(self).fifo@[o].last_received
                    &&& final(self).fifo@[c].cnt == if q.len() == 1 {
                        cnt_c | RECV_EMPTY
                    } else if q.len() == 16 {
                        cnt_c & !RECV_FULL
                    } else {
                        cnt_c
                    }
                    &&& final(self).fifo@[o].cnt == if q.len() == 1 {
                        cnt_o | SEND_EMPTY
                    } else if q.len() == 16 {
                        cnt_o & !SEND_FULL
                    } else {
                        cnt_o
                    }
                    &&& r == (q[0], if q.len() == 1 && flag(cnt_o, SEND_EMPTY_IRQ) {
                        IpcEvent::Interrupt(cpu.opposite(), InterruptFlag::IpcSendFifoEmpty)
                    } else {
                        IpcEvent::Nothing
                    })
                }
            }),
            old(self).status_consistent() ==> final(self).status_consistent(),
    {
        let c = cpu.index() as usize;
        let o = 1 - c;
        proof {
            self.fifo@[0].queue.lemma_wf();
            self.fifo@[1].queue.lemma_wf();
        }
        let other_len = self.fifo[o].queue.len();
        let mut event = IpcEvent::Nothing;
        if other_len > 0 {
            self.fifo[c].last_received = self.fifo[o].queue.front();
            if self.fifo[c].cnt & ENABLE != 0 {
                self.fifo[o].queue.pop_front();
                if other_len == 1 {
                    proof {
                        lemma_status_flags(self.fifo@[c as int].cnt, RECV_EMPTY, true);
                        lemma_status_flags(self.fifo@[o as int].cnt, SEND_EMPTY, true);
                    }
                    self.fifo[c].cnt = self.fifo[c].cnt | RECV_EMPTY;
                    let co = self.fifo[o].cnt;
                    proof {
                        lemma_cnt_bits(co, 0);
                    }
                    self.fifo[o].cnt = co | SEND_EMPTY;
                    if self.fifo[o].cnt & SEND_EMPTY_IRQ != 0 {
                        event = IpcEvent::Interrupt(cpu.other(), InterruptFlag::IpcSendFifoEmpty);
                    }
                } else if other_len == 16 {
                    proof {
                        lemma_status_flags(self.fifo@[c as int].cnt, RECV_FULL, false);
                        lemma_status_flags(self.fifo@[o as int].cnt, SEND_FULL, false);
                    }
                    self.fifo[c].cnt = self.fifo[c].cnt & !RECV_FULL;
                    self.fifo[o].cnt = self.fifo[o].cnt & !SEND_FULL;
                }
            }
        } else {
            proof {
                lemma_status_flags(self.fifo@[c as int].cnt, ERR, true);
            }
            self.fifo[c].cnt = self.fifo[c].cnt | ERR;
        }
        (self.fifo[c].last_received, event)
    }

    /// Processor `cpu` writes its FIFO control register: a one in the clear
    /// bit empties a non-empty send queue, a one in the error bit acknowledges
    /// the error, the enable bit and both interrupt enables are taken. The
    /// result tells which interrupts `cpu` gets: send queue empty, turned on
    /// while the queue is empty; receive queue not empty, turned on while it
    /// holds words.
    pub fn set_fifo_cnt(&mut self, cpu: CpuType, new_cnt: u16) -> (r: (bool, bool))
        requires
            old(self).wf(),
            !(flag(new_cnt, SEND_CLEAR) && old(self).fifo@[cpu_index(cpu)].queue.view().len() > 0
                && flag(old(self).fifo@[cpu_index(cpu)].cnt, SEND_EMPTY_IRQ)),
        ensures
            final(self).wf(),
            final(self).mode == old(self).mode,
            ({
                let c = cpu_index(cpu);
                let o = 1 - c;
                let cnt_c = old(self).fifo@[c].cnt;
                let cnt_o = old(self).fifo@[o].cnt;
                let cleared = flag(new_cnt, SEND_CLEAR) && old(self).fifo@[c].queue.view().len() > 0;
                let cnt1 = if cleared {
                    with_flag(with_flag(cnt_c, SEND_EMPTY, true), SEND_FULL, false)
                } else {
                    cnt_c
                };
                let cnt2 = if flag(new_cnt, ERR) {
                    cnt1 & !ERR
                } else {
                    cnt1
                };
                &&& final(self).fifo@[c].cnt == (cnt2 & !0x8404u16) | (new_cnt & 0x8404)
                &&& final(self).fifo@[o].cnt == if cleared {
                    with_flag(with_flag(cnt_o, RECV_EMPTY, true), RECV_FULL, false)
                } else {
                    cnt_o
                }
                &&& final(self).fifo@[c].queue.view() == if cleared {
                    Seq::<u32>::empty()
                } else {
                    old(self).fifo@[c].queue.view()
                }
                &&& final(self).fifo@[c].last_received == if cleared {
                    0
                } else {
                    old(self).fifo@[c].last_received
                }
                &&& final(self).fifo@[o].queue == old(self).fifo@[o].queue
                &&& final(self).fifo@[o].last_received == old(self).fifo@[o].last_received
                &&& r.0 == (flag(cnt1, SEND_EMPTY) && !flag(cnt1, SEND_EMPTY_IRQ) && flag(new_cnt, SEND_EMPTY_IRQ))
                &&& r.1 == (!flag(cnt1, RECV_EMPTY) && !flag(cnt1, RECV_NOT_EMPTY_IRQ) && flag(new_cnt, RECV_NOT_EMPTY_IRQ))
            }),
            old(self).status_consistent() ==> final(self).status_consistent(),
    {
        let c = cpu.index() as usize;
        let o = 1 - c;
        if new_cnt & SEND_CLEAR != 0 && !self.fifo[c].queue.is_empty() {
            self.fifo[c].queue.clear();
            self.fifo[c].last_received = 0;
            let cc = self.fifo[c].cnt;
            proof {
                lemma_status_flags(cc, SEND_EMPTY, true);
                lemma_status_flags(cc | SEND_EMPTY, SEND_FULL, false);
            }
            self.fifo[c].cnt = (cc | SEND_EMPTY) & !SEND_FULL;
            let co = self.fifo[o].cnt;
            proof {
                lemma_status_flags(co, RECV_EMPTY, true);
                lemma_status_flags(co | RECV_EMPTY, RECV_FULL, false);
            }
            self.fifo[o].cnt = (co | RECV_EMPTY) & !RECV_FULL;
        }
        let cnt1 = self.fifo[c].cnt;
        let send_irq = cnt1 & SEND_EMPTY != 0 && cnt1 & SEND_EMPTY_IRQ == 0 && new_cnt & SEND_EMPTY_IRQ != 0;
        let recv_irq = cnt1 & RECV_EMPTY == 0 && cnt1 & RECV_NOT_EMPTY_IRQ == 0 && new_cnt
            & RECV_NOT_EMPTY_IRQ != 0;
        let cnt2 = if new_cnt & ERR != 0 {
            cnt1 & !ERR
        } else {
            cnt1
        };
        proof {
            lemma_status_flags(cnt1, ERR, false);
        }
        let merged = (cnt2 & !0x8404u16) | (new_cnt & 0x8404);
        proof {
            lemma_cnt_bits(cnt2, new_cnt);
        }
        self.fifo[c].cnt = merged;
        (send_irq, recv_irq)
    }
}

/// A message word of the emulated ARM7: the tag (bits 0 to 4), the error
/// bit (bit 5) and the data (bits 6 to 31).
pub open spec fn hle_message(tag: u8, data: u32, err: bool) -> u32 {
    (tag as u32) | (if err {
        0x20u32
    } else {
        0u32
    }) | (data << 6u32)
}

impl Ipc {
    /// The emulated ARM7 sends message `data` with `tag` to the ARM9: to a
    /// full queue it is dropped and the error and full flags are set;
    /// otherwise it is queued, and the first word in the queue clears the
    /// empty flags and returns whether the ARM9 takes the "receive queue not
    /// empty" interrupt.
    pub fn arm7_hle_send_ipc_fifo(&mut self, tag: u8, data: u32, err: bool) -> (irq: bool)
        requires
            old(self).wf(),
            tag < 32,
            data < 0x400_0000,
        ensures
            final(self).wf(),
            final(self).mode == old(self).mode,
            final(self).fifo@[0].queue == old(self).fifo@[0].queue,
            final(self).fifo@[0].last_received == old(self).fifo@[0].last_received,
            final(self).fifo@[1].last_received == old(self).fifo@[1].last_received,
            ({
                let q = old(self).fifo@[1].queue.view();
                let c7 = old(self).fifo@[1].cnt;
                let c9 = old(self).fifo@[0].cnt;
                if q.len() == 16 {
                    &&& final(self).fifo@[1].cnt == c7 | ERR | SEND_FULL
                    &&& final(self).fifo@[0].cnt == c9 | RECV_FULL
                    &&& final(self).fifo@[1].queue == old(self).fifo@[1].queue
                    &&& !irq
                } else {
                    &&& final(self).fifo@[1].queue.view() == q.push(hle_message(tag, data, err))
                    &&& final(self).fifo@[1].cnt == if q.len() == 0 {
                        c7 & !SEND_EMPTY
                    } else {
                        c7
                    }
                    &&& final(self).fifo@[0].cnt == if q.len() == 0 {
                        c9 & !RECV_EMPTY
                    } else {
                        c9
                    }
                    &&& irq == (q.len() == 0 && flag(c9, RECV_NOT_EMPTY_IRQ))
                }
            }),
    {
        proof {
            self.fifo@[1].queue.lemma_wf();
        }
        if self.fifo[1].queue.len() == 16 {
            self.fifo[1].cnt = self.fifo[1].cnt | ERR | SEND_FULL;
            self.fifo[0].cnt = self.fifo[0].cnt | RECV_FULL;
            false
        } else {
            let first = self.fifo[1].queue.is_empty();
            let word = (tag as u32) | (if err {
                0x20u32
            } else {
                0u32
            }) | (data << 6u32);
            self.fifo[1].queue.push_back(word);
            if first {
                self.fifo[1].cnt = self.fifo[1].cnt & !SEND_EMPTY;
                let c9 = self.fifo[0].cnt;
                self.fifo[0].cnt = c9 & !RECV_EMPTY;
                proof {
                    lemma_cnt_bits(c9, 0);
                }
                self.fifo[0].cnt & RECV_NOT_EMPTY_IRQ != 0
            } else {
                false
            }
        }
    }

    /// The emulated ARM7 takes the front word of the ARM9's queue; returns it
    /// and whether the ARM9 takes the "send queue empty" interrupt (the
    /// queue is now empty and the interrupt is enabled).
    pub fn arm7_hle_recv_word(&mut self) -> (r: (u32, bool))
        requires
            old(self).wf(),
            old(self).fifo@[0].queue.view().len() > 0,
        ensures
            final(self).wf(),
            final(self).mode == old(self).mode,
            final(self).fifo@[1] == old(self).fifo@[1],
            final(self).fifo@[0].cnt == old(self).fifo@[0].cnt,
            final(self).fifo@[0].last_received == old(self).fifo@[0].last_received,
            final(self).fifo@[0].queue.view() == old(self).fifo@[0].queue.view().drop_first(),
            r.0 == old(self).fifo@[0].queue.view()[0],
            r.1 == (old(self).fifo@[0].queue.view().len() == 1 && flag(old(self).fifo@[0].cnt, SEND_EMPTY_IRQ)),
    {
        let val = self.fifo[0].queue.front();
        self.fifo[0].queue.pop_front();
        let irq = self.fifo[0].queue.is_empty() && self.fifo[0].cnt & SEND_EMPTY_IRQ != 0;
        (val, irq)
    }
}


/// What a write to the sync register of a processor does: its own register
/// keeps the output nibble and the interrupt enable (bits 8 to 11 and 14),
/// the other's input nibble (bits 0 to 3) takes the output nibble, and the
/// other processor gets the sync interrupt when this write asks for it (bit
/// 13) and the other enabled it.
pub fn sync_write(local: u16, remote: u16) -> (r: (u16, u16, bool))
    ensures
        r.0 == local & 0x4F00,
        r.1 == (remote & !0xFu16) | ((local >> 8u16) & 0xF),
        r.2 == (flag(local, 0x2000) && flag(remote, 0x4000)),
{
    let data_out = (local >> 8u16) & 0xF;
    let new_remote = (remote & !0xFu16) | data_out;
    let irq = local & 0x2000 != 0 && new_remote & 0x4000 != 0;
    proof {
        lemma_cnt_bits(remote, local);
    }
    (local & 0x4F00, new_remote, irq)
}

} // verus!
