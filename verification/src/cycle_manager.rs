use vstd::prelude::*;
use crate::cpu_type::{CpuType, cpu_index};

verus! {

/// Events that run as soon as the scheduler is checked.
#[derive(PartialEq, Eq, Structural, Debug, Clone, Copy)]
pub enum ImmEventType {
    CpuInterruptArm9,
    CpuInterruptArm7,
    CartridgeWordReadArm9,
    CartridgeWordReadArm7,
    Dma0Arm9,
    Dma0Arm7,
    Dma1Arm9,
    Dma1Arm7,
    Dma2Arm9,
    Dma2Arm7,
    Dma3Arm9,
    Dma3Arm7,
}

/// Events that run once their cycle is reached.
#[derive(PartialEq, Eq, Structural, Debug, Clone, Copy)]
pub enum EventType {
    GpuScanline256,
    GpuScanline355,
    SpuSample,
    Timer0Arm9,
    Timer0Arm7,
    Timer1Arm9,
    Timer1Arm7,
    Timer2Arm9,
    Timer2Arm7,
    Timer3Arm9,
    Timer3Arm7,
    SoundCmdHle,
    SoundAlarm0Hle,
    SoundAlarm1Hle,
    SoundAlarm2Hle,
    SoundAlarm3Hle,
    SoundAlarm4Hle,
    SoundAlarm5Hle,
    SoundAlarm6Hle,
    SoundAlarm7Hle,
    WifiScanHle,
    MicSampleHle,
    Overflow,
}

/// Number of immediate event kinds.
pub const IMM_EVENT_COUNT: usize = 12;
/// Number of timed event kinds.
pub const EVENT_COUNT: usize = 23;

/// The number of an immediate event kind.
pub open spec fn imm_index(e: ImmEventType) -> int {
    match e {
        ImmEventType::CpuInterruptArm9 => 0,
        ImmEventType::CpuInterruptArm7 => 1,
        ImmEventType::CartridgeWordReadArm9 => 2,
        ImmEventType::CartridgeWordReadArm7 => 3,
        ImmEventType::Dma0Arm9 => 4,
        ImmEventType::Dma0Arm7 => 5,
        ImmEventType::Dma1Arm9 => 6,
        ImmEventType::Dma1Arm7 => 7,
        ImmEventType::Dma2Arm9 => 8,
        ImmEventType::Dma2Arm7 => 9,
        ImmEventType::Dma3Arm9 => 10,
        ImmEventType::Dma3Arm7 => 11,
    }
}

/// The number of a timed event kind.
pub open spec fn event_index(e: EventType) -> int {
    match e {
        EventType::GpuScanline256 => 0,
        EventType::GpuScanline355 => 1,
        EventType::SpuSample => 2,
        EventType::Timer0Arm9 => 3,
        EventType::Timer0Arm7 => 4,
        EventType::Timer1Arm9 => 5,
        EventType::Timer1Arm7 => 6,
        EventType::Timer2Arm9 => 7,
        EventType::Timer2Arm7 => 8,
        EventType::Timer3Arm9 => 9,
        EventType::Timer3Arm7 => 10,
        EventType::SoundCmdHle => 11,
        EventType::SoundAlarm0Hle => 12,
        EventType::SoundAlarm1Hle => 13,
        EventType::SoundAlarm2Hle => 14,
        EventType::SoundAlarm3Hle => 15,
        EventType::SoundAlarm4Hle => 16,
        EventType::SoundAlarm5Hle => 17,
        EventType::SoundAlarm6Hle => 18,
        EventType::SoundAlarm7Hle => 19,
        EventType::WifiScanHle => 20,
        EventType::MicSampleHle => 21,
        EventType::Overflow => 22,
    }
}

proof fn lemma_shl1(x: u8)
    requires
        x < 4,
    ensures
        x << 1u8 == 2 * x,
{
    assert(x < 4 ==> x << 1u8 == 2 * x) by (bit_vector);
}

impl ImmEventType {
    /// The number of the kind.
    pub fn index(self) -> (r: u8)
        ensures
            r == imm_index(self),
    {
        match self {
            ImmEventType::CpuInterruptArm9 => 0,
            ImmEventType::CpuInterruptArm7 => 1,
            ImmEventType::CartridgeWordReadArm9 => 2,
            ImmEventType::CartridgeWordReadArm7 => 3,
            ImmEventType::Dma0Arm9 => 4,
            ImmEventType::Dma0Arm7 => 5,
            ImmEventType::Dma1Arm9 => 6,
            ImmEventType::Dma1Arm7 => 7,
            ImmEventType::Dma2Arm9 => 8,
            ImmEventType::Dma2Arm7 => 9,
            ImmEventType::Dma3Arm9 => 10,
            ImmEventType::Dma3Arm7 => 11,
        }
    }

    /// The kind with the given number.
    pub fn from_index(value: u8) -> (r: Self)
        requires
            value < IMM_EVENT_COUNT,
        ensures
            imm_index(r) == value,
    {
        if value == 0 { ImmEventType::CpuInterruptArm9 }
        else if value == 1 { ImmEventType::CpuInterruptArm7 }
        else if value == 2 { ImmEventType::CartridgeWordReadArm9 }
        else if value == 3 { ImmEventType::CartridgeWordReadArm7 }
        else if value == 4 { ImmEventType::Dma0Arm9 }
        else if value == 5 { ImmEventType::Dma0Arm7 }
        else if value == 6 { ImmEventType::Dma1Arm9 }
        else if value == 7 { ImmEventType::Dma1Arm7 }
        else if value == 8 { ImmEventType::Dma2Arm9 }
        else if value == 9 { ImmEventType::Dma2Arm7 }
        else if value == 10 { ImmEventType::Dma3Arm9 }
        else { ImmEventType::Dma3Arm7 }
    }

    /// The interrupt event of a processor.
    pub fn cpu_interrupt(cpu: CpuType) -> (r: Self)
        ensures
            imm_index(r) == cpu_index(cpu),
    {
        ImmEventType::from_index(cpu.index())
    }

    /// The cartridge word-read event of a processor.
    pub fn cartridge_word_read(cpu: CpuType) -> (r: Self)
        ensures
            imm_index(r) == 2 + cpu_index(cpu),
    {
        ImmEventType::from_index(2 + cpu.index())
    }

    /// The event of DMA channel `channel_num` (0 to 3) of a processor.
    pub fn dma(cpu: CpuType, channel_num: u8) -> (r: Self)
        requires
            channel_num < 4,
        ensures
            imm_index(r) == 4 + 2 * channel_num + cpu_index(cpu),
    {
        proof {
            lemma_shl1(channel_num);
        }
        ImmEventType::from_index(4 + (channel_num << 1u8) + cpu.index())
    }
}

impl EventType {
    /// The number of the kind.
    pub fn index(self) -> (r: u8)
        ensures
            r == event_index(self),
    {
        match self {
            EventType::GpuScanline256 => 0,
            EventType::GpuScanline355 => 1,
            EventType::SpuSample => 2,
            EventType::Timer0Arm9 => 3,
            EventType::Timer0Arm7 => 4,
            EventType::Timer1Arm9 => 5,
            EventType::Timer1Arm7 => 6,
            EventType::Timer2Arm9 => 7,
            EventType::Timer2Arm7 => 8,
            EventType::Timer3Arm9 => 9,
            EventType::Timer3Arm7 => 10,
            EventType::SoundCmdHle => 11,
            EventType::SoundAlarm0Hle => 12,
            EventType::SoundAlarm1Hle => 13,
            EventType::SoundAlarm2Hle => 14,
            EventType::SoundAlarm3Hle => 15,
            EventType::SoundAlarm4Hle => 16,
            EventType::SoundAlarm5Hle => 17,
            EventType::SoundAlarm6Hle => 18,
            EventType::SoundAlarm7Hle => 19,
            EventType::WifiScanHle => 20,
            EventType::MicSampleHle => 21,
            EventType::Overflow => 22,
        }
    }

    /// The kind with the given number.
    pub fn from_index(value: u8) -> (r: Self)
        requires
            value < EVENT_COUNT,
        ensures
            event_index(r) == value,
    {
        if value == 0 { EventType::GpuScanline256 }
        else if value == 1 { EventType::GpuScanline355 }
        else if value == 2 { EventType::SpuSample }
        else if value == 3 { EventType::Timer0Arm9 }
        else if value == 4 { EventType::Timer0Arm7 }
        else if value == 5 { EventType::Timer1Arm9 }
        else if value == 6 { EventType::Timer1Arm7 }
        else if value == 7 { EventType::Timer2Arm9 }
        else if value == 8 { EventType::Timer2Arm7 }
        else if value == 9 { EventType::Timer3Arm9 }
        else if value == 10 { EventType::Timer3Arm7 }
        else if value == 11 { EventType::SoundCmdHle }
        else if value == 12 { EventType::SoundAlarm0Hle }
        else if value == 13 { EventType::SoundAlarm1Hle }
        else if value == 14 { EventType::SoundAlarm2Hle }
        else if value == 15 { EventType::SoundAlarm3Hle }
        else if value == 16 { EventType::SoundAlarm4Hle }
        else if value == 17 { EventType::SoundAlarm5Hle }
        else if value == 18 { EventType::SoundAlarm6Hle }
        else if value == 19 { EventType::SoundAlarm7Hle }
        else if value == 20 { EventType::WifiScanHle }
        else if value == 21 { EventType::MicSampleHle }
        else { EventType::Overflow }
    }

    /// The overflow event of timer channel `channel_num` (0 to 3) of a processor.
    pub fn timer(cpu: CpuType, channel_num: u8) -> (r: Self)
        requires
            channel_num < 4,
        ensures
            event_index(r) == 3 + 2 * channel_num + cpu_index(cpu),
    {
        proof {
            lemma_shl1(channel_num);
        }
        EventType::from_index(3 + (channel_num << 1u8) + cpu.index())
    }

    /// The event of sound alarm `id` (0 to 7).
    pub fn sound_alarm_hle(id: u8) -> (r: Self)
        requires
            id < 8,
        ensures
            event_index(r) == 12 + id,
    {
        EventType::from_index(12 + id)
    }
}

} // verus!

verus! {

/// Whether bit `31 - i` of a mask is set: event `i` is active.
pub open spec fn bit(m: u32, i: int) -> bool {
    (m >> ((31 - i) as u32)) & 1 == 1
}

proof fn lemma_set_bit(m: u32, i: u32, j: u32)
    requires
        i < 32,
        j < 32,
    ensures
        bit(m | (1u32 << (31 - i) as u32), j as int) == (bit(m, j as int) || i == j),
{
    let k = (31 - i) as u32;
    let l = (31 - j) as u32;
    assert(((m | (1u32 << k)) >> l) & 1 == 1 <==> ((m >> l) & 1 == 1 || k == l)) by (bit_vector)
        requires
            k < 32,
            l < 32,
    ;
}

proof fn lemma_clear_bit(m: u32, i: u32, j: u32)
    requires
        i < 32,
        j < 32,
    ensures
        bit(m & !(1u32 << (31 - i) as u32), j as int) == (bit(m, j as int) && i != j),
{
    let k = (31 - i) as u32;
    let l = (31 - j) as u32;
    assert(((m & !(1u32 << k)) >> l) & 1 == 1 <==> ((m >> l) & 1 == 1 && k != l)) by (bit_vector)
        requires
            k < 32,
            l < 32,
    ;
}

proof fn lemma_zero_bits(j: u32)
    requires
        j < 32,
    ensures
        !bit(0, j as int),
{
    let l = (31 - j) as u32;
    assert((0u32 >> l) & 1 == 0) by (bit_vector);
}

/// Whether event `i` is active in a mask.
fn test_bit(m: u32, i: u32) -> (r: bool)
    requires
        i < 32,
    ensures
        r == bit(m, i as int),
{
    (m >> (31 - i)) & 1 == 1
}

/// The numbers below `n` whose bit is set, in increasing order.
pub open spec fn set_bits(m: u32, n: int) -> Seq<int>
    decreases n,
{
    if n <= 0 {
        Seq::empty()
    } else if bit(m, n - 1) {
        set_bits(m, n - 1).push(n - 1)
    } else {
        set_bits(m, n - 1)
    }
}

/// A pass over the events that were active when the scheduler found one due:
/// the active mask it started from and the next event number to look at.
pub struct DueScan {
    pub snapshot: u32,
    pub pos: u32,
}

/// Where a pass ends up from `pos` on: the first due event it meets (or -1),
/// where it stops and the earliest cycle of the events it passed over.
pub open spec fn scan_from(events: Seq<u32>, count: u32, snapshot: u32, pos: int, next: u32) -> (int, int, u32)
    decreases EVENT_COUNT - pos,
{
    if pos >= EVENT_COUNT {
        (-1, pos, next)
    } else if bit(snapshot, pos) && events[pos] <= count {
        (pos, pos + 1, next)
    } else {
        let next2 = if bit(snapshot, pos) && events[pos] < next { events[pos] } else { next };
        scan_from(events, count, snapshot, pos + 1, next2)
    }
}

/// The pass of `scan_from` on the event table; a found event is returned as its
/// number, `EVENT_COUNT` standing for none.
fn scan_events(events: &[u32; 23], count: u32, snapshot: u32, pos: u32, next: u32) -> (r: (u32, u32, u32))
    requires
        pos <= EVENT_COUNT,
    ensures
        ({
            let (found, p, n) = scan_from(events@, count, snapshot, pos as int, next);
            &&& (found == -1 ==> r.0 == EVENT_COUNT)
            &&& (found != -1 ==> r.0 == found && found < EVENT_COUNT)
            &&& r.1 == p
            &&& r.2 == n
            &&& r.1 <= EVENT_COUNT
        }),
    decreases EVENT_COUNT - pos,
{
    if pos >= EVENT_COUNT as u32 {
        return (EVENT_COUNT as u32, pos, next);
    }
    let set = test_bit(snapshot, pos);
    if set && events[pos as usize] <= count {
        return (pos, pos + 1, next);
    }
    let next2 = if set && events[pos as usize] < next {
        events[pos as usize]
    } else {
        next
    };
    scan_events(events, count, snapshot, pos + 1, next2)
}

/// What a pass leaves: the earliest cycle it ends with is no later than any
/// event of the pass it passed over, nor than the earliest cycle it started from.
proof fn lemma_scan_from_bound(events: Seq<u32>, count: u32, snapshot: u32, pos: int, next: u32, j: int)
    requires
        0 <= pos <= EVENT_COUNT,
        events.len() == EVENT_COUNT,
    ensures
        ({
            let (found, p, n) = scan_from(events, count, snapshot, pos, next);
            &&& n <= next
            &&& pos <= p <= EVENT_COUNT
            &&& (found == -1 ==> p == EVENT_COUNT)
            &&& (found != -1 ==> p == found + 1 && pos <= found < EVENT_COUNT && bit(snapshot, found) && events[found] <= count)
            &&& (pos <= j < p && j != found && bit(snapshot, j) ==> n <= events[j])
        }),
    decreases EVENT_COUNT - pos,
{
    if pos < EVENT_COUNT && !(bit(snapshot, pos) && events[pos] <= count) {
        let next2 = if bit(snapshot, pos) && events[pos] < next { events[pos] } else { next };
        lemma_scan_from_bound(events, count, snapshot, pos + 1, next2, j);
    }
}

/// The events of `snapshot` from `pos` on that are due at cycle `count`, in
/// increasing number.
pub open spec fn due_from(events: Seq<u32>, count: u32, snapshot: u32, pos: int) -> Seq<int>
    decreases EVENT_COUNT - pos,
{
    if pos >= EVENT_COUNT {
        Seq::empty()
    } else if bit(snapshot, pos) && events[pos] <= count {
        seq![pos] + due_from(events, count, snapshot, pos + 1)
    } else {
        due_from(events, count, snapshot, pos + 1)
    }
}

/// The earliest of `next` and the cycles of the events of `snapshot` from
/// `pos` on that are not due at cycle `count`.
pub open spec fn earliest_not_due(events: Seq<u32>, count: u32, snapshot: u32, pos: int, next: u32) -> u32
    decreases EVENT_COUNT - pos,
{
    if pos >= EVENT_COUNT {
        next
    } else {
        let next2 = if bit(snapshot, pos) && count < events[pos] && events[pos] < next { events[pos] } else { next };
        earliest_not_due(events, count, snapshot, pos + 1, next2)
    }
}

/// A whole pass from `pos` on, as repeated `next_due_event` calls make it when
/// the handlers schedule nothing: the events it hands out, in order, and the
/// earliest cycle it leaves.
pub open spec fn pass_from(events: Seq<u32>, count: u32, snapshot: u32, pos: int, next: u32) -> (Seq<int>, u32)
    decreases EVENT_COUNT - pos,
{
    let (found, p, n) = scan_from(events, count, snapshot, pos, next);
    if found == -1 || p <= pos || p > EVENT_COUNT {
        (Seq::empty(), n)
    } else {
        let (rest, m) = pass_from(events, count, snapshot, p, n);
        (seq![found] + rest, m)
    }
}

/// One step of a pass matches the due events and the earliest cycle.
proof fn lemma_scan_step(events: Seq<u32>, count: u32, snapshot: u32, pos: int, next: u32)
    requires
        0 <= pos,
    ensures
        ({
            let (found, p, n) = scan_from(events, count, snapshot, pos, next);
            &&& found == -1 ==> due_from(events, count, snapshot, pos) == Seq::<int>::empty()
                && n == earliest_not_due(events, count, snapshot, pos, next)
            &&& found != -1 ==> p == found + 1 && pos <= found < EVENT_COUNT
                && due_from(events, count, snapshot, pos) == seq![found] + due_from(events, count, snapshot, p)
                && earliest_not_due(events, count, snapshot, pos, next) == earliest_not_due(events, count, snapshot, p, n)
            &&& forall|j: int| pos <= j < (if found == -1 { EVENT_COUNT as int } else { found }) ==> !(bit(snapshot, j) && #[trigger] events[j] <= count)
        }),
    decreases EVENT_COUNT - pos,
{
    if pos < EVENT_COUNT && !(bit(snapshot, pos) && events[pos] <= count) {
        let next2 = if bit(snapshot, pos) && events[pos] < next { events[pos] } else { next };
        lemma_scan_step(events, count, snapshot, pos + 1, next2);
    }
}

/// A pass hands out exactly the due events, once each and in increasing
/// number, and leaves the earliest cycle of the events that are not due.
pub proof fn law_pass_runs_due_events(events: Seq<u32>, count: u32, snapshot: u32, pos: int, next: u32)
    requires
        0 <= pos,
    ensures
        pass_from(events, count, snapshot, pos, next) == (
            due_from(events, count, snapshot, pos),
            earliest_not_due(events, count, snapshot, pos, next),
        ),
    decreases EVENT_COUNT - pos,
{
    lemma_scan_step(events, count, snapshot, pos, next);
    let (found, p, n) = scan_from(events, count, snapshot, pos, next);
    if found != -1 {
        law_pass_runs_due_events(events, count, snapshot, p, n);
    }
}

/// The event scheduler: the cycle counter, the cycle of each timed event, the
/// earliest of them, and the masks of the active timed and immediate events
/// (bit `31 - n` for event number `n`).
pub struct CycleManager {
    cycle_count: u32,
    events: [u32; 23],
    next_event_cycle: u32,
    active_events: u32,
    active_imm_events: u32,
}

impl CycleManager {
    pub closed spec fn cycles(&self) -> u32 {
        self.cycle_count
    }

    pub closed spec fn event_cycles(&self) -> Seq<u32> {
        self.events@
    }

    /// The table holds a cycle for every timed event.
    pub proof fn lemma_event_cycles_len(&self)
        ensures
            self.event_cycles().len() == EVENT_COUNT,
    {
    }

    pub closed spec fn next(&self) -> u32 {
        self.next_event_cycle
    }

    pub closed spec fn active(&self) -> u32 {
        self.active_events
    }

    pub closed spec fn active_imm(&self) -> u32 {
        self.active_imm_events
    }

    /// No active event lies before the earliest cycle: none can be missed.
    pub open spec fn settled(&self) -> bool {
        forall|i: int| 0 <= i < EVENT_COUNT && bit(self.active(), i) ==> self.next() <= #[trigger] self.event_cycles()[i]
    }

    /// During a pass: the active events that the pass will not look at any more
    /// lie at or after the earliest cycle.
    pub open spec fn scan_ok(&self, scan: DueScan) -> bool {
        forall|i: int|
            0 <= i < EVENT_COUNT && bit(self.active(), i) && !(i >= scan.pos && bit(scan.snapshot, i)) ==> self.next()
                <= #[trigger] self.event_cycles()[i]
    }

    pub fn new() -> (r: Self)
        ensures
            r.cycles() == 0,
            r.event_cycles() == Seq::new(EVENT_COUNT as nat, |i: int| 0u32),
            r.next() == u32::MAX,
            r.active() == 0,
            r.active_imm() == 0,
            r.settled(),
    {
        let r = CycleManager {
            cycle_count: 0,
            events: [0u32; 23],
            next_event_cycle: u32::MAX,
            active_events: 0,
            active_imm_events: 0,
        };
        assert(r.events@ =~= Seq::new(EVENT_COUNT as nat, |i: int| 0u32));
        assert forall|i: int| 0 <= i < EVENT_COUNT implies !bit(r.active(), i) by {
            lemma_zero_bits(i as u32);
        }
        r
    }

    pub fn init(&mut self)
        ensures
            final(self).cycles() == 0,
            final(self).event_cycles() == Seq::new(EVENT_COUNT as nat, |i: int| 0u32),
            final(self).next() == u32::MAX,
            final(self).active() == 0,
            final(self).active_imm() == 0,
            final(self).settled(),
    {
        *self = CycleManager::new();
    }

    /// Counts cycles run.
    pub fn add_cycles(&mut self, cycle_count: u16)
        requires
            old(self).cycles() + cycle_count <= u32::MAX,
        ensures
            final(self).cycles() == old(self).cycles() + cycle_count,
            final(self).event_cycles() == old(self).event_cycles(),
            final(self).next() == old(self).next(),
            final(self).active() == old(self).active(),
            final(self).active_imm() == old(self).active_imm(),
    {
        self.cycle_count = self.cycle_count + cycle_count as u32;
    }

    pub fn get_cycles(&self) -> (r: u32)
        ensures
            r == self.cycles(),
    {
        self.cycle_count
    }

    /// Marks an immediate event to run at the next check.
    pub fn schedule_imm(&mut self, event_type: ImmEventType)
        ensures
            forall|j: int| 0 <= j < 32 ==> bit(final(self).active_imm(), j) == (bit(old(self).active_imm(), j) || j == imm_index(event_type)),
            final(self).cycles() == old(self).cycles(),
            final(self).event_cycles() == old(self).event_cycles(),
            final(self).next() == old(self).next(),
            final(self).active() == old(self).active(),
    {
        let idx = event_type.index();
        self.active_imm_events = self.active_imm_events | (1u32 << (31 - idx) as u32);
        proof {
            assert forall|j: int| 0 <= j < 32 implies bit(self.active_imm(), j) == (bit(old(self).active_imm(), j) || j == imm_index(event_type)) by {
                lemma_set_bit(old(self).active_imm_events, idx as u32, j as u32);
            }
        }
    }

    /// Schedules a timed event `in_cycles` cycles from now (at least one, and no
    /// later than the last cycle the counter holds).
    pub fn schedule(&mut self, in_cycles: u32, event_type: EventType)
        ensures
            ({
                let d = if in_cycles < 1 { 1 } else { in_cycles as int };
                let at = if u32::MAX - d < old(self).cycles() { u32::MAX as int } else { old(self).cycles() + d };
                &&& final(self).event_cycles() == old(self).event_cycles().update(event_index(event_type), at as u32)
                &&& final(self).next() == if at < old(self).next() { at as u32 } else { old(self).next() }
            }),
            forall|j: int| 0 <= j < 32 ==> bit(final(self).active(), j) == (bit(old(self).active(), j) || j == event_index(event_type)),
            final(self).cycles() == old(self).cycles(),
            final(self).active_imm() == old(self).active_imm(),
            old(self).settled() ==> final(self).settled(),
            forall|scan: DueScan| old(self).scan_ok(scan) ==> #[trigger] final(self).scan_ok(scan),
    {
        let mut in_cycles = if in_cycles < 1 { 1 } else { in_cycles };
        if u32::MAX - in_cycles < self.cycle_count {
            in_cycles = u32::MAX - self.cycle_count;
        }
        let event_cycle = self.cycle_count + in_cycles;
        let idx = event_type.index();
        self.events[idx as usize] = event_cycle;
        self.active_events = self.active_events | (1u32 << (31 - idx) as u32);
        if event_cycle < self.next_event_cycle {
            self.next_event_cycle = event_cycle;
        }
        proof {
            assert forall|j: int| 0 <= j < 32 implies bit(self.active(), j) == (bit(old(self).active(), j) || j == event_index(event_type)) by {
                lemma_set_bit(old(self).active_events, idx as u32, j as u32);
            }
            if old(self).settled() {
                assert forall|i: int| 0 <= i < EVENT_COUNT && bit(self.active(), i) implies self.next() <= #[trigger] self.event_cycles()[i] by {
                    if i != idx {
                        assert(bit(old(self).active(), i));
                        assert(old(self).next() <= old(self).event_cycles()[i]);
                    }
                }
            }
            assert forall|scan: DueScan| old(self).scan_ok(scan) implies #[trigger] self.scan_ok(scan) by {
                assert forall|i: int|
                    0 <= i < EVENT_COUNT && bit(self.active(), i) && !(i >= scan.pos && bit(scan.snapshot, i)) implies self.next()
                        <= #[trigger] self.event_cycles()[i] by {
                    if i != idx {
                        assert(bit(old(self).active(), i));
                        assert(old(self).next() <= old(self).event_cycles()[i]);
                    }
                }
            }
        }
    }

    /// Moves the counter on to the earliest event.
    pub fn jump_to_next_event(&mut self)
        requires
            old(self).cycles() <= old(self).next(),
        ensures
            final(self).cycles() == old(self).next(),
            final(self).event_cycles() == old(self).event_cycles(),
            final(self).next() == old(self).next(),
            final(self).active() == old(self).active(),
            final(self).active_imm() == old(self).active_imm(),
    {
        self.cycle_count = self.next_event_cycle;
    }

    /// Takes the immediate events to run now, in increasing number, and clears them.
    pub fn take_imm_events(&mut self) -> (r: Vec<ImmEventType>)
        ensures
            Seq::new(r@.len(), |k: int| imm_index(r@[k])) == set_bits(old(self).active_imm(), IMM_EVENT_COUNT as int),
            final(self).active_imm() == 0,
            final(self).cycles() == old(self).cycles(),
            final(self).event_cycles() == old(self).event_cycles(),
            final(self).next() == old(self).next(),
            final(self).active() == old(self).active(),
    {
        let pending = self.active_imm_events;
        self.active_imm_events = 0;
        let mut out: Vec<ImmEventType> = Vec::new();
        let mut i: u32 = 0;
        while i < IMM_EVENT_COUNT as u32
            invariant
                i <= IMM_EVENT_COUNT,
                Seq::new(out@.len(), |k: int| imm_index(out@[k])) == set_bits(pending, i as int),
            decreases IMM_EVENT_COUNT - i,
        {
            let ghost before = Seq::new(out@.len(), |k: int| imm_index(out@[k]));
            let set = test_bit(pending, i);
            if set {
                out.push(ImmEventType::from_index(i as u8));
                assert(Seq::new(out@.len(), |k: int| imm_index(out@[k])) =~= before.push(i as int));
            }
            i = i + 1;
        }
        out
    }

    /// Starts a pass over the timed events when the counter reached the earliest
    /// one; the earliest cycle is then found again during the pass.
    pub fn begin_due_events(&mut self) -> (r: Option<DueScan>)
        requires
            old(self).cycles() >= old(self).next() ==> old(self).active() != 0,
        ensures
            old(self).cycles() < old(self).next() ==> r.is_none() && *final(self) == *old(self),
            old(self).cycles() >= old(self).next() ==> r == Some(DueScan { snapshot: old(self).active(), pos: 0 })
                && final(self).next() == u32::MAX && final(self).cycles() == old(self).cycles()
                && final(self).event_cycles() == old(self).event_cycles() && final(self).active() == old(self).active()
                && final(self).active_imm() == old(self).active_imm() && final(self).scan_ok(r.unwrap()),
    {
        if self.cycle_count < self.next_event_cycle {
            return None;
        }
        self.next_event_cycle = u32::MAX;
        Some(DueScan { snapshot: self.active_events, pos: 0 })
    }

    /// Goes on with a pass: returns the next due event of the pass (taken out of
    /// the active events, to be run before the pass goes on), or `None` when the
    /// pass is over. Events of the pass that are not due yet set the earliest cycle.
    pub fn next_due_event(&mut self, scan: &mut DueScan) -> (r: Option<EventType>)
        requires
            old(scan).pos <= EVENT_COUNT,
        ensures
            ({
                let (found, pos, next) = scan_from(
                    old(self).event_cycles(),
                    old(self).cycles(),
                    old(scan).snapshot,
                    old(scan).pos as int,
                    old(self).next(),
                );
                &&& found == -1 ==> r.is_none()
                &&& found != -1 ==> r.is_some() && event_index(r.unwrap()) == found
                &&& final(scan).pos == pos
                &&& final(scan).snapshot == old(scan).snapshot
                &&& final(self).next() == next
                &&& forall|j: int| 0 <= j < 32 ==> bit(final(self).active(), j) == (bit(old(self).active(), j) && j != found)
            }),
            final(self).cycles() == old(self).cycles(),
            final(self).event_cycles() == old(self).event_cycles(),
            final(self).active_imm() == old(self).active_imm(),
            r.is_some() ==> old(self).event_cycles()[event_index(r.unwrap())] <= old(self).cycles(),
            old(self).scan_ok(*old(scan)) ==> final(self).scan_ok(*final(scan)),
            old(self).scan_ok(*old(scan)) && r.is_none() ==> final(self).settled(),
    {
        let ghost s0 = *old(scan);
        let (found, pos, next) = scan_events(&self.events, self.cycle_count, scan.snapshot, scan.pos, self.next_event_cycle);
        scan.pos = pos;
        self.next_event_cycle = next;
        proof {
            lemma_scan_from_bound(old(self).events@, old(self).cycle_count, s0.snapshot, s0.pos as int, old(self).next_event_cycle, 0);
        }
        if found < EVENT_COUNT as u32 {
            self.active_events = self.active_events & !(1u32 << (31 - found) as u32);
            proof {
                assert forall|j: int| 0 <= j < 32 implies bit(self.active(), j) == (bit(old(self).active(), j) && j != found) by {
                    lemma_clear_bit(old(self).active_events, found, j as u32);
                }
                if old(self).scan_ok(s0) {
                    assert forall|j: int|
                        0 <= j < EVENT_COUNT && bit(self.active(), j) && !(j >= scan.pos && bit(scan.snapshot, j)) implies self.next()
                            <= #[trigger] self.event_cycles()[j] by {
                        assert(bit(old(self).active(), j));
                        lemma_scan_from_bound(old(self).events@, old(self).cycle_count, s0.snapshot, s0.pos as int, old(self).next_event_cycle, j);
                        if !(j >= s0.pos && bit(s0.snapshot, j)) {
                            assert(old(self).next() <= old(self).event_cycles()[j]);
                        }
                    }
                }
            }
            Some(EventType::from_index(found as u8))
        } else {
            proof {
                assert forall|j: int| 0 <= j < 32 implies bit(self.active(), j) == (bit(old(self).active(), j) && j != -1) by {}
                if old(self).scan_ok(s0) {
                    assert forall|j: int|
                        0 <= j < EVENT_COUNT && bit(self.active(), j) implies self.next() <= #[trigger] self.event_cycles()[j] by {
                        lemma_scan_from_bound(old(self).events@, old(self).cycle_count, s0.snapshot, s0.pos as int, old(self).next_event_cycle, j);
                        if !(j >= s0.pos && bit(s0.snapshot, j)) {
                            assert(old(self).next() <= old(self).event_cycles()[j]);
                        }
                    }
                }
            }
            None
        }
    }

    /// A whole pass over the timed events when the counter reached the
    /// earliest one, with nothing scheduled in between: the due events, in
    /// increasing number, each taken out of the active ones, and the earliest
    /// cycle of the rest set; `None`, changing nothing, when none is due yet.
    pub fn take_due_events(&mut self) -> (r: Option<Vec<EventType>>)
        requires
            old(self).cycles() >= old(self).next() ==> old(self).active() != 0,
        ensures
            old(self).cycles() < old(self).next() ==> r is None && *final(self) == *old(self),
            old(self).cycles() >= old(self).next() ==> r is Some,
            r matches Some(v) ==> Seq::new(v@.len(), |k: int| event_index(v@[k])) == due_from(
                old(self).event_cycles(),
                old(self).cycles(),
                old(self).active(),
                0,
            ),
            r is Some ==> final(self).next() == earliest_not_due(
                old(self).event_cycles(),
                old(self).cycles(),
                old(self).active(),
                0,
                u32::MAX,
            ),
            r is Some ==> forall|j: int|
                0 <= j < 32 ==> #[trigger] bit(final(self).active(), j) == (bit(old(self).active(), j) && !(j < EVENT_COUNT
                    && old(self).event_cycles()[j] <= old(self).cycles())),
            r is Some ==> final(self).settled(),
            final(self).cycles() == old(self).cycles(),
            final(self).event_cycles() == old(self).event_cycles(),
            final(self).active_imm() == old(self).active_imm(),
    {
        let ghost events = self.event_cycles();
        let ghost count = self.cycles();
        let ghost snap = self.active();
        let mut scan = match self.begin_due_events() {
            None => {
                return None;
            },
            Some(s) => s,
        };
        let mut out: Vec<EventType> = Vec::new();
        loop
            invariant_except_break
                scan.pos <= EVENT_COUNT,
                scan.snapshot == snap,
                self.cycles() == count,
                self.event_cycles() == events,
                self.active_imm() == old(self).active_imm(),
                self.scan_ok(scan),
                Seq::new(out@.len(), |k: int| event_index(out@[k])) + due_from(events, count, snap, scan.pos as int)
                    == due_from(events, count, snap, 0),
                earliest_not_due(events, count, snap, scan.pos as int, self.next()) == earliest_not_due(
                    events,
                    count,
                    snap,
                    0,
                    u32::MAX,
                ),
                forall|j: int|
                    0 <= j < 32 ==> #[trigger] bit(self.active(), j) == (bit(snap, j) && !(j < scan.pos && events[j] <= count)),
            ensures
                Seq::new(out@.len(), |k: int| event_index(out@[k])) == due_from(events, count, snap, 0),
                self.next() == earliest_not_due(events, count, snap, 0, u32::MAX),
                forall|j: int| 0 <= j < 32 ==> #[trigger] bit(self.active(), j) == (bit(snap, j) && !(j < EVENT_COUNT && events[j] <= count)),
                self.settled(),
                self.cycles() == count,
                self.event_cycles() == events,
                self.active_imm() == old(self).active_imm(),
            decreases EVENT_COUNT - scan.pos,
        {
            let ghost pos0 = scan.pos as int;
            let ghost next0 = self.next();
            let ghost act0 = self.active();
            let ghost before = Seq::new(out@.len(), |k: int| event_index(out@[k]));
            proof {
                lemma_scan_step(events, count, snap, pos0, next0);
                lemma_scan_from_bound(events, count, snap, pos0, next0, 0);
            }
            match self.next_due_event(&mut scan) {
                Some(e) => {
                    out.push(e);
                    proof {
                        let f = event_index(e);
                        assert forall|j: int| 0 <= j < 32 implies #[trigger] bit(self.active(), j) == (bit(snap, j) && !(j
                            < scan.pos && events[j] <= count)) by {
                            assert(bit(act0, j) == (bit(snap, j) && !(j < pos0 && events[j] <= count)));
                            if pos0 <= j < f {
                                assert(!(bit(snap, j) && events[j] <= count));
                            }
                        }
                        assert(Seq::new(out@.len(), |k: int| event_index(out@[k])) =~= before.push(event_index(e)));
                        assert(before.push(event_index(e)) + due_from(events, count, snap, scan.pos as int)
                            =~= before + (seq![event_index(e)] + due_from(events, count, snap, scan.pos as int)));
                    }
                },
                None => {
                    proof {
                        assert(before + due_from(events, count, snap, pos0) =~= before);
                        assert forall|j: int| 0 <= j < 32 implies #[trigger] bit(self.active(), j) == (bit(snap, j) && !(j
                            < EVENT_COUNT && events[j] <= count)) by {
                            assert(bit(act0, j) == (bit(snap, j) && !(j < pos0 && events[j] <= count)));
                            if pos0 <= j < EVENT_COUNT {
                                assert(!(bit(snap, j) && events[j] <= count));
                            }
                        }
                    }
                    break;
                },
            }
        }
        Some(out)
    }

    /// Brings every cycle back by the counter, which restarts at 0, before it
    /// can overflow; the overflow event is scheduled again.
    pub fn on_overflow(&mut self)
        requires
            forall|i: int| 0 <= i < EVENT_COUNT && bit(old(self).active(), i) ==> #[trigger] old(self).event_cycles()[i] >= old(self).cycles(),
            old(self).next() >= old(self).cycles(),
        ensures
            final(self).cycles() == 0,
            forall|i: int| 0 <= i < EVENT_COUNT && i != event_index(EventType::Overflow) ==> #[trigger] final(self).event_cycles()[i]
                == if bit(old(self).active(), i) { old(self).event_cycles()[i] - old(self).cycles() } else { old(self).event_cycles()[i] as int },
            final(self).event_cycles()[event_index(EventType::Overflow)] == 0x7FFF_FFFF,
            final(self).next() == if old(self).next() - old(self).cycles() < 0x7FFF_FFFF { old(self).next() - old(self).cycles() } else { 0x7FFF_FFFF },
            forall|j: int| 0 <= j < 32 ==> bit(final(self).active(), j) == (bit(old(self).active(), j) || j == event_index(EventType::Overflow)),
            final(self).active_imm() == old(self).active_imm(),
            old(self).settled() ==> final(self).settled(),
    {
        let count = self.cycle_count;
        let mut i: usize = 0;
        while i < EVENT_COUNT
            invariant
                i <= EVENT_COUNT,
                count == old(self).cycle_count,
                self.cycle_count == count,
                self.active_events == old(self).active_events,
                self.next_event_cycle == old(self).next_event_cycle,
                self.active_imm_events == old(self).active_imm_events,
                forall|k: int| 0 <= k < EVENT_COUNT && bit(old(self).active(), k) ==> #[trigger] old(self).event_cycles()[k] >= count,
                forall|k: int| 0 <= k < EVENT_COUNT ==> #[trigger] self.events@[k] == if k < i && bit(old(self).active(), k) {
                    old(self).events@[k] - count
                } else {
                    old(self).events@[k] as int
                },
            decreases EVENT_COUNT - i,
        {
            if test_bit(self.active_events, i as u32) {
                let v = self.events[i];
                assert(old(self).event_cycles()[i as int] >= count);
                assert(v == old(self).events@[i as int]);
                self.events[i] = v - count;
            }
            i = i + 1;
        }
        self.next_event_cycle = self.next_event_cycle - count;
        self.cycle_count = 0;
        let ghost mid = *self;
        self.schedule(0x7FFF_FFFF, EventType::Overflow);
        proof {
            if old(self).settled() {
                assert forall|k: int| 0 <= k < EVENT_COUNT && bit(mid.active(), k) implies mid.next() <= #[trigger] mid.event_cycles()[k] by {
                    assert(old(self).next() <= old(self).event_cycles()[k]);
                }
            }
        }
    }
}

/// A cycle stamp brought back by `count` cycles, 0 for one already passed.
pub fn rebase_cycle(value: u32, count: u32) -> (r: u32)
    ensures
        r == if value < count { 0 } else { value - count },
{
    if value < count {
        0
    } else {
        value - count
    }
}

} // verus!
