use vstd::prelude::*;
use crate::fixed_fifo::FixedFifo;
use vstd::slice::{slice_subrange, slice_to_vec};

verus! {

/// Commands the queue holds at most.
pub const FIFO_SIZE: usize = 512;
/// Parameter words a command takes at most.
pub const MAX_PARAM_COUNT: usize = 32;

/// Whether a geometry command number is one the engine knows.
pub open spec fn gx_is_known(cmd: u8) -> bool {
    ||| 0x10 <= cmd <= 0x1C
    ||| 0x20 <= cmd <= 0x2B
    ||| 0x30 <= cmd <= 0x34
    ||| cmd == 0x40 || cmd == 0x41 || cmd == 0x50 || cmd == 0x60
    ||| 0x70 <= cmd <= 0x72
}

/// Parameter words of each geometry command (0 for unknown numbers).
pub open spec fn gx_param_count(cmd: u8) -> u8 {
    if cmd == 0x10 || cmd == 0x12 || cmd == 0x13 || cmd == 0x14 { 1 }
    else if cmd == 0x16 || cmd == 0x18 { 16 }
    else if cmd == 0x17 || cmd == 0x19 { 12 }
    else if cmd == 0x1A { 9 }
    else if cmd == 0x1B || cmd == 0x1C || cmd == 0x70 { 3 }
    else if cmd == 0x23 || cmd == 0x71 { 2 }
    else if 0x20 <= cmd <= 0x2B { 1 }
    else if 0x30 <= cmd <= 0x33 { 1 }
    else if cmd == 0x34 { 32 }
    else if cmd == 0x40 || cmd == 0x50 || cmd == 0x60 || cmd == 0x72 { 1 }
    else { 0 }
}

/// The test commands (box, position and vector test).
pub open spec fn gx_is_test(cmd: u8) -> bool {
    0x70 <= cmd <= 0x72
}

/// Commands that a skipped frame may leave out (unknown numbers included).
pub open spec fn gx_can_frameskip(cmd: u8) -> bool {
    !gx_is_known(cmd) || (0x21 <= cmd <= 0x28) || cmd == 0x40
}

/// Words a queued command accounts for in the FIFO size.
pub open spec fn gx_weight(cmd: u8) -> int {
    if gx_param_count(cmd) == 0 { 1 } else { gx_param_count(cmd) as int }
}

/// The state of the command FIFO: the parameter store (one row of
/// `MAX_PARAM_COUNT` words per queue slot), the queued commands, the slot of the
/// front command, the packed command word being unpacked, the parameter count of
/// the command being collected and how many of its parameters are still due, the
/// FIFO size in words and the number of queued test commands.
pub ghost struct GxState {
    pub params: Seq<u32>,
    pub cmds: Seq<u8>,
    pub front: int,
    pub packed: u32,
    pub count: u8,
    pub remaining: u8,
    pub size: int,
    pub tests: int,
}

/// First word of the row of the slot that the next queued command takes.
pub open spec fn pending_base(st: GxState) -> int {
    ((st.front + st.cmds.len()) % (FIFO_SIZE as int)) * (MAX_PARAM_COUNT as int)
}

/// Moves to the next byte of the packed command word; an exhausted word leaves 0.
pub open spec fn shift_next(st: GxState) -> GxState
    decreases st.packed, 0int,
{
    let p = (st.packed / 256) as u32;
    if p != 0 {
        begin(GxState { packed: p, ..st })
    } else {
        GxState { packed: 0, ..st }
    }
}

/// Starts the command in the low byte (7 bits) of the packed word: unknown numbers
/// are skipped, commands without parameters are queued at once, and a command with
/// parameters waits for them.
pub open spec fn begin(st: GxState) -> GxState
    decreases st.packed, 1int,
{
    let cmd = (st.packed % 128) as u8;
    let tests = st.tests + if gx_is_test(cmd) { 1int } else { 0int };
    if !gx_is_known(cmd) {
        shift_next(st)
    } else if gx_param_count(cmd) == 0 {
        shift_next(GxState { cmds: st.cmds.push(cmd), size: st.size + 1, tests, ..st })
    } else {
        GxState { count: gx_param_count(cmd), remaining: gx_param_count(cmd), tests, ..st }
    }
}

/// Stores one parameter word of the command being collected (the parameter
/// count reads 0 once no parameter is due).
pub open spec fn store_param(st: GxState, w: u32) -> GxState {
    GxState {
        params: st.params.update(pending_base(st) + (st.count - st.remaining), w),
        remaining: (st.remaining - 1) as u8,
        count: if st.remaining == 1 { 0 } else { st.count },
        size: st.size + 1,
        ..st
    }
}

/// Stores several parameter words of the command being collected.
pub open spec fn write_params(st: GxState, vs: Seq<u32>) -> GxState {
    let start = pending_base(st) + (st.count - st.remaining);
    GxState {
        params: Seq::new(
            st.params.len(),
            |j: int| if start <= j < start + vs.len() { vs[j - start] } else { st.params[j] },
        ),
        remaining: (st.remaining - vs.len()) as u8,
        count: if st.remaining == vs.len() { 0 } else { st.count },
        size: st.size + vs.len(),
        ..st
    }
}

/// Queues the command whose parameters are complete and moves on in the packed word.
pub open spec fn complete(st: GxState) -> GxState {
    shift_next(GxState { cmds: st.cmds.push((st.packed % 128) as u8), ..st })
}

/// One word written to the GXFIFO port: a packed command word when no parameters
/// are due, a parameter word otherwise.
pub open spec fn feed_word(st: GxState, w: u32) -> GxState {
    if st.remaining == 0 {
        begin(GxState { packed: w, ..st })
    } else {
        let st1 = store_param(st, w);
        if st1.remaining == 0 {
            complete(st1)
        } else {
            st1
        }
    }
}

/// A sequence of words written to the GXFIFO port one after the other.
pub open spec fn feed(st: GxState, ws: Seq<u32>) -> GxState
    decreases ws.len(),
{
    if ws.len() == 0 {
        st
    } else {
        feed(feed_word(st, ws[0]), ws.drop_first())
    }
}

/// One word written to the register port of command `cmd` (the unpacked path).
pub open spec fn feed_unpacked(st: GxState, cmd: u8, w: u32) -> GxState {
    let pc = gx_param_count(cmd);
    if st.remaining == 0 {
        let params = if pc > 0 { st.params.update(pending_base(st), w) } else { st.params };
        if pc <= 1 {
            GxState { params, size: st.size + 1, cmds: st.cmds.push(cmd), ..st }
        } else {
            GxState { params, size: st.size + 1, remaining: (pc - 1) as u8, ..st }
        }
    } else {
        let st1 = GxState {
            params: st.params.update(pending_base(st) + (pc - st.remaining), w),
            remaining: (st.remaining - 1) as u8,
            size: st.size + 1,
            ..st
        };
        if st1.remaining == 0 {
            GxState { cmds: st1.cmds.push(cmd), count: 0, ..st1 }
        } else {
            st1
        }
    }
}

/// Writing parameter words one at a time stores them in order, and the word
/// that completes the command queues it.
proof fn lemma_feed_params(st: GxState, vs: Seq<u32>)
    requires
        st.params.len() == FIFO_SIZE * MAX_PARAM_COUNT,
        0 <= st.front,
        0 < st.remaining <= st.count <= MAX_PARAM_COUNT,
    ensures
        vs.len() < st.remaining ==> feed(st, vs) == write_params(st, vs),
        vs.len() >= st.remaining ==> feed(st, vs) == feed(
            complete(write_params(st, vs.subrange(0, st.remaining as int))),
            vs.subrange(st.remaining as int, vs.len() as int),
        ),
    decreases vs.len(),
{
    let base = pending_base(st);
    assert(0 <= (st.front + st.cmds.len()) % (FIFO_SIZE as int) < FIFO_SIZE as int);
    assert(0 <= base <= (FIFO_SIZE as int - 1) * (MAX_PARAM_COUNT as int)) by (nonlinear_arith)
        requires
            base == ((st.front + st.cmds.len()) % (FIFO_SIZE as int)) * (MAX_PARAM_COUNT as int),
            0 <= (st.front + st.cmds.len()) % (FIFO_SIZE as int) < FIFO_SIZE as int,
    ;
    if vs.len() == 0 {
        assert(write_params(st, vs).params =~= st.params);
        assert(write_params(st, vs) == st);
    } else {
        let st1 = store_param(st, vs[0]);
        let rest = vs.drop_first();
        assert(feed(st, vs) == feed(feed_word(st, vs[0]), rest));
        if st.remaining == 1 {
            assert(write_params(st, vs.subrange(0, 1)).params =~= st1.params);
            assert(write_params(st, vs.subrange(0, 1)) == st1);
            assert(vs.subrange(1, vs.len() as int) =~= rest);
        } else {
            assert(feed_word(st, vs[0]) == st1);
            lemma_feed_params(st1, rest);
            assert(pending_base(st1) == base);
            if vs.len() < st.remaining {
                assert(write_params(st1, rest).params =~= write_params(st, vs).params);
                assert(write_params(st1, rest) == write_params(st, vs));
            } else {
                let r = st.remaining as int;
                assert(rest.subrange(0, r - 1) =~= vs.subrange(1, r));
                assert(write_params(st1, rest.subrange(0, r - 1)).params =~= write_params(st, vs.subrange(0, r)).params);
                assert(write_params(st1, rest.subrange(0, r - 1)) == write_params(st, vs.subrange(0, r)));
                assert(rest.subrange(r - 1, rest.len() as int) =~= vs.subrange(r, vs.len() as int));
            }
        }
    }
}

proof fn lemma_low7(p: u32)
    by (bit_vector)
    ensures
        p & 0x7F == p % 128,
{
}

/// A state the FIFO can hold: at most a full queue of commands, a word count
/// that fits a signed machine word, and a test count that fits a byte.
pub open spec fn within(st: GxState) -> bool {
    &&& st.cmds.len() <= FIFO_SIZE as int
    &&& st.size <= isize::MAX as int
    &&& st.tests <= u8::MAX as int
}

/// Nothing of `a` that only grows is larger in `b`.
pub open spec fn grows(a: GxState, b: GxState) -> bool {
    &&& a.cmds.len() <= b.cmds.len()
    &&& a.size <= b.size
    &&& a.tests <= b.tests
}

proof fn lemma_grow_begin(st: GxState)
    ensures
        grows(st, begin(st)),
        grows(st, shift_next(st)),
    decreases st.packed, 2int,
{
    lemma_grow_begin_only(st);
    lemma_grow_shift(st);
}

proof fn lemma_grow_shift(st: GxState)
    ensures
        grows(st, shift_next(st)),
    decreases st.packed, 0int,
{
    let p = (st.packed / 256) as u32;
    if p != 0 {
        lemma_grow_begin_only(GxState { packed: p, ..st });
    }
}

proof fn lemma_grow_begin_only(st: GxState)
    ensures
        grows(st, begin(st)),
    decreases st.packed, 1int,
{
    let cmd = (st.packed % 128) as u8;
    let tests = st.tests + if gx_is_test(cmd) { 1int } else { 0int };
    if !gx_is_known(cmd) {
        lemma_grow_shift(st);
    } else if gx_param_count(cmd) == 0 {
        lemma_grow_shift(GxState { cmds: st.cmds.push(cmd), size: st.size + 1, tests, ..st });
    }
}

proof fn lemma_grow_feed(st: GxState, ws: Seq<u32>)
    ensures
        grows(st, feed(st, ws)),
    decreases ws.len(),
{
    if ws.len() > 0 {
        let w = ws[0];
        if st.remaining == 0 {
            lemma_grow_begin(GxState { packed: w, ..st });
        } else {
            let st1 = store_param(st, w);
            lemma_grow_begin(GxState { cmds: st1.cmds.push((st1.packed % 128) as u8), ..st1 });
        }
        lemma_grow_feed(feed_word(st, w), ws.drop_first());
    }
}

/// A queued command taken out for execution: its number and its parameter row.
pub struct GxQueuedCmd {
    pub cmd: u8,
    pub params: Vec<u32>,
}

/// The geometry command FIFO: unpacks packed command words and collects the
/// parameters of each command before queuing it.
pub struct GxCmdFifo {
    params: Vec<u32>,
    param_count: u8,
    param_remaining: u8,
    packed_cmd: u32,
    pub exe_fifo: FixedFifo<u8, 512>,
    fifo_size: usize,
    pub test_queue: u8,
}

/// Parameter words of a command, as the command table gives them.
pub fn param_count(cmd: u8) -> (r: u8)
    ensures
        r == gx_param_count(cmd),
{
    if cmd == 0x10 || cmd == 0x12 || cmd == 0x13 || cmd == 0x14 { 1 }
    else if cmd == 0x16 || cmd == 0x18 { 16 }
    else if cmd == 0x17 || cmd == 0x19 { 12 }
    else if cmd == 0x1A { 9 }
    else if cmd == 0x1B || cmd == 0x1C || cmd == 0x70 { 3 }
    else if cmd == 0x23 || cmd == 0x71 { 2 }
    else if 0x20 <= cmd && cmd <= 0x2B { 1 }
    else if 0x30 <= cmd && cmd <= 0x33 { 1 }
    else if cmd == 0x34 { 32 }
    else if cmd == 0x40 || cmd == 0x50 || cmd == 0x60 || cmd == 0x72 { 1 }
    else { 0 }
}

/// Whether the command table has an entry for the number.
pub fn is_known(cmd: u8) -> (r: bool)
    ensures
        r == gx_is_known(cmd),
{
    (0x10 <= cmd && cmd <= 0x1C) || (0x20 <= cmd && cmd <= 0x2B) || (0x30 <= cmd && cmd <= 0x34)
        || cmd == 0x40 || cmd == 0x41 || cmd == 0x50 || cmd == 0x60 || (0x70 <= cmd && cmd <= 0x72)
}

/// Whether the command is a test command.
pub fn is_test(cmd: u8) -> (r: bool)
    ensures
        r == gx_is_test(cmd),
{
    0x70 <= cmd && cmd <= 0x72
}

/// Whether a skipped frame may leave the command out.
pub fn can_frameskip(cmd: u8) -> (r: bool)
    ensures
        r == gx_can_frameskip(cmd),
{
    !is_known(cmd) || (0x21 <= cmd && cmd <= 0x28) || cmd == 0x40
}

impl GxCmdFifo {
    pub closed spec fn view(&self) -> GxState {
        GxState {
            params: self.params@,
            cmds: self.exe_fifo.view(),
            front: self.exe_fifo.front_slot(),
            packed: self.packed_cmd,
            count: if self.param_remaining > 0 { self.param_count } else { 0 },
            remaining: self.param_remaining,
            size: self.fifo_size as int,
            tests: self.test_queue as int,
        }
    }

    /// The store and the queue are laid out consistently.
    pub closed spec fn wf(&self) -> bool {
        &&& self.params@.len() == FIFO_SIZE * MAX_PARAM_COUNT
        &&& 0 <= self.exe_fifo.front_slot()
        &&& self.exe_fifo.wf()
        &&& self.param_count <= MAX_PARAM_COUNT
        &&& self.fifo_size <= isize::MAX
    }

    pub fn new() -> (r: Self)
        ensures
            r.wf(),
            r.view().params == Seq::new((FIFO_SIZE * MAX_PARAM_COUNT) as nat, |i: int| 0u32),
            r.view().cmds == Seq::<u8>::empty(),
            r.view().front == 0,
            r.view().packed == 0,
            r.view().count == 0,
            r.view().remaining == 0,
            r.view().size == 0,
            r.view().tests == 0,
    {
        let params = vec![0u32; FIFO_SIZE * MAX_PARAM_COUNT];
        let r = GxCmdFifo {
            params,
            param_count: 0,
            param_remaining: 0,
            packed_cmd: 0,
            exe_fifo: FixedFifo::new(0u8),
            fifo_size: 0,
            test_queue: 0,
        };
        assert(r.view().params =~= Seq::new((FIFO_SIZE * MAX_PARAM_COUNT) as nat, |i: int| 0u32));
        r
    }

    fn push_cmd(&mut self, cmd: u8)
        requires
            old(self).wf(),
            old(self).view().cmds.len() < FIFO_SIZE,
        ensures
            final(self).wf(),
            final(self).view() == (GxState { cmds: old(self).view().cmds.push(cmd), ..old(self).view() }),
    {
        self.exe_fifo.push_back(cmd);
    }

    fn single_next_cmd(&mut self)
        requires
            old(self).wf(),
            within(shift_next(old(self).view())),
        ensures
            final(self).wf(),
            final(self).view() == shift_next(old(self).view()),
        decreases old(self).packed_cmd, 0int,
    {
        let p = self.packed_cmd;
        assert(p >> 8u32 == p / 256) by (bit_vector);
        self.packed_cmd = p >> 8u32;
        if self.packed_cmd != 0 {
            self.init_single();
        }
    }

    fn init_single(&mut self)
        requires
            old(self).wf(),
            within(begin(old(self).view())),
        ensures
            final(self).wf(),
            final(self).view() == begin(old(self).view()),
        decreases old(self).packed_cmd, 1int,
    {
        let cmd = (self.packed_cmd & 0x7F) as u8;
        proof { lemma_low7(self.packed_cmd); }
        if !is_known(cmd) {
            self.single_next_cmd();
            return;
        }
        proof {
            let st = old(self).view();
            let t = st.tests + if gx_is_test(cmd) { 1int } else { 0int };
            if gx_param_count(cmd) == 0 {
                lemma_grow_shift(GxState { cmds: st.cmds.push(cmd), size: st.size + 1, tests: t, ..st });
            }
        }
        if is_test(cmd) {
            self.test_queue = self.test_queue + 1;
        }
        let pc = param_count(cmd);
        if pc == 0 {
            self.fifo_size = self.fifo_size + 1;
            self.push_cmd(cmd);
            self.single_next_cmd();
        } else {
            self.param_count = pc;
            self.param_remaining = pc;
        }
    }

    fn new_cmd_single(&mut self, value: u32)
        requires
            old(self).wf(),
            within(begin(GxState { packed: value, ..old(self).view() })),
        ensures
            final(self).wf(),
            final(self).view() == begin(GxState { packed: value, ..old(self).view() }),
    {
        self.packed_cmd = value;
        self.init_single();
    }

    fn single(&mut self, value: u32)
        requires
            old(self).wf(),
            0 < old(self).view().remaining <= old(self).view().count,
            within(feed_word(old(self).view(), value)),
        ensures
            final(self).wf(),
            final(self).view() == feed_word(old(self).view(), value),
    {
        let pos = self.exe_fifo.pos_end();
        let params_written = self.param_count - self.param_remaining;
        self.params.set(pos * MAX_PARAM_COUNT + params_written as usize, value);
        self.param_remaining = self.param_remaining - 1;
        self.fifo_size = self.fifo_size + 1;
        if self.param_remaining == 0 {
            let cmd = (self.packed_cmd & 0x7F) as u8;
            proof { lemma_low7(self.packed_cmd); }
            proof {
                let st1 = store_param(old(self).view(), value);
                lemma_grow_shift(GxState { cmds: st1.cmds.push((st1.packed % 128) as u8), ..st1 });
            }
            self.push_cmd(cmd);
            self.single_next_cmd();
        }
    }

    /// Writes `values` into the row of the pending slot from word `first` on.
    fn store_params(&mut self, first: usize, values: &[u32])
        requires
            old(self).wf(),
            first + values@.len() <= MAX_PARAM_COUNT,
        ensures
            final(self).wf(),
            final(self).view() == (GxState {
                params: Seq::new(
                    old(self).view().params.len(),
                    |j: int|
                        if pending_base(old(self).view()) + first <= j < pending_base(old(self).view()) + first
                            + values@.len() {
                            values@[j - pending_base(old(self).view()) - first]
                        } else {
                            old(self).view().params[j]
                        },
                ),
                ..old(self).view()
            }),
    {
        let pos_end = self.exe_fifo.pos_end();
        let start = pos_end * MAX_PARAM_COUNT + first;
        let ghost old_params = self.params@;
        let ghost base = pending_base(old(self).view());
        assert(start == base + first);
        let mut i: usize = 0;
        while i < values.len()
            invariant
                0 <= i <= values@.len(),
                start == base + first,
                pos_end < FIFO_SIZE,
                start + values@.len() <= FIFO_SIZE * MAX_PARAM_COUNT,
                self.params@.len() == old_params.len(),
                old_params.len() == FIFO_SIZE * MAX_PARAM_COUNT,
                self.exe_fifo == old(self).exe_fifo,
                self.param_count == old(self).param_count,
                self.param_remaining == old(self).param_remaining,
                self.packed_cmd == old(self).packed_cmd,
                self.fifo_size == old(self).fifo_size,
                self.test_queue == old(self).test_queue,
                forall|j: int|
                    0 <= j < old_params.len() ==> #[trigger] self.params@[j] == if start <= j < start + i {
                        values@[j - start]
                    } else {
                        old_params[j]
                    },
            decreases values@.len() - i,
        {
            self.params.set(start + i, values[i]);
            i = i + 1;
        }
        assert(self.view().params =~= Seq::new(
            old(self).view().params.len(),
            |j: int|
                if base + first <= j < base + first + values@.len() {
                    values@[j - base - first]
                } else {
                    old(self).view().params[j]
                },
        ));
    }

    fn multiple_next_cmd(&mut self, values: &[u32])
        requires
            old(self).wf(),
            old(self).view().remaining == 0,
            within(feed(shift_next(old(self).view()), values@)),
        ensures
            final(self).wf(),
            final(self).view() == feed(shift_next(old(self).view()), values@),
        decreases values@.len(), old(self).packed_cmd as int, 2int,
    {
        let p = self.packed_cmd;
        assert(p >> 8u32 == p / 256) by (bit_vector);
        self.packed_cmd = p >> 8u32;
        if self.packed_cmd != 0 {
            self.multiple_init(values);
        } else if values.len() > 0 {
            self.new_cmd_multiple(values);
        }
    }

    fn multiple_init(&mut self, values: &[u32])
        requires
            old(self).wf(),
            old(self).view().remaining == 0,
            within(feed(begin(old(self).view()), values@)),
        ensures
            final(self).wf(),
            final(self).view() == feed(begin(old(self).view()), values@),
        decreases values@.len(), old(self).packed_cmd as int, 3int,
    {
        let cmd = (self.packed_cmd & 0x7F) as u8;
        proof {
            lemma_low7(self.packed_cmd);
            lemma_grow_feed(begin(old(self).view()), values@);
        }
        if !is_known(cmd) {
            self.multiple_next_cmd(values);
            return;
        }
        proof {
            let st = old(self).view();
            let t = st.tests + if gx_is_test(cmd) { 1int } else { 0int };
            if gx_param_count(cmd) == 0 {
                lemma_grow_shift(GxState { cmds: st.cmds.push(cmd), size: st.size + 1, tests: t, ..st });
            }
        }
        if is_test(cmd) {
            self.test_queue = self.test_queue + 1;
        }
        let pc = param_count(cmd);
        let ghost st0 = old(self).view();
        let ghost started = begin(st0);
        if pc == 0 {
            self.fifo_size = self.fifo_size + 1;
            self.push_cmd(cmd);
            self.multiple_next_cmd(values);
        } else if pc as usize <= values.len() {
            proof {
                lemma_feed_params(started, values@);
            }
            self.store_params(0, slice_subrange(values, 0, pc as usize));
            self.fifo_size = self.fifo_size + pc as usize;
            proof {
                let written = write_params(started, values@.subrange(0, pc as int));
                assert(self.view().params =~= written.params);
                assert(self.view() == written);
                lemma_grow_shift(GxState { cmds: written.cmds.push((written.packed % 128) as u8), ..written });
                lemma_grow_feed(complete(written), values@.subrange(pc as int, values@.len() as int));
            }
            self.push_cmd(cmd);
            let rest = slice_subrange(values, pc as usize, values.len());
            self.multiple_next_cmd(rest);
        } else {
            self.param_count = pc;
            self.param_remaining = pc - values.len() as u8;
            proof {
                lemma_feed_params(started, values@);
            }
            self.store_params(0, values);
            self.fifo_size = self.fifo_size + values.len();
            proof {
                assert(self.view().params =~= write_params(started, values@).params);
            }
        }
    }

    fn new_cmd_multiple(&mut self, values: &[u32])
        requires
            old(self).wf(),
            old(self).view().remaining == 0,
            values@.len() > 0,
            within(feed(old(self).view(), values@)),
        ensures
            final(self).wf(),
            final(self).view() == feed(old(self).view(), values@),
        decreases values@.len(), 0int, 0int,
    {
        self.packed_cmd = values[0];
        proof {
            assert(values@.drop_first() =~= values@.subrange(1, values@.len() as int));
        }
        let rest = slice_subrange(values, 1, values.len());
        self.multiple_init(rest);
    }

    fn multiple(&mut self, values: &[u32])
        requires
            old(self).wf(),
            0 < old(self).view().remaining <= old(self).view().count,
            values@.len() > 0,
            within(feed(old(self).view(), values@)),
        ensures
            final(self).wf(),
            final(self).view() == feed(old(self).view(), values@),
    {
        let ghost st0 = self.view();
        proof {
            lemma_feed_params(st0, values@);
        }
        let remaining = self.param_remaining as usize;
        let to_write = if remaining < values.len() {
            remaining
        } else {
            values.len()
        };
        let params_written = self.param_count - self.param_remaining;
        self.store_params(params_written as usize, slice_subrange(values, 0, to_write));
        self.param_remaining = self.param_remaining - to_write as u8;
        self.fifo_size = self.fifo_size + to_write;
        if self.param_remaining == 0 {
            proof {
                let written = write_params(st0, values@.subrange(0, to_write as int));
                assert(self.view().params =~= written.params);
                assert(self.view() == written);
                lemma_grow_shift(GxState { cmds: written.cmds.push((written.packed % 128) as u8), ..written });
                lemma_grow_feed(complete(written), values@.subrange(to_write as int, values@.len() as int));
            }
            let cmd = (self.packed_cmd & 0x7F) as u8;
            proof {
                lemma_low7(self.packed_cmd);
            }
            self.push_cmd(cmd);
            let rest = slice_subrange(values, to_write, values.len());
            self.multiple_next_cmd(rest);
        } else {
            proof {
                assert(values@.subrange(0, to_write as int) =~= values@);
                assert(self.view().params =~= write_params(st0, values@).params);
            }
        }
    }

    /// Words written to the GXFIFO port in one go, as a DMA transfer does; they
    /// are taken exactly as if written one after the other.
    pub fn write_multiple(&mut self, values: &[u32])
        requires
            old(self).wf(),
            values@.len() > 0,
            old(self).view().remaining > 0 ==> old(self).view().remaining <= old(self).view().count,
            within(feed(old(self).view(), values@)),
        ensures
            final(self).wf(),
            final(self).view() == feed(old(self).view(), values@),
    {
        if self.param_remaining == 0 {
            self.new_cmd_multiple(values);
        } else {
            self.multiple(values);
        }
    }

    /// A word written to the GXFIFO port.
    pub fn write(&mut self, value: u32)
        requires
            old(self).wf(),
            old(self).view().remaining > 0 ==> old(self).view().remaining <= old(self).view().count,
            within(feed_word(old(self).view(), value)),
        ensures
            final(self).wf(),
            final(self).view() == feed_word(old(self).view(), value),
    {
        if self.param_remaining == 0 {
            self.new_cmd_single(value);
        } else {
            self.single(value);
        }
    }
    /// Fields other than the parameter count agree.
    pub open spec fn agrees_but_count(a: GxState, b: GxState) -> bool {
        &&& a.params == b.params
        &&& a.cmds == b.cmds
        &&& a.front == b.front
        &&& a.packed == b.packed
        &&& a.remaining == b.remaining
        &&& a.size == b.size
        &&& a.tests == b.tests
    }

    /// A word written to the register port of command `CMD`, which bypasses the
    /// packed-command decoding. When it starts a command with several
    /// parameters, the recorded parameter count is left as it was.
    pub fn unpacked_cmd<const CMD: u8>(&mut self, value: u32)
        requires
            old(self).wf(),
            old(self).view().remaining <= gx_param_count(CMD),
            old(self).view().cmds.len() < FIFO_SIZE,
            old(self).view().size < isize::MAX,
        ensures
            final(self).wf(),
            Self::agrees_but_count(final(self).view(), feed_unpacked(old(self).view(), CMD, value)),
            old(self).view().remaining > 0 || gx_param_count(CMD) <= 1 ==> final(self).view()
                == feed_unpacked(old(self).view(), CMD, value),
    {
        let pc = param_count(CMD);
        let pos = self.exe_fifo.pos_end();
        proof {
            assert(pos * MAX_PARAM_COUNT + MAX_PARAM_COUNT <= FIFO_SIZE * MAX_PARAM_COUNT) by (nonlinear_arith)
                requires
                    pos < FIFO_SIZE,
            ;
        }
        if self.param_remaining == 0 {
            self.fifo_size = self.fifo_size + 1;
            if pc > 0 {
                self.params.set(pos * MAX_PARAM_COUNT, value);
            }
            if pc <= 1 {
                self.push_cmd(CMD);
            } else {
                self.param_remaining = pc - 1;
            }
        } else {
            let params_written = pc - self.param_remaining;
            self.params.set(pos * MAX_PARAM_COUNT + params_written as usize, value);
            self.param_remaining = self.param_remaining - 1;
            self.fifo_size = self.fifo_size + 1;
            if self.param_remaining == 0 {
                self.push_cmd(CMD);
            }
        }
    }

    /// FIFO size in words.
    pub closed spec fn size(&self) -> int {
        self.fifo_size as int
    }

    pub fn is_fifo_full(&self) -> (r: bool)
        ensures
            r == (self.view().size >= 260),
    {
        self.fifo_size >= 260
    }

    pub fn is_fifo_half_full(&self) -> (r: bool)
        ensures
            r == (self.view().size >= 132),
    {
        self.fifo_size >= 132
    }

    pub fn is_fifo_empty(&self) -> (r: bool)
        ensures
            r == (self.view().size <= 4),
    {
        self.fifo_size <= 4
    }

    /// Words waiting in the FIFO proper, not counting the four-word pipe.
    pub fn get_fifo_len(&self) -> (r: usize)
        requires
            self.wf(),
        ensures
            r == if self.view().size > 4 { self.view().size - 4 } else { 0 },
    {
        let s = self.fifo_size as isize - 4;
        if s > 0 {
            s as usize
        } else {
            0
        }
    }

    /// Takes the front command out for execution, with its parameter row, and
    /// takes its words (and its test) off the counts.
    pub fn pop_cmd(&mut self) -> (r: GxQueuedCmd)
        requires
            old(self).wf(),
            old(self).view().cmds.len() > 0,
            old(self).view().size >= gx_weight(old(self).view().cmds[0]),
            gx_is_test(old(self).view().cmds[0]) ==> old(self).view().tests >= 1,
        ensures
            final(self).wf(),
            r.cmd == old(self).view().cmds[0],
            r.params@ == old(self).view().params.subrange(
                old(self).view().front * (MAX_PARAM_COUNT as int),
                old(self).view().front * (MAX_PARAM_COUNT as int) + MAX_PARAM_COUNT as int,
            ),
            final(self).view() == (GxState {
                cmds: old(self).view().cmds.drop_first(),
                front: (old(self).view().front + 1) % (FIFO_SIZE as int),
                size: old(self).view().size - gx_weight(r.cmd),
                tests: old(self).view().tests - if gx_is_test(r.cmd) { 1int } else { 0int },
                ..old(self).view()
            }),
    {
        let pos = self.exe_fifo.pos_front();
        let cmd = self.exe_fifo.front();
        self.exe_fifo.pop_front();
        proof {
            assert(pos * MAX_PARAM_COUNT + MAX_PARAM_COUNT <= FIFO_SIZE * MAX_PARAM_COUNT) by (nonlinear_arith)
                requires
                    pos < FIFO_SIZE,
            ;
        }
        let start = pos * MAX_PARAM_COUNT;
        let params = slice_to_vec(slice_subrange(self.params.as_slice(), start, start + MAX_PARAM_COUNT));
        let pc = param_count(cmd);
        if pc == 0 {
            self.fifo_size = self.fifo_size - 1;
        } else {
            self.fifo_size = self.fifo_size - pc as usize;
        }
        if is_test(cmd) {
            self.test_queue = self.test_queue - 1;
        }
        GxQueuedCmd { cmd, params }
    }
}

/// Whether a popped command runs: a skipped frame leaves out the commands that
/// may be skipped.
pub fn should_execute(cmd: u8, skip: bool) -> (r: bool)
    ensures
        r == (!gx_can_frameskip(cmd) || !skip),
{
    !can_frameskip(cmd) || !skip
}

/// Whether execution goes on with the next queued command: not after
/// SWAP_BUFFERS, and only while more than 4 cycles are left and a command waits.
pub fn continues_after(cmd: u8, cycles: u32, queue_empty: bool) -> (r: bool)
    ensures
        r == ((!gx_is_known(cmd) || cmd != 0x50) && cycles > 4 && !queue_empty),
{
    (!is_known(cmd) || cmd != 0x50) && cycles > 4 && !queue_empty
}

} // verus!

verus! {

/// Words the queued commands account for.
pub open spec fn queued_weight(cmds: Seq<u8>) -> int
    decreases cmds.len(),
{
    if cmds.len() == 0 {
        0
    } else {
        gx_weight(cmds[0]) + queued_weight(cmds.drop_first())
    }
}

/// Test commands among the queued commands.
pub open spec fn queued_tests(cmds: Seq<u8>) -> int
    decreases cmds.len(),
{
    if cmds.len() == 0 {
        0
    } else {
        (if gx_is_test(cmds[0]) { 1int } else { 0int }) + queued_tests(cmds.drop_first())
    }
}

/// The counts agree with the queue: the FIFO size is the words of the queued
/// commands plus the parameters collected so far, and the test count is the
/// queued test commands plus the one being collected.
pub open spec fn accounted(st: GxState) -> bool {
    &&& st.remaining <= st.count
    &&& st.remaining == 0 ==> st.count == 0
    &&& st.remaining > 0 ==> st.count == gx_param_count((st.packed % 128) as u8)
    &&& st.size == queued_weight(st.cmds) + (st.count - st.remaining)
    &&& st.tests == queued_tests(st.cmds) + if st.remaining > 0 && gx_is_test((st.packed % 128) as u8) {
        1int
    } else {
        0int
    }
}

proof fn lemma_queued_push(cmds: Seq<u8>, c: u8)
    ensures
        queued_weight(cmds.push(c)) == queued_weight(cmds) + gx_weight(c),
        queued_tests(cmds.push(c)) == queued_tests(cmds) + if gx_is_test(c) { 1int } else { 0int },
    decreases cmds.len(),
{
    if cmds.len() > 0 {
        assert(cmds.push(c).drop_first() =~= cmds.drop_first().push(c));
        lemma_queued_push(cmds.drop_first(), c);
        assert(cmds.push(c)[0] == cmds[0]);
        assert(queued_weight(cmds.push(c)) == gx_weight(cmds[0]) + queued_weight(cmds.drop_first().push(c)));
        assert(queued_tests(cmds.push(c)) == (if gx_is_test(cmds[0]) { 1int } else { 0int }) + queued_tests(cmds.drop_first().push(c)));
    } else {
        assert(cmds.push(c).drop_first() =~= Seq::<u8>::empty());
        assert(cmds.push(c)[0] == c);
        assert(queued_weight(cmds.push(c)) == gx_weight(c) + queued_weight(Seq::<u8>::empty()));
        assert(queued_tests(cmds.push(c)) == (if gx_is_test(c) { 1int } else { 0int }) + queued_tests(Seq::<u8>::empty()));
    }
}

proof fn lemma_accounted_begin(st: GxState)
    requires
        accounted(st),
        st.remaining == 0,
    ensures
        accounted(begin(st)),
        accounted(shift_next(st)),
    decreases st.packed,
{
    let cmd = (st.packed % 128) as u8;
    lemma_queued_push(st.cmds, cmd);
    let p = (st.packed / 256) as u32;
    if p != 0 {
        lemma_accounted_begin(GxState { packed: p, ..st });
    }
    if gx_is_known(cmd) && gx_param_count(cmd) == 0 {
        let pushed = GxState {
            cmds: st.cmds.push(cmd),
            size: st.size + 1,
            tests: st.tests + if gx_is_test(cmd) { 1int } else { 0int },
            ..st
        };
        if p != 0 {
            lemma_accounted_begin(GxState { packed: p, ..pushed });
        }
    }
}

/// Every word written keeps the counts in agreement with the queue.
pub proof fn law_feed_word_accounted(st: GxState, w: u32)
    requires
        accounted(st),
    ensures
        accounted(feed_word(st, w)),
{
    if st.remaining == 0 {
        lemma_accounted_begin(GxState { packed: w, ..st });
    } else {
        let st1 = store_param(st, w);
        if st1.remaining == 0 {
            let c = (st1.packed % 128) as u8;
            lemma_queued_push(st1.cmds, c);
            lemma_accounted_begin(GxState { cmds: st1.cmds.push(c), ..st1 });
        }
    }
}

/// Any sequence of words keeps the counts in agreement with the queue.
pub proof fn law_feed_accounted(st: GxState, ws: Seq<u32>)
    requires
        accounted(st),
    ensures
        accounted(feed(st, ws)),
    decreases ws.len(),
{
    if ws.len() > 0 {
        law_feed_word_accounted(st, ws[0]);
        law_feed_accounted(feed_word(st, ws[0]), ws.drop_first());
    }
}

/// Taking the front command out for execution keeps the counts in agreement,
/// and the counts always cover the front command.
pub proof fn law_pop_accounted(st: GxState)
    requires
        accounted(st),
        st.cmds.len() > 0,
    ensures
        st.size >= gx_weight(st.cmds[0]),
        gx_is_test(st.cmds[0]) ==> st.tests >= 1,
        accounted(GxState {
            cmds: st.cmds.drop_first(),
            size: st.size - gx_weight(st.cmds[0]),
            tests: st.tests - if gx_is_test(st.cmds[0]) { 1int } else { 0int },
            ..st
        }),
{
    lemma_queued_nonneg(st.cmds.drop_first());
}

proof fn lemma_queued_nonneg(cmds: Seq<u8>)
    ensures
        queued_weight(cmds) >= 0,
        queued_tests(cmds) >= 0,
    decreases cmds.len(),
{
    if cmds.len() > 0 {
        lemma_queued_nonneg(cmds.drop_first());
    }
}

/// Splitting a transfer in two changes nothing: writing `a` and then `b` leaves
/// the FIFO as writing `a + b` does.
pub proof fn law_feed_split(st: GxState, a: Seq<u32>, b: Seq<u32>)
    ensures
        feed(st, a + b) == feed(feed(st, a), b),
    decreases a.len(),
{
    if a.len() > 0 {
        assert((a + b).drop_first() =~= a.drop_first() + b);
        law_feed_split(feed_word(st, a[0]), a.drop_first(), b);
    } else {
        assert(a + b =~= b);
    }
}

/// The geometry command table of the hardware, entry by entry: the
/// parameter words each command takes (MTX_MODE 1, MTX_PUSH none, MTX_LOAD_4x4
/// 16, MTX_LOAD_4x3 12, MTX_MULT_3x3 9, MTX_SCALE and MTX_TRANS 3, VTX_16 2,
/// SHININESS 32, BOX_TEST 3, POS_TEST 2, VEC_TEST 1, ...), which numbers it
/// knows, which are tests and which a skipped frame may leave out.
pub proof fn law_gx_command_table()
    ensures
        gx_param_count(0x00) == 0 && gx_is_known(0x00) == false && gx_is_test(0x00) == false && gx_can_frameskip(0x00) == true,
        gx_param_count(0x01) == 0 && gx_is_known(0x01) == false && gx_is_test(0x01) == false && gx_can_frameskip(0x01) == true,
        gx_param_count(0x02) == 0 && gx_is_known(0x02) == false && gx_is_test(0x02) == false && gx_can_frameskip(0x02) == true,
        gx_param_count(0x03) == 0 && gx_is_known(0x03) == false && gx_is_test(0x03) == false && gx_can_frameskip(0x03) == true,
        gx_param_count(0x04) == 0 && gx_is_known(0x04) == false && gx_is_test(0x04) == false && gx_can_frameskip(0x04) == true,
        gx_param_count(0x05) == 0 && gx_is_known(0x05) == false && gx_is_test(0x05) == false && gx_can_frameskip(0x05) == true,
        gx_param_count(0x06) == 0 && gx_is_known(0x06) == false && gx_is_test(0x06) == false && gx_can_frameskip(0x06) == true,
        gx_param_count(0x07) == 0 && gx_is_known(0x07) == false && gx_is_test(0x07) == false && gx_can_frameskip(0x07) == true,
        gx_param_count(0x08) == 0 && gx_is_known(0x08) == false && gx_is_test(0x08) == false && gx_can_frameskip(0x08) == true,
        gx_param_count(0x09) == 0 && gx_is_known(0x09) == false && gx_is_test(0x09) == false && gx_can_frameskip(0x09) == true,
        gx_param_count(0x0A) == 0 && gx_is_known(0x0A) == false && gx_is_test(0x0A) == false && gx_can_frameskip(0x0A) == true,
        gx_param_count(0x0B) == 0 && gx_is_known(0x0B) == false && gx_is_test(0x0B) == false && gx_can_frameskip(0x0B) == true,
        gx_param_count(0x0C) == 0 && gx_is_known(0x0C) == false && gx_is_test(0x0C) == false && gx_can_frameskip(0x0C) == true,
        gx_param_count(0x0D) == 0 && gx_is_known(0x0D) == false && gx_is_test(0x0D) == false && gx_can_frameskip(0x0D) == true,
        gx_param_count(0x0E) == 0 && gx_is_known(0x0E) == false && gx_is_test(0x0E) == false && gx_can_frameskip(0x0E) == true,
        gx_param_count(0x0F) == 0 && gx_is_known(0x0F) == false && gx_is_test(0x0F) == false && gx_can_frameskip(0x0F) == true,
        gx_param_count(0x10) == 1 && gx_is_known(0x10) == true && gx_is_test(0x10) == false && gx_can_frameskip(0x10) == false,
        gx_param_count(0x11) == 0 && gx_is_known(0x11) == true && gx_is_test(0x11) == false && gx_can_frameskip(0x11) == false,
        gx_param_count(0x12) == 1 && gx_is_known(0x12) == true && gx_is_test(0x12) == false && gx_can_frameskip(0x12) == false,
        gx_param_count(0x13) == 1 && gx_is_known(0x13) == true && gx_is_test(0x13) == false && gx_can_frameskip(0x13) == false,
        gx_param_count(0x14) == 1 && gx_is_known(0x14) == true && gx_is_test(0x14) == false && gx_can_frameskip(0x14) == false,
        gx_param_count(0x15) == 0 && gx_is_known(0x15) == true && gx_is_test(0x15) == false && gx_can_frameskip(0x15) == false,
        gx_param_count(0x16) == 16 && gx_is_known(0x16) == true && gx_is_test(0x16) == false && gx_can_frameskip(0x16) == false,
        gx_param_count(0x17) == 12 && gx_is_known(0x17) == true && gx_is_test(0x17) == false && gx_can_frameskip(0x17) == false,
        gx_param_count(0x18) == 16 && gx_is_known(0x18) == true && gx_is_test(0x18) == false && gx_can_frameskip(0x18) == false,
        gx_param_count(0x19) == 12 && gx_is_known(0x19) == true && gx_is_test(0x19) == false && gx_can_frameskip(0x19) == false,
        gx_param_count(0x1A) == 9 && gx_is_known(0x1A) == true && gx_is_test(0x1A) == false && gx_can_frameskip(0x1A) == false,
        gx_param_count(0x1B) == 3 && gx_is_known(0x1B) == true && gx_is_test(0x1B) == false && gx_can_frameskip(0x1B) == false,
        gx_param_count(0x1C) == 3 && gx_is_known(0x1C) == true && gx_is_test(0x1C) == false && gx_can_frameskip(0x1C) == false,
        gx_param_count(0x1D) == 0 && gx_is_known(0x1D) == false && gx_is_test(0x1D) == false && gx_can_frameskip(0x1D) == true,
        gx_param_count(0x1E) == 0 && gx_is_known(0x1E) == false && gx_is_test(0x1E) == false && gx_can_frameskip(0x1E) == true,
        gx_param_count(0x1F) == 0 && gx_is_known(0x1F) == false && gx_is_test(0x1F) == false && gx_can_frameskip(0x1F) == true,
        gx_param_count(0x20) == 1 && gx_is_known(0x20) == true && gx_is_test(0x20) == false && gx_can_frameskip(0x20) == false,
        gx_param_count(0x21) == 1 && gx_is_known(0x21) == true && gx_is_test(0x21) == false && gx_can_frameskip(0x21) == true,
        gx_param_count(0x22) == 1 && gx_is_known(0x22) == true && gx_is_test(0x22) == false && gx_can_frameskip(0x22) == true,
        gx_param_count(0x23) == 2 && gx_is_known(0x23) == true && gx_is_test(0x23) == false && gx_can_frameskip(0x23) == true,
        gx_param_count(0x24) == 1 && gx_is_known(0x24) == true && gx_is_test(0x24) == false && gx_can_frameskip(0x24) == true,
        gx_param_count(0x25) == 1 && gx_is_known(0x25) == true && gx_is_test(0x25) == false && gx_can_frameskip(0x25) == true,
        gx_param_count(0x26) == 1 && gx_is_known(0x26) == true && gx_is_test(0x26) == false && gx_can_frameskip(0x26) == true,
        gx_param_count(0x27) == 1 && gx_is_known(0x27) == true && gx_is_test(0x27) == false && gx_can_frameskip(0x27) == true,
        gx_param_count(0x28) == 1 && gx_is_known(0x28) == true && gx_is_test(0x28) == false && gx_can_frameskip(0x28) == true,
        gx_param_count(0x29) == 1 && gx_is_known(0x29) == true && gx_is_test(0x29) == false && gx_can_frameskip(0x29) == false,
        gx_param_count(0x2A) == 1 && gx_is_known(0x2A) == true && gx_is_test(0x2A) == false && gx_can_frameskip(0x2A) == false,
        gx_param_count(0x2B) == 1 && gx_is_known(0x2B) == true && gx_is_test(0x2B) == false && gx_can_frameskip(0x2B) == false,
        gx_param_count(0x2C) == 0 && gx_is_known(0x2C) == false && gx_is_test(0x2C) == false && gx_can_frameskip(0x2C) == true,
        gx_param_count(0x2D) == 0 && gx_is_known(0x2D) == false && gx_is_test(0x2D) == false && gx_can_frameskip(0x2D) == true,
        gx_param_count(0x2E) == 0 && gx_is_known(0x2E) == false && gx_is_test(0x2E) == false && gx_can_frameskip(0x2E) == true,
        gx_param_count(0x2F) == 0 && gx_is_known(0x2F) == false && gx_is_test(0x2F) == false && gx_can_frameskip(0x2F) == true,
        gx_param_count(0x30) == 1 && gx_is_known(0x30) == true && gx_is_test(0x30) == false && gx_can_frameskip(0x30) == false,
        gx_param_count(0x31) == 1 && gx_is_known(0x31) == true && gx_is_test(0x31) == false && gx_can_frameskip(0x31) == false,
        gx_param_count(0x32) == 1 && gx_is_known(0x32) == true && gx_is_test(0x32) == false && gx_can_frameskip(0x32) == false,
        gx_param_count(0x33) == 1 && gx_is_known(0x33) == true && gx_is_test(0x33) == false && gx_can_frameskip(0x33) == false,
        gx_param_count(0x34) == 32 && gx_is_known(0x34) == true && gx_is_test(0x34) == false && gx_can_frameskip(0x34) == false,
        gx_param_count(0x35) == 0 && gx_is_known(0x35) == false && gx_is_test(0x35) == false && gx_can_frameskip(0x35) == true,
        gx_param_count(0x36) == 0 && gx_is_known(0x36) == false && gx_is_test(0x36) == false && gx_can_frameskip(0x36) == true,
        gx_param_count(0x37) == 0 && gx_is_known(0x37) == false && gx_is_test(0x37) == false && gx_can_frameskip(0x37) == true,
        gx_param_count(0x38) == 0 && gx_is_known(0x38) == false && gx_is_test(0x38) == false && gx_can_frameskip(0x38) == true,
        gx_param_count(0x39) == 0 && gx_is_known(0x39) == false && gx_is_test(0x39) == false && gx_can_frameskip(0x39) == true,
        gx_param_count(0x3A) == 0 && gx_is_known(0x3A) == false && gx_is_test(0x3A) == false && gx_can_frameskip(0x3A) == true,
        gx_param_count(0x3B) == 0 && gx_is_known(0x3B) == false && gx_is_test(0x3B) == false && gx_can_frameskip(0x3B) == true,
        gx_param_count(0x3C) == 0 && gx_is_known(0x3C) == false && gx_is_test(0x3C) == false && gx_can_frameskip(0x3C) == true,
        gx_param_count(0x3D) == 0 && gx_is_known(0x3D) == false && gx_is_test(0x3D) == false && gx_can_frameskip(0x3D) == true,
        gx_param_count(0x3E) == 0 && gx_is_known(0x3E) == false && gx_is_test(0x3E) == false && gx_can_frameskip(0x3E) == true,
        gx_param_count(0x3F) == 0 && gx_is_known(0x3F) == false && gx_is_test(0x3F) == false && gx_can_frameskip(0x3F) == true,
        gx_param_count(0x40) == 1 && gx_is_known(0x40) == true && gx_is_test(0x40) == false && gx_can_frameskip(0x40) == true,
        gx_param_count(0x41) == 0 && gx_is_known(0x41) == true && gx_is_test(0x41) == false && gx_can_frameskip(0x41) == false,
        gx_param_count(0x42) == 0 && gx_is_known(0x42) == false && gx_is_test(0x42) == false && gx_can_frameskip(0x42) == true,
        gx_param_count(0x43) == 0 && gx_is_known(0x43) == false && gx_is_test(0x43) == false && gx_can_frameskip(0x43) == true,
        gx_param_count(0x44) == 0 && gx_is_known(0x44) == false && gx_is_test(0x44) == false && gx_can_frameskip(0x44) == true,
        gx_param_count(0x45) == 0 && gx_is_known(0x45) == false && gx_is_test(0x45) == false && gx_can_frameskip(0x45) == true,
        gx_param_count(0x46) == 0 && gx_is_known(0x46) == false && gx_is_test(0x46) == false && gx_can_frameskip(0x46) == true,
        gx_param_count(0x47) == 0 && gx_is_known(0x47) == false && gx_is_test(0x47) == false && gx_can_frameskip(0x47) == true,
        gx_param_count(0x48) == 0 && gx_is_known(0x48) == false && gx_is_test(0x48) == false && gx_can_frameskip(0x48) == true,
        gx_param_count(0x49) == 0 && gx_is_known(0x49) == false && gx_is_test(0x49) == false && gx_can_frameskip(0x49) == true,
        gx_param_count(0x4A) == 0 && gx_is_known(0x4A) == false && gx_is_test(0x4A) == false && gx_can_frameskip(0x4A) == true,
        gx_param_count(0x4B) == 0 && gx_is_known(0x4B) == false && gx_is_test(0x4B) == false && gx_can_frameskip(0x4B) == true,
        gx_param_count(0x4C) == 0 && gx_is_known(0x4C) == false && gx_is_test(0x4C) == false && gx_can_frameskip(0x4C) == true,
        gx_param_count(0x4D) == 0 && gx_is_known(0x4D) == false && gx_is_test(0x4D) == false && gx_can_frameskip(0x4D) == true,
        gx_param_count(0x4E) == 0 && gx_is_known(0x4E) == false && gx_is_test(0x4E) == false && gx_can_frameskip(0x4E) == true,
        gx_param_count(0x4F) == 0 && gx_is_known(0x4F) == false && gx_is_test(0x4F) == false && gx_can_frameskip(0x4F) == true,
        gx_param_count(0x50) == 1 && gx_is_known(0x50) == true && gx_is_test(0x50) == false && gx_can_frameskip(0x50) == false,
        gx_param_count(0x51) == 0 && gx_is_known(0x51) == false && gx_is_test(0x51) == false && gx_can_frameskip(0x51) == true,
        gx_param_count(0x52) == 0 && gx_is_known(0x52) == false && gx_is_test(0x52) == false && gx_can_frameskip(0x52) == true,
        gx_param_count(0x53) == 0 && gx_is_known(0x53) == false && gx_is_test(0x53) == false && gx_can_frameskip(0x53) == true,
        gx_param_count(0x54) == 0 && gx_is_known(0x54) == false && gx_is_test(0x54) == false && gx_can_frameskip(0x54) == true,
        gx_param_count(0x55) == 0 && gx_is_known(0x55) == false && gx_is_test(0x55) == false && gx_can_frameskip(0x55) == true,
        gx_param_count(0x56) == 0 && gx_is_known(0x56) == false && gx_is_test(0x56) == false && gx_can_frameskip(0x56) == true,
        gx_param_count(0x57) == 0 && gx_is_known(0x57) == false && gx_is_test(0x57) == false && gx_can_frameskip(0x57) == true,
        gx_param_count(0x58) == 0 && gx_is_known(0x58) == false && gx_is_test(0x58) == false && gx_can_frameskip(0x58) == true,
        gx_param_count(0x59) == 0 && gx_is_known(0x59) == false && gx_is_test(0x59) == false && gx_can_frameskip(0x59) == true,
        gx_param_count(0x5A) == 0 && gx_is_known(0x5A) == false && gx_is_test(0x5A) == false && gx_can_frameskip(0x5A) == true,
        gx_param_count(0x5B) == 0 && gx_is_known(0x5B) == false && gx_is_test(0x5B) == false && gx_can_frameskip(0x5B) == true,
        gx_param_count(0x5C) == 0 && gx_is_known(0x5C) == false && gx_is_test(0x5C) == false && gx_can_frameskip(0x5C) == true,
        gx_param_count(0x5D) == 0 && gx_is_known(0x5D) == false && gx_is_test(0x5D) == false && gx_can_frameskip(0x5D) == true,
        gx_param_count(0x5E) == 0 && gx_is_known(0x5E) == false && gx_is_test(0x5E) == false && gx_can_frameskip(0x5E) == true,
        gx_param_count(0x5F) == 0 && gx_is_known(0x5F) == false && gx_is_test(0x5F) == false && gx_can_frameskip(0x5F) == true,
        gx_param_count(0x60) == 1 && gx_is_known(0x60) == true && gx_is_test(0x60) == false && gx_can_frameskip(0x60) == false,
        gx_param_count(0x61) == 0 && gx_is_known(0x61) == false && gx_is_test(0x61) == false && gx_can_frameskip(0x61) == true,
        gx_param_count(0x62) == 0 && gx_is_known(0x62) == false && gx_is_test(0x62) == false && gx_can_frameskip(0x62) == true,
        gx_param_count(0x63) == 0 && gx_is_known(0x63) == false && gx_is_test(0x63) == false && gx_can_frameskip(0x63) == true,
        gx_param_count(0x64) == 0 && gx_is_known(0x64) == false && gx_is_test(0x64) == false && gx_can_frameskip(0x64) == true,
        gx_param_count(0x65) == 0 && gx_is_known(0x65) == false && gx_is_test(0x65) == false && gx_can_frameskip(0x65) == true,
        gx_param_count(0x66) == 0 && gx_is_known(0x66) == false && gx_is_test(0x66) == false && gx_can_frameskip(0x66) == true,
        gx_param_count(0x67) == 0 && gx_is_known(0x67) == false && gx_is_test(0x67) == false && gx_can_frameskip(0x67) == true,
        gx_param_count(0x68) == 0 && gx_is_known(0x68) == false && gx_is_test(0x68) == false && gx_can_frameskip(0x68) == true,
        gx_param_count(0x69) == 0 && gx_is_known(0x69) == false && gx_is_test(0x69) == false && gx_can_frameskip(0x69) == true,
        gx_param_count(0x6A) == 0 && gx_is_known(0x6A) == false && gx_is_test(0x6A) == false && gx_can_frameskip(0x6A) == true,
        gx_param_count(0x6B) == 0 && gx_is_known(0x6B) == false && gx_is_test(0x6B) == false && gx_can_frameskip(0x6B) == true,
        gx_param_count(0x6C) == 0 && gx_is_known(0x6C) == false && gx_is_test(0x6C) == false && gx_can_frameskip(0x6C) == true,
        gx_param_count(0x6D) == 0 && gx_is_known(0x6D) == false && gx_is_test(0x6D) == false && gx_can_frameskip(0x6D) == true,
        gx_param_count(0x6E) == 0 && gx_is_known(0x6E) == false && gx_is_test(0x6E) == false && gx_can_frameskip(0x6E) == true,
        gx_param_count(0x6F) == 0 && gx_is_known(0x6F) == false && gx_is_test(0x6F) == false && gx_can_frameskip(0x6F) == true,
        gx_param_count(0x70) == 3 && gx_is_known(0x70) == true && gx_is_test(0x70) == true && gx_can_frameskip(0x70) == false,
        gx_param_count(0x71) == 2 && gx_is_known(0x71) == true && gx_is_test(0x71) == true && gx_can_frameskip(0x71) == false,
        gx_param_count(0x72) == 1 && gx_is_known(0x72) == true && gx_is_test(0x72) == true && gx_can_frameskip(0x72) == false,
        gx_param_count(0x73) == 0 && gx_is_known(0x73) == false && gx_is_test(0x73) == false && gx_can_frameskip(0x73) == true,
        gx_param_count(0x74) == 0 && gx_is_known(0x74) == false && gx_is_test(0x74) == false && gx_can_frameskip(0x74) == true,
        gx_param_count(0x75) == 0 && gx_is_known(0x75) == false && gx_is_test(0x75) == false && gx_can_frameskip(0x75) == true,
        gx_param_count(0x76) == 0 && gx_is_known(0x76) == false && gx_is_test(0x76) == false && gx_can_frameskip(0x76) == true,
        gx_param_count(0x77) == 0 && gx_is_known(0x77) == false && gx_is_test(0x77) == false && gx_can_frameskip(0x77) == true,
        gx_param_count(0x78) == 0 && gx_is_known(0x78) == false && gx_is_test(0x78) == false && gx_can_frameskip(0x78) == true,
        gx_param_count(0x79) == 0 && gx_is_known(0x79) == false && gx_is_test(0x79) == false && gx_can_frameskip(0x79) == true,
        gx_param_count(0x7A) == 0 && gx_is_known(0x7A) == false && gx_is_test(0x7A) == false && gx_can_frameskip(0x7A) == true,
        gx_param_count(0x7B) == 0 && gx_is_known(0x7B) == false && gx_is_test(0x7B) == false && gx_can_frameskip(0x7B) == true,
        gx_param_count(0x7C) == 0 && gx_is_known(0x7C) == false && gx_is_test(0x7C) == false && gx_can_frameskip(0x7C) == true,
        gx_param_count(0x7D) == 0 && gx_is_known(0x7D) == false && gx_is_test(0x7D) == false && gx_can_frameskip(0x7D) == true,
        gx_param_count(0x7E) == 0 && gx_is_known(0x7E) == false && gx_is_test(0x7E) == false && gx_can_frameskip(0x7E) == true,
        gx_param_count(0x7F) == 0 && gx_is_known(0x7F) == false && gx_is_test(0x7F) == false && gx_can_frameskip(0x7F) == true,
{
}

} // verus!
