use vstd::prelude::*;

verus! {

/// An I/O register of a memory-mapped block: its byte offset and its width
/// in bytes (1, 2 or 4).
#[derive(Clone, Copy, Debug, PartialEq, Eq, Structural)]
pub struct IoEntry {
    pub offset: usize,
    pub size: usize,
}

impl IoEntry {
    /// The offset just past the register.
    pub fn offset_end(&self) -> (r: usize)
        requires
            self.offset + self.size <= usize::MAX,
        ensures
            r == self.offset + self.size,
    {
        self.offset + self.size
    }
}

/// The registers in increasing offset, none overlapping the next, each one to
/// four bytes wide, all below 2^24.
pub open spec fn entries_ok(es: Seq<IoEntry>) -> bool {
    &&& forall|i: int| 0 <= i < es.len() ==> 1 <= #[trigger] es[i].size <= 4 && es[i].offset < 0x100_0000
    &&& forall|i: int, j: int| 0 <= i < j < es.len() ==> #[trigger] es[i].offset + es[i].size <= #[trigger] es[j].offset
}

/// Whether register `e` is reached by an access of `align` bytes at `addr`:
/// it starts inside the access, or the access starts inside it.
pub open spec fn in_slot(e: IoEntry, addr: int, align: int) -> bool {
    (addr <= e.offset < addr + align) || (e.offset <= addr < e.offset + e.size)
}

/// The registers from number `i` on that an access of `align` bytes at
/// `addr` reaches, by number in increasing order.
pub open spec fn slot_from(es: Seq<IoEntry>, addr: int, align: int, i: int) -> Seq<usize>
    decreases es.len() - i,
{
    if i < 0 || i >= es.len() {
        Seq::empty()
    } else if in_slot(es[i], addr, align) {
        seq![i as usize] + slot_from(es, addr, align, i + 1)
    } else {
        slot_from(es, addr, align, i + 1)
    }
}

/// The first address of the table: the first register's offset rounded
/// down to the access width.
pub open spec fn table_start(es: Seq<IoEntry>, align: int) -> int {
    es[0].offset as int - (es[0].offset as int) % align
}

/// The number of accesses of `align` bytes the table has: up to the last
/// register's end rounded up.
pub open spec fn table_slots(es: Seq<IoEntry>, align: int) -> int {
    let end = es.last().offset as int + es.last().size as int;
    let hi = end + (align - 1) - (end + (align - 1)) % align;
    (hi - table_start(es, align)) / align
}

/// One access of the table: its address and the registers it reaches.
pub struct LutEntry {
    pub offset: usize,
    pub entries: Vec<usize>,
}

/// No register lies past one that does not reach the access and starts at
/// or after its end.
proof fn lemma_slot_rest_empty(es: Seq<IoEntry>, addr: int, align: int, i: int)
    requires
        entries_ok(es),
        0 <= i,
        i < es.len() ==> addr + align <= es[i].offset,
        align >= 1,
    ensures
        slot_from(es, addr, align, i) == Seq::<usize>::empty(),
    decreases es.len() - i,
{
    if i < es.len() {
        if i + 1 < es.len() {
            assert(es[i].offset + es[i].size <= es[i + 1].offset);
        }
        lemma_slot_rest_empty(es, addr, align, i + 1);
    }
}

/// Registers before number `from` that end by `addr` add nothing.
proof fn lemma_slot_skip(es: Seq<IoEntry>, addr: int, align: int, i: int, from: int)
    requires
        entries_ok(es),
        0 <= i <= from <= es.len(),
        forall|j: int| 0 <= j < from ==> #[trigger] es[j].offset + es[j].size <= addr,
    ensures
        slot_from(es, addr, align, i) == slot_from(es, addr, align, from),
    decreases from - i,
{
    if i < from {
        lemma_slot_skip(es, addr, align, i + 1, from);
    }
}

/// Groups the registers by the aligned accesses of `align` bytes that reach
/// them, over the whole span of the table.
pub fn assemble_lut_entries(entries: &[IoEntry], align: usize) -> (r: Vec<LutEntry>)
    requires
        entries@.len() > 0,
        align == 1 || align == 2 || align == 4,
        entries_ok(entries@),
        forall|k: int|
            0 <= k < table_slots(entries@, align as int) ==> (#[trigger] slot_from(
                entries@,
                table_start(entries@, align as int) + k * align,
                align as int,
                0,
            )).len() <= align,
    ensures
        r@.len() == table_slots(entries@, align as int),
        forall|k: int|
            0 <= k < r@.len() ==> (#[trigger] r@[k]).offset == table_start(entries@, align as int) + k * align
                && r@[k].entries@ == slot_from(entries@, r@[k].offset as int, align as int, 0),
{
    let ghost es = entries@;
    let ghost a = align as int;
    let n = entries.len();
    proof {
        assert(es.last() == es[n - 1]);
    }
    let min_addr = entries[0].offset;
    let max_addr = entries[n - 1].offset_end();
    let align_min_addr = min_addr - min_addr % align;
    let align_max_addr = (max_addr + (align - 1)) - (max_addr + (align - 1)) % align;
    proof {
        if n > 1 {
            assert(es[0].offset + es[0].size <= es[n - 1].offset);
        }
        assert(align_min_addr <= min_addr);
        assert(align_min_addr % align == 0) by (nonlinear_arith)
            requires
                align_min_addr == min_addr - (min_addr as int) % (align as int),
                align > 0,
        ;
        assert(align_max_addr % align == 0) by (nonlinear_arith)
            requires
                align_max_addr == (max_addr + (align - 1)) - ((max_addr + (align - 1)) as int) % (align as int),
                align > 0,
        ;
        assert(align_max_addr >= max_addr);
    }
    let mut lut_entries: Vec<LutEntry> = Vec::new();
    let mut entry_index: usize = 0;
    let mut addr = align_min_addr;
    let ghost mut k: int = 0;
    while addr < align_max_addr
        invariant
            es == entries@,
            a == align as int,
            n == es.len(),
            n > 0,
            align == 1 || align == 2 || align == 4,
            entries_ok(es),
            align_min_addr == table_start(es, a),
            align_max_addr == table_start(es, a) + table_slots(es, a) * a,
            align_max_addr < 0x200_0000,
            addr == align_min_addr + k * align,
            addr <= align_max_addr,
            0 <= k,
            lut_entries@.len() == k,
            entry_index < n,
            forall|j: int| 0 <= j < entry_index ==> #[trigger] es[j].offset + es[j].size <= addr,
            forall|kk: int|
                0 <= kk < lut_entries@.len() ==> (#[trigger] lut_entries@[kk]).offset == table_start(es, a) + kk * align
                    && lut_entries@[kk].entries@ == slot_from(es, lut_entries@[kk].offset as int, a, 0),
        decreases align_max_addr - addr,
    {
        let addr_end = addr + align;
        let mut within: Vec<usize> = Vec::new();
        let start = entry_index;
        let mut i = entry_index;
        let ghost mut ei: int = entry_index as int;
        proof {
            lemma_slot_skip(es, addr as int, a, 0, start as int);
        }
        while i < n
            invariant_except_break
                start <= i <= n,
                within@ + slot_from(es, addr as int, a, i as int) == slot_from(es, addr as int, a, start as int),
                start <= entry_index <= i || (entry_index == start),
                entry_index < n,
            invariant
                es == entries@,
                n == es.len(),
                a == align as int,
                addr_end == addr + align,
                align == 1 || align == 2 || align == 4,
                entries_ok(es),
                addr < 0x200_0000,
                entry_index < n,
                start <= entry_index,
                entry_index == start || in_slot(es[entry_index as int], addr as int, a),
            ensures
                within@ == slot_from(es, addr as int, a, start as int),
            decreases n - i,
        {
            let e = entries[i];
            if (addr <= e.offset && e.offset < addr_end) || (e.offset <= addr && addr < e.offset + e.size) {
                within.push(i);
                entry_index = i;
                proof {
                    assert(within@ + slot_from(es, addr as int, a, i + 1) =~= slot_from(es, addr as int, a, start as int));
                }
            } else if addr_end <= e.offset {
                proof {
                    lemma_slot_rest_empty(es, addr as int, a, i as int);
                    assert(within@ =~= within@ + slot_from(es, addr as int, a, i as int));
                }
                break;
            }
            i = i + 1;
        }
        proof {
            assert(within@ == slot_from(es, addr as int, a, 0));
            assert forall|j: int| 0 <= j < entry_index implies #[trigger] es[j].offset + es[j].size <= addr + align by {
                if j >= start {
                    assert(es[j].offset + es[j].size <= es[entry_index as int].offset);
                } else {
                    assert(es[j].offset + es[j].size <= addr);
                }
            }
        }
        lut_entries.push(LutEntry { offset: addr, entries: within });
        proof {
            assert forall|kk: int| 0 <= kk < lut_entries@.len() implies (#[trigger] lut_entries@[kk]).offset == table_start(es, a) + kk * align
                && lut_entries@[kk].entries@ == slot_from(es, lut_entries@[kk].offset as int, a, 0) by {}
            k = k + 1;
        }
        addr = addr_end;
    }
    proof {
        assert(k == table_slots(es, a)) by (nonlinear_arith)
            requires
                addr == align_min_addr + k * align,
                addr >= align_max_addr,
                addr <= align_max_addr,
                align_max_addr == align_min_addr + table_slots(es, a) * a,
                a == align,
                align > 0,
        ;
    }
    lut_entries
}

/// How register `entry` takes part in an access: its value moves `shift`
/// bits left (`left`) or right on the way, and, where `masked`, it is handed
/// the byte mask `mask` of the access's bytes it covers.
#[derive(Clone, Copy, Debug, PartialEq, Eq, Structural)]
pub struct IoRoute {
    pub entry: usize,
    pub left: bool,
    pub shift: u32,
    pub masked: bool,
    pub mask: u32,
}

/// The mask of an access of `align` bytes.
pub open spec fn access_mask(align: int) -> u32 {
    if align == 1 { 0xFF } else if align == 2 { 0xFFFF } else { 0xFFFF_FFFF }
}

/// The route of register number `i` (register `e`) for an access at `at`: a
/// read moves a register that starts in the access up to its place in the
/// access and one that starts before it down; a write the other way round,
/// handing wide registers the mask of the bytes written.
pub open spec fn io_route(i: usize, e: IoEntry, at: int, align: int, write: bool) -> IoRoute {
    if e.offset >= at {
        let shift = ((e.offset - at) * 8) as u32;
        IoRoute { entry: i, left: !write, shift, masked: write && e.size != 1, mask: if write { access_mask(align) } else { 0 } }
    } else {
        let shift = ((at - e.offset) * 8) as u32;
        IoRoute {
            entry: i,
            left: write,
            shift,
            masked: write,
            mask: if write { (access_mask(align) << shift) as u32 } else { 0 },
        }
    }
}

/// The routes of the registers that access `lut` of `align` bytes reaches,
/// for reads or for writes (`write`), in the order of its registers.
pub fn lut_routes(lut: &LutEntry, entries: &[IoEntry], align: usize, write: bool) -> (r: Vec<IoRoute>)
    requires
        align == 1 || align == 2 || align == 4,
        entries_ok(entries@),
        forall|k: int|
            0 <= k < lut.entries@.len() ==> #[trigger] lut.entries@[k] < entries@.len() && in_slot(
                entries@[lut.entries@[k] as int],
                lut.offset as int,
                align as int,
            ),
        write ==> forall|k: int|
            0 <= k < lut.entries@.len() ==> (#[trigger] entries@[lut.entries@[k] as int]).offset >= lut.offset
                || entries@[lut.entries@[k] as int].size != 1,
        lut.offset < 0x200_0000,
    ensures
        r@.len() == lut.entries@.len(),
        forall|k: int|
            0 <= k < r@.len() ==> #[trigger] r@[k] == io_route(
                lut.entries@[k],
                entries@[lut.entries@[k] as int],
                lut.offset as int,
                align as int,
                write,
            ),
{
    let full: u32 = if align == 1 {
        0xFF
    } else if align == 2 {
        0xFFFF
    } else {
        0xFFFF_FFFF
    };
    let mut out: Vec<IoRoute> = Vec::new();
    let mut k: usize = 0;
    while k < lut.entries.len()
        invariant
            k <= lut.entries@.len(),
            out@.len() == k,
            full == access_mask(align as int),
            align == 1 || align == 2 || align == 4,
            entries_ok(entries@),
            lut.offset < 0x200_0000,
            forall|j: int|
                0 <= j < lut.entries@.len() ==> #[trigger] lut.entries@[j] < entries@.len() && in_slot(
                    entries@[lut.entries@[j] as int],
                    lut.offset as int,
                    align as int,
                ),
            write ==> forall|j: int|
                0 <= j < lut.entries@.len() ==> (#[trigger] entries@[lut.entries@[j] as int]).offset >= lut.offset
                    || entries@[lut.entries@[j] as int].size != 1,
            forall|j: int|
                0 <= j < k ==> #[trigger] out@[j] == io_route(
                    lut.entries@[j],
                    entries@[lut.entries@[j] as int],
                    lut.offset as int,
                    align as int,
                    write,
                ),
        decreases lut.entries@.len() - k,
    {
        let i = lut.entries[k];
        let e = entries[i];
        proof {
            assert(in_slot(entries@[lut.entries@[k as int] as int], lut.offset as int, align as int));
        }
        let route = if e.offset >= lut.offset {
            let shift = ((e.offset - lut.offset) * 8) as u32;
            IoRoute { entry: i, left: !write, shift, masked: write && e.size != 1, mask: if write { full } else { 0 } }
        } else {
            let shift = ((lut.offset - e.offset) * 8) as u32;
            IoRoute { entry: i, left: write, shift, masked: write, mask: if write { full << shift } else { 0 } }
        };
        out.push(route);
        k = k + 1;
    }
    out
}

} // verus!
