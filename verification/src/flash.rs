//! Layout of telemetry captures in flash: records are packed into 256-byte
//! pages, pages are written one after another from a running address, and a
//! sector is erased before the first page written at its start.
//!
//! The plan is computed here as a list of flash operations; performing them
//! is the caller's I/O.
use vstd::prelude::*;
use vstd::seq_lib::lemma_flatten_concat;
use crate::telemetry::{TelemetryBuffer, TelemetryData, telemetry_buffer_contents,
    telemetry_buffer_as_slice, telemetry_bytes, TELEMETRY_ENTRY_LEN};

verus! {

/// Size of a flash page, the unit of a write.
pub const FLASH_PAGE_SIZE: usize = 256;

/// Size of a flash sector, the unit of an erase.
pub const FLASH_SECTOR_SIZE: usize = 4096;

/// Offset at which telemetry captures start.
pub const FLASH_ADDR_OFFSET: u32 = 0x10_0000;

/// Records per page: a page of 256 bytes holds 8 records of 32 bytes.
pub open spec fn entries_per_page() -> int {
    8
}

/// One flash operation.
#[derive(Debug)]
pub enum FlashOp {
    /// Erase the range `[from, to)`.
    Erase { from: u32, to: u32 },
    /// Write `data` (one page) at `addr`.
    Write { addr: u32, data: Vec<u8> },
}

/// The abstract form of a flash operation.
pub ghost enum FlashStep {
    Erase { from: int, to: int },
    Write { addr: int, data: Seq<u8> },
}

impl View for FlashOp {
    type V = FlashStep;

    open spec fn view(&self) -> FlashStep {
        match self {
            FlashOp::Erase { from, to } => FlashStep::Erase { from: *from as int, to: *to as int },
            FlashOp::Write { addr, data } => FlashStep::Write { addr: *addr as int, data: data@ },
        }
    }
}

/// `n` zero bytes.
pub open spec fn zeros(n: int) -> Seq<u8> {
    Seq::new(n as nat, |_i: int| 0u8)
}

/// The serialised records, one byte sequence per record.
pub open spec fn entry_bytes(es: Seq<TelemetryData<14>>) -> Seq<Seq<u8>> {
    es.map_values(|d: TelemetryData<14>| telemetry_bytes(d))
}

/// The erase that precedes a page written at `addr`: none unless `addr` starts
/// a sector, then that sector.
pub open spec fn erase_before(addr: int) -> Seq<FlashStep> {
    if addr % (FLASH_SECTOR_SIZE as int) == 0 {
        seq![FlashStep::Erase { from: addr, to: addr + FLASH_SECTOR_SIZE }]
    } else {
        seq![]
    }
}

/// The operations for a full page written while records remain: the sector
/// erase at `addr` when `addr` starts a sector, then the page.
pub open spec fn full_page_ops(addr: int, page: Seq<Seq<u8>>) -> Seq<FlashStep> {
    erase_before(addr) + seq![FlashStep::Write { addr, data: page.flatten() }]
}

/// The operations for the pages that fill up while records remain: page `j`
/// holds records `8j .. 8j + 8` and goes to `addr + 256 j`.
pub open spec fn full_pages_ops(addr: int, bytes: Seq<Seq<u8>>) -> Seq<FlashStep>
    decreases bytes.len(),
{
    if bytes.len() < entries_per_page() {
        seq![]
    } else {
        let m = (bytes.len() as int) / entries_per_page();
        let head = bytes.take((m - 1) * entries_per_page());
        full_pages_ops(addr, head) + full_page_ops(
            addr + (m - 1) * FLASH_PAGE_SIZE,
            bytes.subrange((m - 1) * entries_per_page(), m * entries_per_page()),
        )
    }
}

/// The operations for the last page: the same sector erase as for a full
/// page, then the page padded with zeros.
pub open spec fn last_page_ops(addr: int, page: Seq<Seq<u8>>) -> Seq<FlashStep> {
    erase_before(addr) + seq![
        FlashStep::Write {
            addr,
            data: page.flatten() + zeros(FLASH_PAGE_SIZE - page.flatten().len()),
        },
    ]
}

/// Index of the last page of `n > 0` records.
pub open spec fn last_page(n: int) -> int {
    (n - 1) / entries_per_page()
}

/// Number of pages `n` records take.
pub open spec fn page_count(n: int) -> int {
    if n == 0 { 0 } else { last_page(n) + 1 }
}

/// The operations that write `es` from `addr` on.
pub open spec fn plan_ops(addr: int, es: Seq<TelemetryData<14>>) -> Seq<FlashStep> {
    let bytes = entry_bytes(es);
    if es.len() == 0 {
        seq![]
    } else {
        let k = last_page(es.len() as int);
        full_pages_ops(addr, bytes.take(k * entries_per_page()))
            + last_page_ops(addr + k * FLASH_PAGE_SIZE, bytes.skip(k * entries_per_page()))
    }
}

/// The address of page `j` of a capture starting at `addr`.
pub open spec fn page_addr(addr: int, j: int) -> int {
    addr + j * FLASH_PAGE_SIZE
}

/// No address computed while writing `n` records from `addr` overflows `u32`.
pub open spec fn plan_fits(addr: int, n: int) -> bool {
    n == 0 || {
        let k = last_page(n);
        &&& forall|j: int| 0 <= j < k && #[trigger] page_addr(addr, j) % (FLASH_SECTOR_SIZE as int) == 0
            ==> page_addr(addr, j) + FLASH_SECTOR_SIZE <= u32::MAX
        &&& addr + (k + 1) * FLASH_PAGE_SIZE <= u32::MAX
        &&& (addr + k * FLASH_PAGE_SIZE) % (FLASH_SECTOR_SIZE as int) == 0
            ==> addr + k * FLASH_PAGE_SIZE + FLASH_SECTOR_SIZE <= u32::MAX
    }
}

/// A page of zeros.
fn zero_page() -> (page: Vec<u8>)
    ensures
        page@ == zeros(FLASH_PAGE_SIZE as int),
{
    let mut page: Vec<u8> = Vec::new();
    let mut i: usize = 0;
    while i < FLASH_PAGE_SIZE
        invariant
            i <= FLASH_PAGE_SIZE,
            page@ == zeros(i as int),
        decreases FLASH_PAGE_SIZE - i,
    {
        page.push(0u8);
        i = i + 1;
        assert(page@ =~= zeros(i as int));
    }
    page
}

/// Copies `bytes` into `page` at `offset`.
fn copy_into(page: &mut Vec<u8>, offset: usize, bytes: &Vec<u8>)
    requires
        offset + bytes@.len() <= old(page)@.len(),
    ensures
        final(page)@ == old(page)@.take(offset as int) + bytes@ + old(page)@.skip(offset + bytes@.len()),
{
    let ghost start = page@;
    let mut j: usize = 0;
    while j < bytes.len()
        invariant
            offset + bytes@.len() <= start.len(),
            j <= bytes@.len(),
            page@.len() == start.len(),
            offset + bytes.len() <= page.len(),
            page@ == start.take(offset as int) + bytes@.take(j as int) + start.skip(offset + j),
        decreases bytes.len() - j,
    {
        page.set(offset + j, bytes[j]);
        j = j + 1;
        assert(page@ =~= start.take(offset as int) + bytes@.take(j as int) + start.skip(offset + j));
    }
    assert(bytes@.take(bytes@.len() as int) =~= bytes@);
}

/// Sets the bytes of `page` from `offset` on to zero.
fn fill_zeros_from(page: &mut Vec<u8>, offset: usize)
    requires
        offset <= old(page)@.len(),
    ensures
        final(page)@ == old(page)@.take(offset as int) + zeros(old(page)@.len() - offset),
{
    let ghost start = page@;
    let mut j: usize = offset;
    while j < page.len()
        invariant
            offset <= j <= start.len(),
            page@.len() == start.len(),
            page@ == start.take(offset as int) + zeros(j - offset) + start.skip(j as int),
        decreases page@.len() - j,
    {
        page.set(j, 0u8);
        j = j + 1;
        assert(page@ =~= start.take(offset as int) + zeros(j - offset) + start.skip(j as int));
    }
    assert(page@ =~= start.take(offset as int) + zeros(start.len() - offset));
}

/// The abstract form of a list of operations.
pub open spec fn steps(ops: Seq<FlashOp>) -> Seq<FlashStep> {
    ops.map_values(|op: FlashOp| op@)
}

proof fn lemma_steps_push(ops: Seq<FlashOp>, op: FlashOp)
    ensures
        steps(ops.push(op)) == steps(ops).push(op@),
{
    assert(steps(ops.push(op)) =~= steps(ops).push(op@));
}

/// A sequence of 32-byte records flattens to 32 bytes per record.
proof fn lemma_flatten_len(s: Seq<Seq<u8>>)
    requires
        forall|j: int| 0 <= j < s.len() ==> (#[trigger] s[j]).len() == TELEMETRY_ENTRY_LEN,
    ensures
        s.flatten().len() == TELEMETRY_ENTRY_LEN * s.len(),
    decreases s.len(),
{
    if s.len() > 0 {
        let init = s.drop_last();
        lemma_flatten_len(init);
        init.lemma_flatten_push(s.last());
        assert(init.push(s.last()) =~= s);
    }
}

/// Every serialised record is 32 bytes long.
proof fn lemma_entry_bytes_len(es: Seq<TelemetryData<14>>)
    ensures
        entry_bytes(es).len() == es.len(),
        forall|j: int| 0 <= j < es.len() ==> (#[trigger] entry_bytes(es)[j]).len() == TELEMETRY_ENTRY_LEN,
{
}

/// The pages a list of operations writes, as (address, bytes), in order.
pub open spec fn written_pages(steps: Seq<FlashStep>) -> Seq<(int, Seq<u8>)>
    decreases steps.len(),
{
    if steps.len() == 0 {
        seq![]
    } else {
        let init = written_pages(steps.drop_last());
        match steps.last() {
            FlashStep::Write { addr, data } => init.push((addr, data)),
            FlashStep::Erase { .. } => init,
        }
    }
}

/// The bytes of the written pages, concatenated in order.
pub open spec fn written_bytes(steps: Seq<FlashStep>) -> Seq<u8> {
    written_pages(steps).map_values(|p: (int, Seq<u8>)| p.1).flatten()
}

proof fn lemma_written_pages_concat(a: Seq<FlashStep>, b: Seq<FlashStep>)
    ensures
        written_pages(a + b) == written_pages(a) + written_pages(b),
    decreases b.len(),
{
    if b.len() == 0 {
        assert(a + b =~= a);
        assert(written_pages(a) + written_pages(b) =~= written_pages(a));
    } else {
        lemma_written_pages_concat(a, b.drop_last());
        assert((a + b).drop_last() =~= a + b.drop_last());
        assert((a + b).last() == b.last());
        match b.last() {
            FlashStep::Write { addr, data } => {
                assert(written_pages(a) + written_pages(b) =~= (written_pages(a) + written_pages(b.drop_last())).push((addr, data)));
            },
            FlashStep::Erase { .. } => {},
        }
    }
}

proof fn lemma_page_ops_write_one(erase: Seq<FlashStep>, addr: int, data: Seq<u8>)
    requires
        erase.len() == 0 || (erase.len() == 1 && erase[0] is Erase),
    ensures
        written_pages(erase + seq![FlashStep::Write { addr, data }]) == seq![(addr, data)],
{
    let w = seq![FlashStep::Write { addr, data }];
    lemma_written_pages_concat(erase, w);
    if erase.len() == 1 {
        assert(erase.drop_last() =~= Seq::<FlashStep>::empty());
        assert(written_pages(Seq::<FlashStep>::empty()) =~= Seq::<(int, Seq<u8>)>::empty());
        assert(written_pages(erase) =~= Seq::<(int, Seq<u8>)>::empty());
    } else {
        assert(written_pages(erase) =~= Seq::<(int, Seq<u8>)>::empty());
    }
    assert(w.drop_last() =~= Seq::<FlashStep>::empty());
    assert(written_pages(w.drop_last()) =~= Seq::<(int, Seq<u8>)>::empty());
    assert(written_pages(w) =~= seq![(addr, data)]);
}

/// Full pages write their records unpadded, one page per 8 records, at
/// consecutive page addresses.
proof fn lemma_full_pages_written(addr: int, bytes: Seq<Seq<u8>>)
    requires
        (bytes.len() as int) % entries_per_page() == 0,
    ensures
        written_pages(full_pages_ops(addr, bytes)).len() == (bytes.len() as int) / entries_per_page(),
        forall|j: int| 0 <= j < (bytes.len() as int) / entries_per_page()
            ==> (#[trigger] written_pages(full_pages_ops(addr, bytes))[j]).0 == page_addr(addr, j),
        written_bytes(full_pages_ops(addr, bytes)) == bytes.flatten(),
    decreases bytes.len(),
{
    if bytes.len() < entries_per_page() {
        assert(bytes =~= Seq::<Seq<u8>>::empty());
    } else {
        let m = (bytes.len() as int) / entries_per_page();
        let head = bytes.take((m - 1) * entries_per_page());
        let last = bytes.subrange((m - 1) * entries_per_page(), m * entries_per_page());
        let a_last = addr + (m - 1) * FLASH_PAGE_SIZE;
        lemma_full_pages_written(addr, head);
        let ops_head = full_pages_ops(addr, head);
        let ops_last = full_page_ops(a_last, last);
        lemma_written_pages_concat(ops_head, ops_last);
        lemma_page_ops_write_one(erase_before(a_last), a_last, last.flatten());
        let wh = written_pages(ops_head);
        assert(written_pages(full_pages_ops(addr, bytes)) == wh.push((a_last, last.flatten())));
        let f = |p: (int, Seq<u8>)| p.1;
        wh.lemma_push_map_commute(f, (a_last, last.flatten()));
        wh.map_values(f).lemma_flatten_push(last.flatten());
        lemma_flatten_concat(head, last);
        assert(head + last =~= bytes);
    }
}

/// What a plan writes: one page per 8 records at consecutive page addresses
/// from `addr`, holding the serialised records in order followed by zero
/// padding up to the end of the last page.
pub proof fn lemma_plan_writes_records(addr: int, es: Seq<TelemetryData<14>>)
    ensures
        written_pages(plan_ops(addr, es)).len() == page_count(es.len() as int),
        forall|j: int| 0 <= j < page_count(es.len() as int)
            ==> (#[trigger] written_pages(plan_ops(addr, es))[j]).0 == page_addr(addr, j),
        written_bytes(plan_ops(addr, es)) == entry_bytes(es).flatten()
            + zeros(page_count(es.len() as int) * FLASH_PAGE_SIZE - TELEMETRY_ENTRY_LEN * es.len()),
{
    let bytes = entry_bytes(es);
    let n = es.len() as int;
    lemma_entry_bytes_len(es);
    if n == 0 {
        assert(bytes =~= Seq::<Seq<u8>>::empty());
        assert(written_bytes(plan_ops(addr, es)) =~= bytes.flatten() + zeros(0));
    } else {
        let k = last_page(n);
        let k8 = k * entries_per_page();
        let head = bytes.take(k8);
        let tail = bytes.skip(k8);
        lemma_full_pages_written(addr, head);
        let a_last = addr + k * FLASH_PAGE_SIZE;
        lemma_flatten_len(tail);
        let padded = tail.flatten() + zeros(FLASH_PAGE_SIZE - tail.flatten().len());
        let ops_head = full_pages_ops(addr, head);
        let ops_last = last_page_ops(a_last, tail);
        lemma_written_pages_concat(ops_head, ops_last);
        lemma_page_ops_write_one(erase_before(a_last), a_last, padded);
        let wh = written_pages(ops_head);
        assert(written_pages(plan_ops(addr, es)) == wh.push((a_last, padded)));
        let f = |p: (int, Seq<u8>)| p.1;
        wh.lemma_push_map_commute(f, (a_last, padded));
        wh.map_values(f).lemma_flatten_push(padded);
        lemma_flatten_concat(head, tail);
        assert(head + tail =~= bytes);
        assert(written_bytes(plan_ops(addr, es)) =~= bytes.flatten()
            + zeros(page_count(n) * FLASH_PAGE_SIZE - TELEMETRY_ENTRY_LEN * n));
    }
}

/// In `steps`, every page written at the start of a sector comes right after
/// the erase of that sector, and every erase is of one whole sector and comes
/// right before a write at its start.
pub open spec fn erases_sectors_before_writes(steps: Seq<FlashStep>) -> bool {
    &&& forall|i: int| 0 <= i < steps.len() && (#[trigger] steps[i]) is Write
        && steps[i]->addr % (FLASH_SECTOR_SIZE as int) == 0
        ==> i > 0 && steps[i - 1] == (FlashStep::Erase {
            from: steps[i]->addr,
            to: steps[i]->addr + FLASH_SECTOR_SIZE,
        })
    &&& forall|i: int| 0 <= i < steps.len() && (#[trigger] steps[i]) is Erase
        ==> i + 1 < steps.len() && steps[i + 1] is Write
            && steps[i + 1]->addr == steps[i]->from
            && steps[i]->from % (FLASH_SECTOR_SIZE as int) == 0
            && steps[i]->to == steps[i]->from + FLASH_SECTOR_SIZE
}

proof fn lemma_erases_concat(a: Seq<FlashStep>, b: Seq<FlashStep>)
    requires
        erases_sectors_before_writes(a),
        erases_sectors_before_writes(b),
    ensures
        erases_sectors_before_writes(a + b),
{
    let c = a + b;
    assert forall|i: int| 0 <= i < c.len() && (#[trigger] c[i]) is Write
        && c[i]->addr % (FLASH_SECTOR_SIZE as int) == 0
        implies i > 0 && c[i - 1] == (FlashStep::Erase { from: c[i]->addr, to: c[i]->addr + FLASH_SECTOR_SIZE }) by {
        if i < a.len() {
            assert(c[i] == a[i]);
            assert(c[i - 1] == a[i - 1]);
        } else {
            let j = i - a.len();
            assert(c[i] == b[j]);
            assert(b[j] is Write);
            assert(c[i - 1] == b[j - 1]);
        }
    }
    assert forall|i: int| 0 <= i < c.len() && (#[trigger] c[i]) is Erase
        implies i + 1 < c.len() && c[i + 1] is Write && c[i + 1]->addr == c[i]->from
            && c[i]->from % (FLASH_SECTOR_SIZE as int) == 0
            && c[i]->to == c[i]->from + FLASH_SECTOR_SIZE by {
        if i < a.len() {
            assert(c[i] == a[i]);
            assert(a[i] is Erase);
            assert(c[i + 1] == a[i + 1]);
        } else {
            let j = i - a.len();
            assert(c[i] == b[j]);
            assert(b[j] is Erase);
            assert(c[i + 1] == b[j + 1]);
        }
    }
}

proof fn lemma_page_erases(addr: int, data: Seq<u8>)
    ensures
        erases_sectors_before_writes(erase_before(addr) + seq![FlashStep::Write { addr, data }]),
{
    let s = erase_before(addr) + seq![FlashStep::Write { addr, data }];
    let starts_sector = addr % (FLASH_SECTOR_SIZE as int) == 0;
    if starts_sector {
        assert(s =~= seq![
            FlashStep::Erase { from: addr, to: addr + FLASH_SECTOR_SIZE },
            FlashStep::Write { addr, data },
        ]);
    } else {
        assert(s =~= seq![FlashStep::Write { addr, data }]);
    }
}

proof fn lemma_full_pages_erases(addr: int, bytes: Seq<Seq<u8>>)
    ensures
        erases_sectors_before_writes(full_pages_ops(addr, bytes)),
    decreases bytes.len(),
{
    if bytes.len() < entries_per_page() {
        assert(erases_sectors_before_writes(Seq::<FlashStep>::empty()));
    } else {
        let m = (bytes.len() as int) / entries_per_page();
        let head = bytes.take((m - 1) * entries_per_page());
        let last = bytes.subrange((m - 1) * entries_per_page(), m * entries_per_page());
        let a_last = addr + (m - 1) * FLASH_PAGE_SIZE;
        lemma_full_pages_erases(addr, head);
        lemma_page_erases(a_last, last.flatten());
        lemma_erases_concat(full_pages_ops(addr, head), full_page_ops(a_last, last));
    }
}

/// A plan never writes a page into a sector it has not just erased: every page
/// written at the start of a sector is preceded directly by the erase of that
/// sector, and every erase is of a whole sector and precedes the write at its
/// start.
pub proof fn lemma_plan_erases_sectors_before_writes(addr: int, es: Seq<TelemetryData<14>>)
    ensures
        erases_sectors_before_writes(plan_ops(addr, es)),
{
    if es.len() == 0 {
        assert(erases_sectors_before_writes(Seq::<FlashStep>::empty()));
    } else {
        let bytes = entry_bytes(es);
        let k = last_page(es.len() as int);
        let head = bytes.take(k * entries_per_page());
        let tail = bytes.skip(k * entries_per_page());
        let a_last = addr + k * FLASH_PAGE_SIZE;
        lemma_full_pages_erases(addr, head);
        lemma_page_erases(a_last, tail.flatten() + zeros(FLASH_PAGE_SIZE - tail.flatten().len()));
        lemma_erases_concat(full_pages_ops(addr, head), last_page_ops(a_last, tail));
    }
}

/// Where the next telemetry capture goes in flash.
pub struct TelemetryFlashLayout {
    current_addr: u32,
}

impl TelemetryFlashLayout {
    /// The address at which the next capture starts.
    pub closed spec fn addr(self) -> int {
        self.current_addr as int
    }

    /// Captures start at `FLASH_ADDR_OFFSET`.
    pub fn new() -> (l: Self)
        ensures
            l.addr() == FLASH_ADDR_OFFSET,
    {
        TelemetryFlashLayout { current_addr: FLASH_ADDR_OFFSET }
    }

    /// The flash operations that write the records of `data` as pages from the
    /// current address on, and the advance of the address past them. Records are
    /// packed 8 to a page; a full page is written when the next record does not
    /// fit, the last page is zero-padded; before a page that starts a sector the
    /// sector is erased.
    #[verifier::rlimit(40)]
    pub fn plan_data_vec(&mut self, data: &TelemetryBuffer) -> (ops: Vec<FlashOp>)
        requires
            plan_fits(old(self).addr(), telemetry_buffer_contents(*data).len() as int),
        ensures
            steps(ops@) == plan_ops(old(self).addr(), telemetry_buffer_contents(*data)),
            final(self).addr() == old(self).addr()
                + page_count(telemetry_buffer_contents(*data).len() as int) * FLASH_PAGE_SIZE,
    {
        let entries = telemetry_buffer_as_slice(data);
        let ghost es = entries@;
        let ghost bytes = entry_bytes(es);
        let ghost a0 = self.current_addr as int;
        let ghost n = es.len() as int;
        proof { lemma_entry_bytes_len(es); }
        let mut ops: Vec<FlashOp> = Vec::new();
        let mut page = zero_page();
        let mut page_offset: usize = 0;
        let ghost mut k: int = 0;
        let mut i: usize = 0;
        assert(bytes.subrange(0, 0) =~= Seq::<Seq<u8>>::empty());
        assert(bytes.take(0) =~= Seq::<Seq<u8>>::empty());
        while i < entries.len()
            invariant
                entries@ == es,
                n == es.len(),
                bytes == entry_bytes(es),
                bytes.len() == n,
                forall|j: int| 0 <= j < n ==> (#[trigger] bytes[j]).len() == TELEMETRY_ENTRY_LEN,
                plan_fits(a0, n),
                0 <= i <= n,
                k == (if i == 0 { 0 } else { (i - 1) / entries_per_page() }),
                page_offset == TELEMETRY_ENTRY_LEN * (i - entries_per_page() * k),
                0 <= i - entries_per_page() * k <= entries_per_page(),
                page@ == bytes.subrange(entries_per_page() * k, i as int).flatten()
                    + zeros(FLASH_PAGE_SIZE - page_offset),
                self.current_addr == a0 + k * FLASH_PAGE_SIZE,
                steps(ops@) == full_pages_ops(a0, bytes.take(entries_per_page() * k)),
            decreases n - i,
        {
            proof {
                lemma_flatten_len(bytes.subrange(entries_per_page() * k, i as int));
            }
            let record = entries[i].as_bytes();
            if page_offset + TELEMETRY_ENTRY_LEN > FLASH_PAGE_SIZE {
                // The page is full: write it before starting the next one.
                proof {
                    assert(k < last_page(n));
                    assert(page_addr(a0, k) == self.current_addr);
                }
                let ghost before = ops@;
                if self.current_addr as usize % FLASH_SECTOR_SIZE == 0 {
                    let offset = self.current_addr;
                    let op = FlashOp::Erase { from: offset, to: offset + FLASH_SECTOR_SIZE as u32 };
                    proof { lemma_steps_push(ops@, op); }
                    ops.push(op);
                }
                let addr = self.current_addr;
                let full = page;
                let ghost full_view = full@;
                let op = FlashOp::Write { addr, data: full };
                proof { lemma_steps_push(ops@, op); }
                ops.push(op);
                self.current_addr = self.current_addr + FLASH_PAGE_SIZE as u32;
                page = zero_page();
                page_offset = 0;
                proof {
                    let k8 = entries_per_page() * k;
                    let head = bytes.take(k8 + entries_per_page());
                    assert(head.take(k8) =~= bytes.take(k8));
                    assert(head.subrange(k8, k8 + entries_per_page()) =~= bytes.subrange(k8, i as int));
                    assert(full_view =~= bytes.subrange(k8, i as int).flatten());
                    assert(steps(ops@) =~= full_pages_ops(a0, head));
                    k = k + 1;
                    assert(bytes.subrange(entries_per_page() * k, i as int) =~= Seq::<Seq<u8>>::empty());
                    assert(page@ =~= bytes.subrange(entries_per_page() * k, i as int).flatten()
                        + zeros(FLASH_PAGE_SIZE - page_offset));
                }
            }
            proof {
                lemma_flatten_len(bytes.subrange(entries_per_page() * k, i as int));
            }
            let ghost prev = page@;
            copy_into(&mut page, page_offset, &record);
            page_offset = page_offset + TELEMETRY_ENTRY_LEN;
            i = i + 1;
            proof {
                let sub0 = bytes.subrange(entries_per_page() * k, i - 1);
                let sub1 = bytes.subrange(entries_per_page() * k, i as int);
                assert(sub0.push(bytes[i - 1]) =~= sub1);
                sub0.lemma_flatten_push(bytes[i - 1]);
                assert(record@ == bytes[i - 1]);
                assert(page@ =~= sub1.flatten() + zeros(FLASH_PAGE_SIZE - page_offset));
            }
        }
        if page_offset > 0 {
            // Zero-pad the last page and write it.
            proof {
                lemma_flatten_len(bytes.subrange(entries_per_page() * k, i as int));
            }
            fill_zeros_from(&mut page, page_offset);
            proof {
                assert(k == last_page(n));
                assert(page_addr(a0, k) == self.current_addr);
            }
            if self.current_addr as usize % FLASH_SECTOR_SIZE == 0 {
                let offset = self.current_addr;
                let op = FlashOp::Erase { from: offset, to: offset + FLASH_SECTOR_SIZE as u32 };
                proof { lemma_steps_push(ops@, op); }
                ops.push(op);
            }
            let addr = self.current_addr;
            let ghost last_view = page@;
            let op = FlashOp::Write { addr, data: page };
            proof { lemma_steps_push(ops@, op); }
            ops.push(op);
            self.current_addr = self.current_addr + FLASH_PAGE_SIZE as u32;
            proof {
                let k8 = entries_per_page() * k;
                assert(bytes.skip(k8) =~= bytes.subrange(k8, n));
                assert(last_view =~= bytes.skip(k8).flatten() + zeros(FLASH_PAGE_SIZE - bytes.skip(k8).flatten().len()));
                assert(steps(ops@) =~= plan_ops(a0, es));
            }
        } else {
            proof {
                assert(n == 0);
                assert(steps(ops@) =~= plan_ops(a0, es));
            }
        }
        ops
    }

    /// Whether planning the write of `record_count` records from the current
    /// address stays within the range of `u32` addresses (see [`plan_fits`]).
    pub fn can_plan(&self, record_count: usize) -> (b: bool)
        ensures
            b == plan_fits(self.addr(), record_count as int),
    {
        if record_count == 0 {
            return true;
        }
        let n = record_count;
        let k: u64 = ((n - 1) / 8) as u64;
        let a: u64 = self.current_addr as u64;
        if k >= 0x100_0000 {
            assert(!(a + (k + 1) * FLASH_PAGE_SIZE <= u32::MAX));
            return false;
        }
        let end = a + (k + 1) * 256;
        if end > u32::MAX as u64 {
            return false;
        }
        let mut j: u64 = 0;
        while j < k
            invariant
                0 <= j <= k,
                n == record_count,
                k == last_page(n as int),
                k < 0x100_0000,
                a == self.addr(),
                a + (k + 1) * FLASH_PAGE_SIZE <= u32::MAX,
                forall|jj: int| 0 <= jj < j && #[trigger] page_addr(a as int, jj) % (FLASH_SECTOR_SIZE as int) == 0
                    ==> page_addr(a as int, jj) + FLASH_SECTOR_SIZE <= u32::MAX,
            decreases k - j,
        {
            let pa = a + j * 256;
            assert(pa == page_addr(a as int, j as int));
            if pa % 4096 == 0 && pa + 4096 > u32::MAX as u64 {
                assert(page_addr(self.addr(), j as int) % (FLASH_SECTOR_SIZE as int) == 0);
                assert(!(page_addr(self.addr(), j as int) + FLASH_SECTOR_SIZE <= u32::MAX));
                proof {
                    let jj = j as int;
                    assert(0 <= jj < last_page(record_count as int));
                    assert(page_addr(self.addr(), jj) % (FLASH_SECTOR_SIZE as int) == 0);
                    assert(!plan_fits(self.addr(), record_count as int));
                }
                return false;
            }
            j = j + 1;
        }
        let last = a + k * 256;
        assert(last == page_addr(a as int, k as int));
        if last % 4096 == 0 {
            last + 4096 <= u32::MAX as u64
        } else {
            true
        }
    }

    /// Whether planning the write of `data` from the current address stays
    /// within the range of `u32` addresses (see [`plan_fits`]).
    pub fn can_plan_buffer(&self, data: &TelemetryBuffer) -> (b: bool)
        ensures
            b == plan_fits(self.addr(), telemetry_buffer_contents(*data).len() as int),
    {
        self.can_plan(telemetry_buffer_as_slice(data).len())
    }

    /// The address at which the next capture starts.
    pub fn current_addr(&self) -> (a: u32)
        ensures
            a == self.addr(),
    {
        self.current_addr
    }
}

} // verus!
