//! The identity mapping that the kernel runs in: three levels of page
//! tables that map the first 64 GiB with pages of 2 MiB.

use vstd::prelude::*;

verus! {

/// The number of page directories, each of which maps 1 GiB.
pub const PAGE_DIRECTORY_COUNT: usize = 64;

/// The number of entries of a table.
pub const TABLE_ENTRIES: usize = 512;

/// The size of a page of the lowest level.
pub const PAGE_SIZE_4K: u64 = 4096;

/// The size of a page that a page directory entry maps.
pub const PAGE_SIZE_2M: u64 = 512 * PAGE_SIZE_4K;

/// The size of what a page directory pointer table entry maps.
pub const PAGE_SIZE_1G: u64 = 512 * PAGE_SIZE_2M;

/// The flags of an entry that points to the next table: present, writable.
pub const TABLE_FLAGS: u64 = 0x003;

/// The flags of an entry that maps a page of 2 MiB: present, writable,
/// page size.
pub const HUGE_PAGE_FLAGS: u64 = 0x083;

/// A table of `N` entries.
pub struct PageTable<T, const N: usize> {
    pub table: Vec<T>,
}

impl<T, const N: usize> PageTable<T, N> {
    /// The table holds `N` entries.
    pub open spec fn wf(&self) -> bool {
        self.table@.len() == N
    }

    /// The number of entries.
    pub fn len(&self) -> (len: usize)
        ensures
            len == N,
    {
        N
    }

    /// The entry at `index`.
    pub fn index(&self, index: usize) -> (entry: &T)
        requires
            self.wf(),
            index < N,
        ensures
            *entry == self.table@[index as int],
    {
        &self.table[index]
    }

    /// The entry at `index`, to be written.
    pub fn index_mut(&mut self, index: usize) -> (entry: &mut T)
        requires
            old(self).wf(),
            index < N,
        ensures
            *entry == old(self).table@[index as int],
            final(self).table@ == old(self).table@.update(index as int, *final(entry)),
            final(self).wf(),
    {
        &mut self.table[index]
    }
}

impl<T: Copy, const N: usize> PageTable<T, N> {
    /// A table whose entries all are `value`.
    pub fn new(value: T) -> (table: Self)
        ensures
            table.wf(),
            forall|i: int| 0 <= i < N ==> table.table@[i] == value,
    {
        let mut table: Vec<T> = Vec::new();
        let mut i: usize = 0;
        while i < N
            invariant
                i <= N,
                table@.len() == i,
                forall|k: int| 0 <= k < i ==> table@[k] == value,
            decreases N - i,
        {
            table.push(value);
            i = i + 1;
        }
        Self { table }
    }
}

/// The tables of the identity mapping.
pub struct IdentityMap {
    pub pml4_table: PageTable<u64, 512>,
    pub pdp_table: PageTable<u64, 512>,
    pub page_directory: PageTable<[u64; 512], 64>,
}

impl IdentityMap {
    /// Every table has its number of entries.
    pub open spec fn wf(&self) -> bool {
        &&& self.pml4_table.wf()
        &&& self.pdp_table.wf()
        &&& self.page_directory.wf()
    }

    /// Tables whose entries all are zero.
    pub fn new() -> (map: Self)
        ensures
            map.wf(),
            forall|i: int| 0 <= i < 512 ==> map.pml4_table.table@[i] == 0,
            forall|i: int| 0 <= i < 512 ==> map.pdp_table.table@[i] == 0,
            forall|i: int, j: int|
                0 <= i < 64 && 0 <= j < 512 ==> (#[trigger] map.page_directory.table@[i]@[j]) == 0,
    {
        let zeroes: [u64; 512] = [0; 512];
        Self {
            pml4_table: PageTable::new(0),
            pdp_table: PageTable::new(0),
            page_directory: PageTable::new(zeroes),
        }
    }
}

/// The address that the entry `entry` of a page directory maps its page to.
pub open spec fn mapped_address(entry: u64) -> u64 {
    entry & !0x1f_ffffu64
}

/// The entry that maps the page of 2 MiB number `page` to itself.
pub open spec fn identity_entry(page: int) -> u64 {
    ((page * PAGE_SIZE_2M) as u64) | HUGE_PAGE_FLAGS
}

/// The flag bits of an entry.
pub open spec fn entry_flags(entry: u64) -> u64 {
    entry & 0xfffu64
}

proof fn lemma_entry_bits(address: u64)
    by (bit_vector)
    requires
        address % 0x20_0000 == 0,
    ensures
        (address | 0x083u64) & !0x1f_ffffu64 == address,
        (address | 0x083u64) & 0xfffu64 == 0x083,
{
}

/// The mapping is the identity: the entry for the page of 2 MiB number
/// `page` maps it to the address at which the page lies, and is present,
/// writable and marked as a page of 2 MiB.
pub proof fn lemma_identity_entry(page: int)
    requires
        0 <= page < PAGE_DIRECTORY_COUNT * TABLE_ENTRIES,
    ensures
        mapped_address(identity_entry(page)) == page * PAGE_SIZE_2M,
        entry_flags(identity_entry(page)) == HUGE_PAGE_FLAGS,
{
    assert(PAGE_SIZE_2M == 0x20_0000);
    let address = page * 0x20_0000;
    assert(0 <= address < 0x10_0000_0000 && address % 0x20_0000 == 0);
    lemma_entry_bits(address as u64);
}

/// Fills the tables with the identity mapping of the first 64 GiB and hands
/// out the address of the top table, which the caller loads into CR3.
///
/// `pml4_addr`, `pdp_addr` and `page_directory_addr` are the addresses at
/// which the three tables lie; the page directories lie one behind the
/// other from `page_directory_addr` on. The first entry of the top table
/// points to the page directory pointer table, whose entry `i` points to
/// page directory `i`, whose entry `j` maps the page of 2 MiB number
/// `512 * i + j` to itself.
pub fn setup_indentity_page_table(
    map: &mut IdentityMap,
    pml4_addr: u64,
    pdp_addr: u64,
    page_directory_addr: u64,
) -> (cr3: u64)
    requires
        old(map).wf(),
        page_directory_addr + PAGE_DIRECTORY_COUNT * PAGE_SIZE_4K <= u64::MAX,
    ensures
        final(map).wf(),
        cr3 == pml4_addr,
        final(map).pml4_table.table@ == old(map).pml4_table.table@.update(
            0,
            pdp_addr | TABLE_FLAGS,
        ),
        forall|i: int|
            0 <= i < PAGE_DIRECTORY_COUNT ==> #[trigger] final(map).pdp_table.table@[i] == ((
            page_directory_addr + i * PAGE_SIZE_4K) as u64) | TABLE_FLAGS,
        forall|i: int|
            PAGE_DIRECTORY_COUNT <= i < TABLE_ENTRIES ==> #[trigger] final(map).pdp_table.table@[i] == old(map).pdp_table.table@[i],
        forall|i: int, j: int|
            0 <= i < PAGE_DIRECTORY_COUNT && 0 <= j < TABLE_ENTRIES ==> (#[trigger] final(map).page_directory.table@[i]@[j]) == identity_entry(512 * i + j),
{
    map.pml4_table.table[0] = pdp_addr | TABLE_FLAGS;

    let mut i_pdpt: usize = 0;
    while i_pdpt < PAGE_DIRECTORY_COUNT
        invariant
            i_pdpt <= PAGE_DIRECTORY_COUNT,
            map.wf(),
            page_directory_addr + PAGE_DIRECTORY_COUNT * PAGE_SIZE_4K <= u64::MAX,
            map.pml4_table.table@ == old(map).pml4_table.table@.update(
                0,
                pdp_addr | TABLE_FLAGS,
            ),
            forall|i: int|
                0 <= i < i_pdpt ==> #[trigger] map.pdp_table.table@[i] == ((page_directory_addr
                    + i * PAGE_SIZE_4K) as u64) | TABLE_FLAGS,
            forall|i: int|
                i_pdpt <= i < TABLE_ENTRIES ==> #[trigger] map.pdp_table.table@[i] == old(map).pdp_table.table@[i],
            forall|i: int, j: int|
                0 <= i < i_pdpt && 0 <= j < TABLE_ENTRIES ==> (
                #[trigger] map.page_directory.table@[i]@[j]) == identity_entry(512 * i + j),
        decreases PAGE_DIRECTORY_COUNT - i_pdpt,
    {
        map.pdp_table.table[i_pdpt] = (page_directory_addr + i_pdpt as u64 * PAGE_SIZE_4K)
            | TABLE_FLAGS;

        let mut i_pd: usize = 0;
        while i_pd < TABLE_ENTRIES
            invariant
                i_pd <= TABLE_ENTRIES,
                i_pdpt < PAGE_DIRECTORY_COUNT,
                map.wf(),
                map.pml4_table.table@ == old(map).pml4_table.table@.update(
                    0,
                    pdp_addr | TABLE_FLAGS,
                ),
                forall|i: int|
                    0 <= i <= i_pdpt ==> #[trigger] map.pdp_table.table@[i] == ((
                    page_directory_addr + i * PAGE_SIZE_4K) as u64) | TABLE_FLAGS,
                forall|i: int|
                    i_pdpt < i < TABLE_ENTRIES ==> #[trigger] map.pdp_table.table@[i] == old(map).pdp_table.table@[i],
                forall|i: int, j: int|
                    0 <= i < i_pdpt && 0 <= j < TABLE_ENTRIES ==> (
                    #[trigger] map.page_directory.table@[i]@[j]) == identity_entry(512 * i + j),
                forall|j: int|
                    0 <= j < i_pd ==> (#[trigger] map.page_directory.table@[i_pdpt as int]@[j])
                        == identity_entry(512 * i_pdpt + j),
            decreases TABLE_ENTRIES - i_pd,
        {
            map.page_directory.table[i_pdpt][i_pd] = (i_pdpt as u64 * PAGE_SIZE_1G + i_pd as u64
                * PAGE_SIZE_2M) | HUGE_PAGE_FLAGS;
            i_pd = i_pd + 1;
        }
        i_pdpt = i_pdpt + 1;
    }
    pml4_addr
}

/// Sets up paging: fills `map` with the identity mapping and hands out the
/// address to load into CR3.
pub fn init(map: &mut IdentityMap, pml4_addr: u64, pdp_addr: u64, page_directory_addr: u64) -> (cr3:
    u64)
    requires
        old(map).wf(),
        page_directory_addr + PAGE_DIRECTORY_COUNT * PAGE_SIZE_4K <= u64::MAX,
    ensures
        final(map).wf(),
        cr3 == pml4_addr,
        final(map).pml4_table.table@ == old(map).pml4_table.table@.update(
            0,
            pdp_addr | TABLE_FLAGS,
        ),
        forall|i: int|
            0 <= i < PAGE_DIRECTORY_COUNT ==> #[trigger] final(map).pdp_table.table@[i] == ((
            page_directory_addr + i * PAGE_SIZE_4K) as u64) | TABLE_FLAGS,
        forall|i: int, j: int|
            0 <= i < PAGE_DIRECTORY_COUNT && 0 <= j < TABLE_ENTRIES ==> (#[trigger] final(map).page_directory.table@[i]@[j]) == identity_entry(512 * i + j),
{
    setup_indentity_page_table(map, pml4_addr, pdp_addr, page_directory_addr)
}

} // verus!
