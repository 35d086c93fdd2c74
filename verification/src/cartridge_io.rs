use vstd::prelude::*;
use crate::cartridge_layout::{le_u16, le_u32, read_u16_le, read_u32_le, read_bytes};

pub use crate::cartridge_layout::{ArmValues, ArmOverlay};
pub use crate::key1::Key1;

verus! {

/// Bytes of the ROM header.
pub const HEADER_SIZE: usize = 0x200;

/// Bytes of the header that the firmware copies to main memory.
pub const HEADER_IN_RAM_SIZE: usize = 0x170;

/// The ROM header of a game card as it lies in the first 0x200 bytes of the image.
pub struct CartridgeHeader {
    pub game_title: [u8; 0xc],
    pub game_code: [u8; 0x4],
    pub marker_code: [u8; 0x2],
    pub unit_code: u8,
    pub encryption_seed_select: u8,
    pub device_capacity: u8,
    pub reserved: [u8; 0x7],
    pub reserved1: u8,
    pub nds_region: u8,
    pub rom_version: u8,
    pub autostart: u8,
    pub arm9_values: ArmValues,
    pub arm7_values: ArmValues,
    pub file_name_table_offset: u32,
    pub file_name_table_size: u32,
    pub file_allocation_table_offset: u32,
    pub file_allocation_table_size: u32,
    pub arm9_overlay: ArmOverlay,
    pub arm7_overlay: ArmOverlay,
    pub port_setting_normal_commands: u32,
    pub port_setting_key1_commands: u32,
    pub icon_title_offset: u32,
    pub secure_area_checksum: u16,
    pub secure_area_delay: u16,
    pub arm9_auto_load_list_hook_ram_address: u32,
    pub arm7_auto_load_list_hook_ram_address: u32,
    pub secure_area_disable: [u8; 0x8],
    pub total_used_rom_size: u32,
    pub rom_header_size: u32,
    pub unknown: u32,
    pub reserve2: [u8; 0x24],
    pub reserved3: [u8; 0x10],
    pub nintendo_logo: [u8; 0x9c],
    pub nintendo_logo_checksum: u16,
    pub header_checksum: u16,
    pub debug_rom_offset: u32,
    pub debug_size: u32,
    pub debug_ram_address: u32,
    pub reserved4: [u8; 0x4],
    pub reserved5: [u8; 0x90],
}

impl CartridgeHeader {
    /// The game code read as a little-endian word, the id that keys the
    /// card's encryption.
    pub fn game_code_word(&self) -> (r: u32)
        ensures
            r == le_u32(self.game_code@, 0),
    {
        read_u32_le(&self.game_code, 0)
    }

    /// Whether each field holds what lies at its place in `raw` (little endian).
    pub open spec fn parsed_from(&self, raw: Seq<u8>) -> bool {
        &&& self.game_title@ == raw.subrange(0x0, 0xc)
        &&& self.game_code@ == raw.subrange(0xc, 0x10)
        &&& self.marker_code@ == raw.subrange(0x10, 0x12)
        &&& self.unit_code == raw[0x12]
        &&& self.encryption_seed_select == raw[0x13]
        &&& self.device_capacity == raw[0x14]
        &&& self.reserved@ == raw.subrange(0x15, 0x1c)
        &&& self.reserved1 == raw[0x1c]
        &&& self.nds_region == raw[0x1d]
        &&& self.rom_version == raw[0x1e]
        &&& self.autostart == raw[0x1f]
        &&& self.arm9_values == ArmValues::spec_decode(raw, 0x20)
        &&& self.arm7_values == ArmValues::spec_decode(raw, 0x30)
        &&& self.file_name_table_offset == le_u32(raw, 0x40)
        &&& self.file_name_table_size == le_u32(raw, 0x44)
        &&& self.file_allocation_table_offset == le_u32(raw, 0x48)
        &&& self.file_allocation_table_size == le_u32(raw, 0x4c)
        &&& self.arm9_overlay.overlay_offset == le_u32(raw, 0x50)
        &&& self.arm9_overlay.overlay_size == le_u32(raw, 0x54)
        &&& self.arm7_overlay.overlay_offset == le_u32(raw, 0x58)
        &&& self.arm7_overlay.overlay_size == le_u32(raw, 0x5c)
        &&& self.port_setting_normal_commands == le_u32(raw, 0x60)
        &&& self.port_setting_key1_commands == le_u32(raw, 0x64)
        &&& self.icon_title_offset == le_u32(raw, 0x68)
        &&& self.secure_area_checksum == le_u16(raw, 0x6c)
        &&& self.secure_area_delay == le_u16(raw, 0x6e)
        &&& self.arm9_auto_load_list_hook_ram_address == le_u32(raw, 0x70)
        &&& self.arm7_auto_load_list_hook_ram_address == le_u32(raw, 0x74)
        &&& self.secure_area_disable@ == raw.subrange(0x78, 0x80)
        &&& self.total_used_rom_size == le_u32(raw, 0x80)
        &&& self.rom_header_size == le_u32(raw, 0x84)
        &&& self.unknown == le_u32(raw, 0x88)
        &&& self.reserve2@ == raw.subrange(0x8c, 0xb0)
        &&& self.reserved3@ == raw.subrange(0xb0, 0xc0)
        &&& self.nintendo_logo@ == raw.subrange(0xc0, 0x15c)
        &&& self.nintendo_logo_checksum == le_u16(raw, 0x15c)
        &&& self.header_checksum == le_u16(raw, 0x15e)
        &&& self.debug_rom_offset == le_u32(raw, 0x160)
        &&& self.debug_size == le_u32(raw, 0x164)
        &&& self.debug_ram_address == le_u32(raw, 0x168)
        &&& self.reserved4@ == raw.subrange(0x16c, 0x170)
        &&& self.reserved5@ == raw.subrange(0x170, 0x200)
    }

    /// The header laid over the first 0x200 bytes of `raw`.
    pub fn from_bytes(raw: &[u8]) -> (r: Self)
        requires
            raw.len() >= 0x200,
        ensures
            r.parsed_from(raw@),
    {
        CartridgeHeader {
            game_title: read_bytes::<12>(raw, 0x0),
            game_code: read_bytes::<4>(raw, 0xc),
            marker_code: read_bytes::<2>(raw, 0x10),
            unit_code: raw[0x12],
            encryption_seed_select: raw[0x13],
            device_capacity: raw[0x14],
            reserved: read_bytes::<7>(raw, 0x15),
            reserved1: raw[0x1c],
            nds_region: raw[0x1d],
            rom_version: raw[0x1e],
            autostart: raw[0x1f],
            arm9_values: ArmValues::decode(raw, 0x20),
            arm7_values: ArmValues::decode(raw, 0x30),
            file_name_table_offset: read_u32_le(raw, 0x40),
            file_name_table_size: read_u32_le(raw, 0x44),
            file_allocation_table_offset: read_u32_le(raw, 0x48),
            file_allocation_table_size: read_u32_le(raw, 0x4c),
            arm9_overlay: ArmOverlay::decode(raw, 0x50),
            arm7_overlay: ArmOverlay::decode(raw, 0x58),
            port_setting_normal_commands: read_u32_le(raw, 0x60),
            port_setting_key1_commands: read_u32_le(raw, 0x64),
            icon_title_offset: read_u32_le(raw, 0x68),
            secure_area_checksum: read_u16_le(raw, 0x6c),
            secure_area_delay: read_u16_le(raw, 0x6e),
            arm9_auto_load_list_hook_ram_address: read_u32_le(raw, 0x70),
            arm7_auto_load_list_hook_ram_address: read_u32_le(raw, 0x74),
            secure_area_disable: read_bytes::<8>(raw, 0x78),
            total_used_rom_size: read_u32_le(raw, 0x80),
            rom_header_size: read_u32_le(raw, 0x84),
            unknown: read_u32_le(raw, 0x88),
            reserve2: read_bytes::<36>(raw, 0x8c),
            reserved3: read_bytes::<16>(raw, 0xb0),
            nintendo_logo: read_bytes::<156>(raw, 0xc0),
            nintendo_logo_checksum: read_u16_le(raw, 0x15c),
            header_checksum: read_u16_le(raw, 0x15e),
            debug_rom_offset: read_u32_le(raw, 0x160),
            debug_size: read_u32_le(raw, 0x164),
            debug_ram_address: read_u32_le(raw, 0x168),
            reserved4: read_bytes::<4>(raw, 0x16c),
            reserved5: read_bytes::<144>(raw, 0x170),
        }
    }
}


/// Bytes of one entry of an overlay table.
pub const INFO_HEADER_SIZE: usize = 0x20;

/// One entry of an overlay table: where an overlay goes in memory and which
/// file holds it.
#[derive(PartialEq, Eq, Structural)]
pub struct FsOverlayInfoHeader {
    pub id: u32,
    pub ram_address: u32,
    pub ram_size: u32,
    pub bss_size: u32,
    pub sinit_init: u32,
    pub sinit_init_end: u32,
    pub file_id: u32,
    pub compressed_flag: u32,
}

impl FsOverlayInfoHeader {
    /// Whether `addr` lies in the overlay's loaded code and data.
    pub fn is_in_range(&self, addr: u32) -> (r: bool)
        requires
            self.ram_address + self.ram_size <= u32::MAX,
        ensures
            r == (self.ram_address <= addr < self.ram_address + self.ram_size),
    {
        self.ram_address <= addr && addr < self.ram_address_end()
    }

    /// The first address after the loaded code and data.
    pub fn ram_address_end(&self) -> (r: u32)
        requires
            self.ram_address + self.ram_size <= u32::MAX,
        ensures
            r == self.ram_address + self.ram_size,
    {
        self.ram_address + self.ram_size
    }

    /// The first address after the overlay and its zeroed area.
    pub fn address_end(&self) -> (r: u32)
        requires
            self.ram_address + self.ram_size + self.bss_size <= u32::MAX,
        ensures
            r == self.ram_address + self.ram_size + self.bss_size,
    {
        self.ram_address + self.total_size()
    }

    /// Bytes of code and data together with the zeroed area.
    pub fn total_size(&self) -> (r: u32)
        requires
            self.ram_size + self.bss_size <= u32::MAX,
        ensures
            r == self.ram_size + self.bss_size,
    {
        self.ram_size + self.bss_size
    }

    /// The entry as it lies in the first 0x20 bytes of `raw` (little endian).
    pub fn from_bytes(raw: &[u8]) -> (r: Self)
        requires
            raw.len() >= INFO_HEADER_SIZE,
        ensures
            r.id == le_u32(raw@, 0x0),
            r.ram_address == le_u32(raw@, 0x4),
            r.ram_size == le_u32(raw@, 0x8),
            r.bss_size == le_u32(raw@, 0xc),
            r.sinit_init == le_u32(raw@, 0x10),
            r.sinit_init_end == le_u32(raw@, 0x14),
            r.file_id == le_u32(raw@, 0x18),
            r.compressed_flag == le_u32(raw@, 0x1c),
    {
        FsOverlayInfoHeader {
            id: read_u32_le(raw, 0x0),
            ram_address: read_u32_le(raw, 0x4),
            ram_size: read_u32_le(raw, 0x8),
            bss_size: read_u32_le(raw, 0xc),
            sinit_init: read_u32_le(raw, 0x10),
            sinit_init_end: read_u32_le(raw, 0x14),
            file_id: read_u32_le(raw, 0x18),
            compressed_flag: read_u32_le(raw, 0x1c),
        }
    }
}

/// Where the entries of an overlay table lie in the image, in table order:
/// one every 0x20 bytes from the table's offset, while the entry starts
/// inside the table.
pub open spec fn overlay_entry_offset(table: ArmOverlay, i: int) -> int {
    table.overlay_offset + i * INFO_HEADER_SIZE
}

/// Number of entries of an overlay table: those that start inside it.
pub open spec fn overlay_entry_count(table: ArmOverlay) -> int {
    (table.overlay_size + 0x1F) / 0x20
}

/// The image offsets of the entries of an overlay table, first to last; the
/// entries are read in this order until one cannot be read.
pub fn overlay_entry_offsets(table: &ArmOverlay) -> (r: Vec<u32>)
    requires
        table.overlay_size + 0x1F <= u32::MAX,
        table.overlay_size == 0 || table.overlay_offset + table.overlay_size - 1 <= u32::MAX,
    ensures
        r@.len() == overlay_entry_count(*table),
        forall|i: int| 0 <= i < r@.len() ==> r@[i] == overlay_entry_offset(*table, i),
{
    let mut r: Vec<u32> = Vec::new();
    let mut id: u32 = 0;
    while id * 0x20 < table.overlay_size
        invariant
            table.overlay_size + 0x1F <= u32::MAX,
            table.overlay_size == 0 || table.overlay_offset + table.overlay_size - 1 <= u32::MAX,
            id * 0x20 <= table.overlay_size + 0x1F,
            id > 0 ==> (id - 1) * 0x20 < table.overlay_size,
            r@.len() == id,
            forall|i: int| 0 <= i < r@.len() ==> r@[i] == overlay_entry_offset(*table, i),
        decreases table.overlay_size + 0x20 - id * 0x20,
    {
        let offset = id * 0x20;
        r.push(table.overlay_offset + offset);
        id = id + 1;
    }
    assert(id == overlay_entry_count(*table)) by (nonlinear_arith)
        requires
            id * 0x20 >= table.overlay_size,
            id > 0 ==> (id - 1) * 0x20 < table.overlay_size,
            id == 0 ==> table.overlay_size == 0,
    ;
    r
}

/// The save memory sizes that a game card can have, in bytes.
pub const SAVE_SIZES: [u32; 9] = [0x000200, 0x002000, 0x008000, 0x010000, 0x020000, 0x040000, 0x080000, 0x100000, 0x800000];

/// Whether `size` is one of the save memory sizes.
pub open spec fn is_save_size(size: u32) -> bool {
    size == 0x200 || size == 0x2000 || size == 0x8000 || size == 0x10000 || size == 0x20000
        || size == 0x40000 || size == 0x80000 || size == 0x100000 || size == 0x800000
}

/// Whether `size` is one of the save memory sizes.
pub fn is_valid_save_size(size: u32) -> (r: bool)
    ensures
        r == is_save_size(size),
{
    let sizes = SAVE_SIZES;
    let mut i: usize = 0;
    while i < 9
        invariant
            i <= 9,
            sizes@ == seq![0x000200u32, 0x002000, 0x008000, 0x010000, 0x020000, 0x040000, 0x080000, 0x100000, 0x800000],
            forall|k: int| 0 <= k < i ==> sizes@[k] != size,
        decreases 9 - i,
    {
        if sizes[i] == size {
            return true;
        }
        i = i + 1;
    }
    false
}

/// The save size of a card: the one its known metadata gives, else the size
/// of the save file that was read; zero where that is not a save memory size.
pub open spec fn spec_settled_save_size(loaded: u32, metadata_size: Option<u32>) -> u32 {
    let size = match metadata_size {
        Some(m) => m,
        None => loaded,
    };
    if is_save_size(size) {
        size
    } else {
        0
    }
}

/// The save memory of a game card and whether it changed since it was last
/// written out.
pub struct SaveBuffer {
    pub data: Vec<u8>,
    pub dirty: bool,
}

impl SaveBuffer {
    /// The save memory as a card is opened: the contents of its save file, if
    /// it could be read, resized to the size that the card's metadata gives
    /// (new bytes 0xFF), with the save size that results.
    pub fn open(file_data: Option<Vec<u8>>, metadata_size: Option<u32>) -> (r: (SaveBuffer, u32))
        ensures
            !r.0.dirty,
            r.1 == spec_settled_save_size(
                match file_data {
                    Some(d) => d@.len() as u32,
                    None => 0u32,
                },
                metadata_size,
            ),
            metadata_size is None ==> r.0.data@ == match file_data {
                Some(d) => d@,
                None => Seq::<u8>::empty(),
            },
            metadata_size is Some ==> r.0.data@ == resized(
                match file_data {
                    Some(d) => d@,
                    None => Seq::<u8>::empty(),
                },
                metadata_size->0 as int,
                0xFF,
            ),
    {
        let (mut data, loaded) = match file_data {
            Some(d) => {
                let n = d.len() as u32;
                (d, n)
            },
            None => (Vec::new(), 0u32),
        };
        let mut size = loaded;
        match metadata_size {
            Some(m) => {
                resize_filled(&mut data, m as usize, 0xFF);
                size = m;
            },
            None => {},
        }
        if !is_valid_save_size(size) {
            size = 0;
        }
        (SaveBuffer { data, dirty: false }, size)
    }

    /// Gives the save memory a new size; new bytes are 0xFF.
    pub fn resize(&mut self, new_size: u32)
        ensures
            final(self).data@ == resized(old(self).data@, new_size as int, 0xFF),
            final(self).dirty == old(self).dirty,
    {
        resize_filled(&mut self.data, new_size as usize, 0xFF);
    }

    /// The byte at `addr`.
    pub fn read(&self, addr: u32) -> (r: u8)
        requires
            addr < self.data@.len(),
        ensures
            r == self.data@[addr as int],
    {
        self.data[addr as usize]
    }

    /// Writes the byte at `addr` and marks the memory changed.
    pub fn write(&mut self, addr: u32, value: u8)
        requires
            addr < old(self).data@.len(),
        ensures
            final(self).data@ == old(self).data@.update(addr as int, value),
            final(self).dirty,
    {
        self.data.set(addr as usize, value);
        self.dirty = true;
    }

    /// Writes `buf` from `addr` on, cut to the size of the save memory, and
    /// marks the memory changed.
    pub fn write_slice(&mut self, addr: u32, buf: &[u8])
        requires
            addr + min_len(buf@.len(), old(self).data@.len()) <= old(self).data@.len(),
        ensures
            final(self).dirty,
            final(self).data@.len() == old(self).data@.len(),
            forall|i: int|
                0 <= i < final(self).data@.len() ==> #[trigger] final(self).data@[i] == if addr <= i
                    < addr + min_len(buf@.len(), old(self).data@.len()) {
                    buf@[i - addr]
                } else {
                    old(self).data@[i]
                },
    {
        let write_len = if buf.len() < self.data.len() {
            buf.len()
        } else {
            self.data.len()
        };
        let start = addr as usize;
        let mut i: usize = 0;
        while i < write_len
            invariant
                i <= write_len,
                write_len == min_len(buf@.len(), old(self).data@.len()),
                start == addr,
                start + write_len <= self.data.len(),
                self.data@.len() == old(self).data@.len(),
                forall|k: int|
                    0 <= k < self.data@.len() ==> #[trigger] self.data@[k] == if start <= k < start
                        + i {
                        buf@[k - start]
                    } else {
                        old(self).data@[k]
                    },
            decreases write_len - i,
        {
            self.data.set(start + i, buf[i]);
            i = i + 1;
        }
        self.dirty = true;
    }

    /// Whether the memory has to be written out; it counts as written from
    /// then on.
    pub fn take_dirty(&mut self) -> (r: bool)
        ensures
            r == old(self).dirty,
            !final(self).dirty,
            final(self).data@ == old(self).data@,
    {
        let r = self.dirty;
        self.dirty = false;
        r
    }
}

/// The smaller of two lengths.
pub open spec fn min_len(a: nat, b: nat) -> nat {
    if a < b {
        a
    } else {
        b
    }
}

/// `s` cut or lengthened to `n` elements, new ones `fill`.
pub open spec fn resized<T>(s: Seq<T>, n: int, fill: T) -> Seq<T> {
    Seq::new(n as nat, |i: int| if i < s.len() { s[i] } else { fill })
}

fn resize_filled(v: &mut Vec<u8>, n: usize, fill: u8)
    ensures
        final(v)@ == resized(old(v)@, n as int, fill),
{
    v.resize(n, fill);
    assert(final(v)@ =~= resized(old(v)@, n as int, fill));
}

/// A game card image picked in the menu, with its header read.
pub struct CartridgePreview {
    pub file_path: String,
    pub file_name: String,
    pub header: CartridgeHeader,
}

impl CartridgePreview {
    /// The preview of the image at `file_path`, from its first 0x200 bytes.
    pub fn from_header_bytes(file_path: String, file_name: String, raw_header: &[u8]) -> (r: Self)
        requires
            raw_header.len() >= HEADER_SIZE,
        ensures
            r.file_path@ == file_path@,
            r.file_name@ == file_name@,
            r.header.parsed_from(raw_header@),
    {
        CartridgePreview { file_path, file_name, header: CartridgeHeader::from_bytes(raw_header) }
    }

    /// Where the icon's pixel data and palette lie in the image: none where
    /// the header gives no icon and title block.
    pub fn icon_offset(&self) -> (r: Option<u64>)
        ensures
            r == if self.header.icon_title_offset == 0 {
                None::<u64>
            } else {
                Some((self.header.icon_title_offset + 0x20) as u64)
            },
    {
        let offset = self.header.icon_title_offset;
        if offset == 0 {
            None
        } else {
            Some(offset as u64 + 0x20)
        }
    }

    /// Where the title lies in the image: none where the header gives no icon
    /// and title block.
    pub fn title_offset(&self) -> (r: Option<u64>)
        ensures
            r == if self.header.icon_title_offset == 0 {
                None::<u64>
            } else {
                Some((self.header.icon_title_offset + 0x340) as u64)
            },
    {
        let offset = self.header.icon_title_offset;
        if offset == 0 {
            None
        } else {
            Some(offset as u64 + 0x340)
        }
    }
}

/// The UTF-16 code units of a title block, read little endian.
pub open spec fn title_units_of(raw: Seq<u8>) -> Seq<u16> {
    Seq::new(raw.len() / 2, |i: int| le_u16(raw, 2 * i))
}

/// The code units of a title block up to the first zero unit.
pub fn title_units(raw: &[u8]) -> (r: Vec<u16>)
    ensures
        r@ == title_units_of(raw@).take(r@.len() as int),
        r@.len() == title_units_of(raw@).len() || title_units_of(raw@)[r@.len() as int] == 0,
        forall|j: int| 0 <= j < r@.len() ==> title_units_of(raw@)[j] != 0,
{
    let n = raw.len() / 2;
    let mut r: Vec<u16> = Vec::new();
    let mut i: usize = 0;
    while i < n
        invariant_except_break
            i <= n,
            n == raw@.len() / 2,
            2 * n <= raw.len(),
            r@.len() == i,
            r@ == title_units_of(raw@).take(i as int),
            forall|j: int| 0 <= j < i ==> title_units_of(raw@)[j] != 0,
        ensures
            r@ == title_units_of(raw@).take(r@.len() as int),
            r@.len() == title_units_of(raw@).len() || title_units_of(raw@)[r@.len() as int] == 0,
            forall|j: int| 0 <= j < r@.len() ==> title_units_of(raw@)[j] != 0,
        decreases n - i,
    {
        let u = read_u16_le(raw, 2 * i);
        if u == 0 {
            break;
        }
        r.push(u);
        i = i + 1;
        assert(r@ =~= title_units_of(raw@).take(i as int));
    }
    r
}

/// Bytes of one page of the image, the unit in which it is read and cached.
pub const CARTRIDGE_PAGE_SIZE: u32 = 4096;

/// A piece of a read that falls in one page: `len` bytes from `page_offset`
/// in the page at `page_addr` go to `start` in the destination.
pub struct PageChunk {
    pub page_addr: u32,
    pub page_offset: u32,
    pub start: usize,
    pub len: usize,
}

/// The piece of a read of `len` bytes from image offset `offset` that
/// starts at `start` in the destination: up to the end of the read or of
/// the page, whichever comes first.
pub open spec fn chunk_at(offset: u32, len: usize, start: int) -> PageChunk {
    let addr = offset + start;
    let page_offset = addr % 4096;
    let room = 4096 - page_offset;
    PageChunk {
        page_addr: (addr - page_offset) as u32,
        page_offset: page_offset as u32,
        start: start as usize,
        len: (if len - start < room {
            len - start
        } else {
            room
        }) as usize,
    }
}

/// The pieces, in order, in which a read of `len` bytes from image offset
/// `offset` goes through the pages of the image: each starts where the one
/// before ended and stays in one page, and together they cover the read.
pub fn page_chunks(offset: u32, len: usize) -> (r: Vec<PageChunk>)
    requires
        len == 0 || offset + len - 1 <= u32::MAX,
    ensures
        forall|k: int| 0 <= k < r@.len() ==> r@[k] == chunk_at(offset, len, r@[k].start as int),
        forall|k: int| 0 <= k < r@.len() ==> r@[k].len > 0,
        r@.len() > 0 ==> r@[0].start == 0,
        forall|k: int| 0 <= k < r@.len() - 1 ==> r@[k + 1].start == r@[k].start + r@[k].len,
        r@.len() == 0 <==> len == 0,
        r@.len() > 0 ==> r@.last().start + r@.last().len == len,
{
    let mut r: Vec<PageChunk> = Vec::new();
    let mut remaining = len;
    while remaining > 0
        invariant
            len == 0 || offset + len - 1 <= u32::MAX,
            remaining <= len,
            forall|k: int| 0 <= k < r@.len() ==> r@[k] == chunk_at(offset, len, r@[k].start as int),
            forall|k: int| 0 <= k < r@.len() ==> r@[k].len > 0,
            r@.len() > 0 ==> r@[0].start == 0,
            forall|k: int| 0 <= k < r@.len() - 1 ==> r@[k + 1].start == r@[k].start + r@[k].len,
            r@.len() == 0 <==> remaining == len,
            r@.len() > 0 ==> r@.last().start + r@.last().len == len - remaining,
        decreases remaining,
    {
        let slice_start = len - remaining;
        let addr = offset + slice_start as u32;
        let page_addr = addr & !(CARTRIDGE_PAGE_SIZE - 1);
        assert(addr & !4095u32 == addr - addr % 4096) by (bit_vector);
        let page_offset = addr - page_addr;
        let room = (CARTRIDGE_PAGE_SIZE - page_offset) as usize;
        let read_amount = if remaining < room {
            remaining
        } else {
            room
        };
        r.push(PageChunk { page_addr, page_offset, start: slice_start, len: read_amount });
        remaining = remaining - read_amount;
    }
    r
}

/// The palette index of pixel `t` of the icon's tile data: low nibble for
/// even pixels, high nibble for odd ones.
pub open spec fn icon_nibble(data: Seq<u8>, t: int) -> int {
    if t % 2 == 0 { (data[t / 2] % 16) as int } else { (data[t / 2] / 16) as int }
}

/// The tile-data pixel shown at position `q` of the 32x32 icon: the icon is
/// four rows of four 8x8 tiles.
pub open spec fn icon_source(q: int) -> int {
    256 * (q / 256) + 8 * ((q % 256) / 32) + 64 * ((q % 32) / 8) + q % 8
}

/// The colour of tile-data pixel `t`: white where its index is 0, otherwise
/// the palette colour `colors` gives for it.
pub open spec fn icon_tile_color(data: Seq<u8>, colors: Seq<u32>, t: int) -> u32 {
    let n = icon_nibble(data, t);
    if n == 0 { 0xFFFF_FFFF } else { colors[n] }
}

/// The palette entry `idx` of the icon's palette bytes, a little-endian
/// halfword.
pub fn icon_palette_entry(palette: &[u8; 0x20], idx: usize) -> (r: u16)
    requires
        idx < 16,
    ensures
        r == palette@[2 * idx as int] + palette@[2 * idx as int + 1] * 256,
{
    palette[2 * idx] as u16 + palette[2 * idx + 1] as u16 * 256
}

/// The 32x32 icon of a game: its 4-bit tile data put through its palette,
/// `colors` being the palette's sixteen colours in RGB8, and the tiles laid
/// out in rows.
pub fn decode_icon(data: &[u8; 0x200], colors: &[u32; 16]) -> (r: Vec<u32>)
    ensures
        r@.len() == 1024,
        forall|q: int| 0 <= q < 1024 ==> #[trigger] r@[q] == icon_tile_color(data@, colors@, icon_source(q)),
{
    let mut tiles: Vec<u32> = Vec::new();
    let mut i: usize = 0;
    while i < 1024
        invariant
            i <= 1024,
            tiles@.len() == i,
            forall|t: int| 0 <= t < i ==> #[trigger] tiles@[t] == icon_tile_color(data@, colors@, t),
        decreases 1024 - i,
    {
        let b = data[i / 2];
        let pal_index = if i % 2 == 0 { b % 16 } else { b / 16 };
        if pal_index == 0 {
            tiles.push(0xFFFF_FFFF);
        } else {
            tiles.push(colors[pal_index as usize]);
        }
        i = i + 1;
    }
    let mut icon: Vec<u32> = Vec::new();
    let mut q: usize = 0;
    while q < 1024
        invariant
            q <= 1024,
            icon@.len() == q,
            tiles@.len() == 1024,
            forall|t: int| 0 <= t < 1024 ==> #[trigger] tiles@[t] == icon_tile_color(data@, colors@, t),
            forall|p: int| 0 <= p < q ==> #[trigger] icon@[p] == icon_tile_color(data@, colors@, icon_source(p)),
        decreases 1024 - q,
    {
        let t = 256 * (q / 256) + 8 * ((q % 256) / 32) + 64 * ((q % 32) / 8) + q % 8;
        assert(t == icon_source(q as int));
        icon.push(tiles[t]);
        q = q + 1;
    }
    icon
}

} // verus!
