use vstd::prelude::*;
use crate::cartridge_layout::{le_u16, le_u32, read_u16_le, read_u32_le, read_bytes};

pub use crate::cartridge_layout::{ArmValues, ArmOverlay};

verus! {

/// Bytes of the header area as this loader lays it out.
pub const HEADER_SIZE: usize = 0xFF8;

/// The header area of a game card image: the first 0xFF8 bytes, fields packed one after another.
pub struct CartridgeHeader {
    pub game_title: [u8; 0xc],
    pub game_code: [u8; 0x4],
    pub marker_code: [u8; 0x2],
    pub unit_code: u8,
    pub encryption_seed_select: u8,
    pub device_capacity: u8,
    pub reserved1: [u8; 0x7],
    pub reserved2: u8,
    pub nds_region: u8,
    pub rom_version: u8,
    pub autostart: u8,
    pub arm9_values: ArmValues,
    pub arm7_values: ArmValues,
    pub file_name_table_offset: u32,
    pub file_name_table_size: u32,
    pub file_allocation_table_offset: u32,
    pub file_allocation_table_size: u32,
    pub arm9_overlay: ArmOverlay,
    pub arm7_overlay: ArmOverlay,
    pub port_setting_normal_commands: u32,
    pub port_setting_key1_commands: u32,
    pub icon_title_offset: u32,
    pub secure_area_checksum: u16,
    pub secure_area_delay: u16,
    pub arm9_auto_load_list_hook_ram_address: u32,
    pub arm7_auto_load_list_hook_ram_address: u32,
    pub secure_area_disable: [u8; 0x8],
    pub total_used_rom_size: u32,
    pub rom_header_size: u32,
    pub unknown: u32,
    pub nand_end_rom_area: u16,
    pub nand_start_of_rw_area: u16,
    pub reserved3: [u8; 0x18],
    pub reserved4: [u8; 0x10],
    pub nintendo_logo: [u8; 0x9c],
    pub nintendo_logo_checksum: u16,
    pub header_checksum: u16,
    pub debug_rom_offset: u32,
    pub debug_size: u32,
    pub debug_ram_address: u32,
    pub reserved5: [u8; 0x4],
    pub reserved6: [u8; 0x90],
    pub reserved7: [u8; 0xe00],
}

impl CartridgeHeader {
    /// Whether each field holds what lies at its place in `raw` (little endian).
    pub open spec fn parsed_from(&self, raw: Seq<u8>) -> bool {
        &&& self.game_title@ == raw.subrange(0x0, 0xc)
        &&& self.game_code@ == raw.subrange(0xc, 0x10)
        &&& self.marker_code@ == raw.subrange(0x10, 0x12)
        &&& self.unit_code == raw[0x12]
        &&& self.encryption_seed_select == raw[0x13]
        &&& self.device_capacity == raw[0x14]
        &&& self.reserved1@ == raw.subrange(0x15, 0x1c)
        &&& self.reserved2 == raw[0x1c]
        &&& self.nds_region == raw[0x1d]
        &&& self.rom_version == raw[0x1e]
        &&& self.autostart == raw[0x1f]
        &&& self.arm9_values == ArmValues::spec_decode(raw, 0x20)
        &&& self.arm7_values == ArmValues::spec_decode(raw, 0x30)
        &&& self.file_name_table_offset == le_u32(raw, 0x40)
        &&& self.file_name_table_size == le_u32(raw, 0x44)
        &&& self.file_allocation_table_offset == le_u32(raw, 0x48)
        &&& self.file_allocation_table_size == le_u32(raw, 0x4c)
        &&& self.arm9_overlay.overlay_offset == le_u32(raw, 0x50)
        &&& self.arm9_overlay.overlay_size == le_u32(raw, 0x54)
        &&& self.arm7_overlay.overlay_offset == le_u32(raw, 0x58)
        &&& self.arm7_overlay.overlay_size == le_u32(raw, 0x5c)
        &&& self.port_setting_normal_commands == le_u32(raw, 0x60)
        &&& self.port_setting_key1_commands == le_u32(raw, 0x64)
        &&& self.icon_title_offset == le_u32(raw, 0x68)
        &&& self.secure_area_checksum == le_u16(raw, 0x6c)
        &&& self.secure_area_delay == le_u16(raw, 0x6e)
        &&& self.arm9_auto_load_list_hook_ram_address == le_u32(raw, 0x70)
        &&& self.arm7_auto_load_list_hook_ram_address == le_u32(raw, 0x74)
        &&& self.secure_area_disable@ == raw.subrange(0x78, 0x80)
        &&& self.total_used_rom_size == le_u32(raw, 0x80)
        &&& self.rom_header_size == le_u32(raw, 0x84)
        &&& self.unknown == le_u32(raw, 0x88)
        &&& self.nand_end_rom_area == le_u16(raw, 0x8c)
        &&& self.nand_start_of_rw_area == le_u16(raw, 0x8e)
        &&& self.reserved3@ == raw.subrange(0x90, 0xa8)
        &&& self.reserved4@ == raw.subrange(0xa8, 0xb8)
        &&& self.nintendo_logo@ == raw.subrange(0xb8, 0x154)
        &&& self.nintendo_logo_checksum == le_u16(raw, 0x154)
        &&& self.header_checksum == le_u16(raw, 0x156)
        &&& self.debug_rom_offset == le_u32(raw, 0x158)
        &&& self.debug_size == le_u32(raw, 0x15c)
        &&& self.debug_ram_address == le_u32(raw, 0x160)
        &&& self.reserved5@ == raw.subrange(0x164, 0x168)
        &&& self.reserved6@ == raw.subrange(0x168, 0x1f8)
        &&& self.reserved7@ == raw.subrange(0x1f8, 0xff8)
    }

    /// The header laid over the first 0xff8 bytes of `raw`.
    pub fn from_bytes(raw: &[u8]) -> (r: Self)
        requires
            raw.len() >= 0xff8,
        ensures
            r.parsed_from(raw@),
    {
        CartridgeHeader {
            game_title: read_bytes::<12>(raw, 0x0),
            game_code: read_bytes::<4>(raw, 0xc),
            marker_code: read_bytes::<2>(raw, 0x10),
            unit_code: raw[0x12],
            encryption_seed_select: raw[0x13],
            device_capacity: raw[0x14],
            reserved1: read_bytes::<7>(raw, 0x15),
            reserved2: raw[0x1c],
            nds_region: raw[0x1d],
            rom_version: raw[0x1e],
            autostart: raw[0x1f],
            arm9_values: ArmValues::decode(raw, 0x20),
            arm7_values: ArmValues::decode(raw, 0x30),
            file_name_table_offset: read_u32_le(raw, 0x40),
            file_name_table_size: read_u32_le(raw, 0x44),
            file_allocation_table_offset: read_u32_le(raw, 0x48),
            file_allocation_table_size: read_u32_le(raw, 0x4c),
            arm9_overlay: ArmOverlay::decode(raw, 0x50),
            arm7_overlay: ArmOverlay::decode(raw, 0x58),
            port_setting_normal_commands: read_u32_le(raw, 0x60),
            port_setting_key1_commands: read_u32_le(raw, 0x64),
            icon_title_offset: read_u32_le(raw, 0x68),
            secure_area_checksum: read_u16_le(raw, 0x6c),
            secure_area_delay: read_u16_le(raw, 0x6e),
            arm9_auto_load_list_hook_ram_address: read_u32_le(raw, 0x70),
            arm7_auto_load_list_hook_ram_address: read_u32_le(raw, 0x74),
            secure_area_disable: read_bytes::<8>(raw, 0x78),
            total_used_rom_size: read_u32_le(raw, 0x80),
            rom_header_size: read_u32_le(raw, 0x84),
            unknown: read_u32_le(raw, 0x88),
            nand_end_rom_area: read_u16_le(raw, 0x8c),
            nand_start_of_rw_area: read_u16_le(raw, 0x8e),
            reserved3: read_bytes::<24>(raw, 0x90),
            reserved4: read_bytes::<16>(raw, 0xa8),
            nintendo_logo: read_bytes::<156>(raw, 0xb8),
            nintendo_logo_checksum: read_u16_le(raw, 0x154),
            header_checksum: read_u16_le(raw, 0x156),
            debug_rom_offset: read_u32_le(raw, 0x158),
            debug_size: read_u32_le(raw, 0x15c),
            debug_ram_address: read_u32_le(raw, 0x160),
            reserved5: read_bytes::<4>(raw, 0x164),
            reserved6: read_bytes::<144>(raw, 0x168),
            reserved7: read_bytes::<3584>(raw, 0x1f8),
        }
    }
}


/// A game card image, known by its header.
pub struct Cartridge {
    pub header: CartridgeHeader,
}

impl Cartridge {
    /// The cartridge whose image starts with `raw_header`.
    pub fn from_header_bytes(raw_header: &[u8]) -> (r: Self)
        requires
            raw_header.len() >= HEADER_SIZE,
        ensures
            r.header.parsed_from(raw_header@),
    {
        Cartridge { header: CartridgeHeader::from_bytes(raw_header) }
    }
}

} // verus!
