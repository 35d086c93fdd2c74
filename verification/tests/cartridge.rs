use dsvita::cartridge::Cartridge;
use dsvita::cartridge_io::{
    decode_icon, icon_palette_entry,
    is_valid_save_size, overlay_entry_offsets, page_chunks, title_units, ArmOverlay, CartridgeHeader, CartridgePreview,
    FsOverlayInfoHeader, SaveBuffer,
};
use dsvita::cartridge_reader::{decrypt_secure_area, has_secure_area};
use dsvita::key1::Key1;

fn put32(b: &mut [u8], o: usize, v: u32) {
    b[o..o + 4].copy_from_slice(&v.to_le_bytes());
}

fn sample_header() -> Vec<u8> {
    let mut raw = vec![0u8; 0x200];
    raw[..12].copy_from_slice(b"TESTGAME\0\0\0\0");
    raw[0xC..0x10].copy_from_slice(b"ATSE");
    put32(&mut raw, 0x20, 0x4000);
    put32(&mut raw, 0x24, 0x0200_0800);
    put32(&mut raw, 0x28, 0x0200_0000);
    put32(&mut raw, 0x2C, 0x1234);
    put32(&mut raw, 0x30, 0x8000);
    put32(&mut raw, 0x50, 0x9000);
    put32(&mut raw, 0x54, 0x40);
    put32(&mut raw, 0x68, 0xA000);
    raw[0x15C] = 0x56;
    raw[0x15D] = 0xCF;
    raw
}

#[test]
fn header_fields_from_bytes() {
    let raw = sample_header();
    let h = CartridgeHeader::from_bytes(&raw);
    assert_eq!(&h.game_title, b"TESTGAME\0\0\0\0");
    assert_eq!(&h.game_code, b"ATSE");
    assert_eq!(h.game_code_word(), u32::from_le_bytes(*b"ATSE"));
    assert_eq!(h.arm9_values.rom_offset, 0x4000);
    assert_eq!(h.arm9_values.entry_address, 0x0200_0800);
    assert_eq!(h.arm9_values.ram_address, 0x0200_0000);
    assert_eq!(h.arm9_values.size, 0x1234);
    assert_eq!(h.arm7_values.rom_offset, 0x8000);
    assert_eq!(h.arm9_overlay.overlay_offset, 0x9000);
    assert_eq!(h.arm9_overlay.overlay_size, 0x40);
    assert_eq!(h.icon_title_offset, 0xA000);
    assert_eq!(h.nintendo_logo_checksum, 0xCF56);
}

#[test]
fn full_header_area() {
    let mut raw = vec![0u8; 0xFF8];
    raw[..12].copy_from_slice(b"ANOTHERGAME!");
    put32(&mut raw, 0x2C, 77);
    raw[0x8C] = 0x34;
    raw[0x8D] = 0x12;
    let c = Cartridge::from_header_bytes(&raw);
    assert_eq!(&c.header.game_title, b"ANOTHERGAME!");
    assert_eq!(c.header.arm9_values.size, 77);
    assert_eq!(c.header.nand_end_rom_area, 0x1234);
}

#[test]
fn preview_offsets() {
    let raw = sample_header();
    let p = CartridgePreview::from_header_bytes("/roms/a.nds".to_string(), "a.nds".to_string(), &raw);
    assert_eq!(p.icon_offset(), Some(0xA020));
    assert_eq!(p.title_offset(), Some(0xA340));
    let mut raw = raw;
    put32(&mut raw, 0x68, 0);
    let p = CartridgePreview::from_header_bytes("x".to_string(), "x".to_string(), &raw);
    assert_eq!(p.icon_offset(), None);
    assert_eq!(p.title_offset(), None);
}

#[test]
fn overlay_entries() {
    let mut raw = [0u8; 0x20];
    for i in 0..8 {
        put32(&mut raw, i * 4, 0x100 + i as u32);
    }
    let e = FsOverlayInfoHeader::from_bytes(&raw);
    assert_eq!(e.id, 0x100);
    assert_eq!(e.ram_address, 0x101);
    assert_eq!(e.compressed_flag, 0x107);
    let e = FsOverlayInfoHeader { id: 0, ram_address: 0x1000, ram_size: 0x100, bss_size: 0x20, sinit_init: 0, sinit_init_end: 0, file_id: 0, compressed_flag: 0 };
    assert!(e.is_in_range(0x1000));
    assert!(e.is_in_range(0x10FF));
    assert!(!e.is_in_range(0x1100));
    assert!(!e.is_in_range(0xFFF));
    assert_eq!(e.ram_address_end(), 0x1100);
    assert_eq!(e.total_size(), 0x120);
    assert_eq!(e.address_end(), 0x1120);
    assert_eq!(overlay_entry_offsets(&ArmOverlay { overlay_offset: 0x9000, overlay_size: 0x40 }), vec![0x9000, 0x9020]);
    assert_eq!(overlay_entry_offsets(&ArmOverlay { overlay_offset: 0x9000, overlay_size: 0x41 }), vec![0x9000, 0x9020, 0x9040]);
    assert!(overlay_entry_offsets(&ArmOverlay { overlay_offset: 0x9000, overlay_size: 0 }).is_empty());
}

#[test]
fn reads_split_at_page_boundaries() {
    let chunks = page_chunks(0xFF0, 0x30);
    let got: Vec<(u32, u32, usize, usize)> = chunks.iter().map(|c| (c.page_addr, c.page_offset, c.start, c.len)).collect();
    assert_eq!(got, vec![(0x0, 0xFF0, 0, 0x10), (0x1000, 0, 0x10, 0x20)]);
    let chunks = page_chunks(0x2000, 0x2001);
    assert_eq!(chunks.len(), 3);
    assert_eq!(chunks[2].len, 1);
    assert!(page_chunks(5, 0).is_empty());
}

#[test]
fn save_sizes_and_buffer() {
    assert!(is_valid_save_size(0x200));
    assert!(is_valid_save_size(0x800000));
    assert!(!is_valid_save_size(0x300));
    assert!(!is_valid_save_size(0));
    let (buf, size) = SaveBuffer::open(Some(vec![1, 2, 3]), None);
    assert_eq!(size, 0);
    assert_eq!(buf.data, vec![1, 2, 3]);
    let (mut buf, size) = SaveBuffer::open(Some(vec![1, 2, 3]), Some(0x200));
    assert_eq!(size, 0x200);
    assert_eq!(buf.data.len(), 0x200);
    assert_eq!(&buf.data[..4], &[1, 2, 3, 0xFF]);
    assert!(!buf.dirty);
    buf.write(4, 9);
    assert_eq!(buf.read(4), 9);
    assert!(buf.take_dirty());
    assert!(!buf.take_dirty());
    buf.write_slice(0x1FE, &[7, 7]);
    assert_eq!(&buf.data[0x1FE..], &[7, 7]);
    buf.resize(2);
    assert_eq!(buf.data, vec![1, 2]);
    let (buf, size) = SaveBuffer::open(None, None);
    assert_eq!(size, 0);
    assert!(buf.data.is_empty());
}

#[test]
fn title_stops_at_nul() {
    let raw = [0x41, 0x00, 0x42, 0x00, 0x00, 0x00, 0x43, 0x00];
    assert_eq!(title_units(&raw), vec![0x41, 0x42]);
    let raw = [0x41, 0x30, 0x42, 0x00];
    assert_eq!(title_units(&raw), vec![0x3041, 0x42]);
}

#[test]
fn secure_area_is_decrypted_in_place() {
    assert!(has_secure_area(0x4000));
    assert!(has_secure_area(0x7FFF));
    assert!(!has_secure_area(0x8000));
    assert!(!has_secure_area(0x3FFF));
    let id = u32::from_le_bytes(*b"ATSE");
    let plain: Vec<u32> = (0..0x200u32).map(|i| i.wrapping_mul(0x9E37_79B9)).collect();
    // Encrypt as the card holds it: every block with the level 3 table, then
    // the first block again with the level 2 table.
    let k2 = Key1::new(id, 2, 2);
    let k3 = Key1::new(id, 3, 2);
    let mut words = plain.clone();
    for i in (0..0x200).step_by(2) {
        let mut b = [words[i], words[i + 1]];
        k3.encrypt(&mut b);
        words[i] = b[0];
        words[i + 1] = b[1];
    }
    let mut b = [words[0], words[1]];
    k2.encrypt(&mut b);
    words[0] = b[0];
    words[1] = b[1];
    let mut code: Vec<u8> = words.iter().flat_map(|w| w.to_le_bytes()).collect();
    code.extend_from_slice(&[1, 2, 3]);
    decrypt_secure_area(&mut code, id);
    let back: Vec<u32> = code[..0x800].chunks(4).map(|c| u32::from_le_bytes([c[0], c[1], c[2], c[3]])).collect();
    assert_eq!(back, plain);
    assert_eq!(&code[0x800..], &[1, 2, 3]);
}

#[test]
fn icons_decode_tiles_through_the_palette() {
    let mut data = [0u8; 0x200];
    // First tile, first row: pixels 0..8 with indices 1, 2, 0, 3, ...
    data[0] = 0x21;
    data[1] = 0x30;
    // Second tile (tile data pixels 64..): first pixel index 5.
    data[32] = 0x05;
    // Fifth tile (second tile row, first tile): tile data pixel 256.
    data[128] = 0x04;
    let mut colors = [0u32; 16];
    for (i, c) in colors.iter_mut().enumerate() {
        *c = 0x1000 + i as u32;
    }
    let icon = decode_icon(&data, &colors);
    assert_eq!(icon.len(), 1024);
    assert_eq!(icon[0], 0x1001);
    assert_eq!(icon[1], 0x1002);
    assert_eq!(icon[2], 0xFFFF_FFFF);
    assert_eq!(icon[3], 0x1003);
    // The second tile sits right of the first one.
    assert_eq!(icon[8], 0x1005);
    // The tile of the second tile row starts at icon row 8.
    assert_eq!(icon[256], 0x1004);
    let mut palette = [0u8; 0x20];
    palette[6] = 0x34;
    palette[7] = 0x12;
    assert_eq!(icon_palette_entry(&palette, 3), 0x1234);
}
