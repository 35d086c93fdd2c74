use dsvita::graphics::gpu_3d::texels::{alpha_texels, palette_texels, AlphaFormat, PalFormat};

fn palette() -> Vec<u16> {
    (0..256u16).map(|i| i * 3).collect()
}

#[test]
fn paletted_texels_take_their_palette_colours() {
    let pal = palette();
    // Pal4: byte 0b11_10_01_00 holds indices 0, 1, 2, 3.
    let c = palette_texels(PalFormat::Pal4, &[0b1110_0100], &pal, false, 4);
    assert_eq!(c, vec![0x8000, 3 | 0x8000, 6 | 0x8000, 9 | 0x8000]);
    let c = palette_texels(PalFormat::Pal4, &[0b1110_0100], &pal, true, 4);
    assert_eq!(c[0], 0);
    // Pal16: low nibble first.
    let c = palette_texels(PalFormat::Pal16, &[0x52], &pal, false, 2);
    assert_eq!(c, vec![6 | 0x8000, 15 | 0x8000]);
    let c = palette_texels(PalFormat::Pal256, &[200, 0], &pal, true, 2);
    assert_eq!(c, vec![600 | 0x8000, 0]);
}

#[test]
fn translucent_texels_split_alpha_and_index() {
    let pal = palette();
    let c = alpha_texels(AlphaFormat::A3I5, &[0b101_00011], &pal, 1);
    assert_eq!(c, vec![(9, 5)]);
    let c = alpha_texels(AlphaFormat::A5I3, &[0b10001_110], &pal, 1);
    assert_eq!(c, vec![(18, 17)]);
}
