use vstd::prelude::*;

verus! {

/// The paletted texture formats: 2, 4 or 8 bits of palette index a texel.
#[derive(Clone, Copy, Debug, PartialEq, Eq, Structural)]
pub enum PalFormat {
    Pal4,
    Pal16,
    Pal256,
}

/// Bits of palette index a texel of `f` takes.
pub open spec fn index_bits(f: PalFormat) -> int {
    match f {
        PalFormat::Pal4 => 2,
        PalFormat::Pal16 => 4,
        PalFormat::Pal256 => 8,
    }
}

/// The palette entries a texture of format `f` can index.
pub open spec fn pal_entries(f: PalFormat) -> int {
    match f {
        PalFormat::Pal4 => 4,
        PalFormat::Pal16 => 16,
        PalFormat::Pal256 => 256,
    }
}

/// The palette index of texel `p` of texel data `texels` in format `f`:
/// texels fill each byte from its low bits up.
pub open spec fn texel_index(f: PalFormat, texels: Seq<u8>, p: int) -> int {
    match f {
        PalFormat::Pal4 => (texels[p / 4] as int / pow2_of(2 * (p % 4))) % 4,
        PalFormat::Pal16 => (texels[p / 2] as int / pow2_of(4 * (p % 2))) % 16,
        PalFormat::Pal256 => texels[p] as int,
    }
}

/// 2 to the power `n`, for the small shifts of texel data.
pub open spec fn pow2_of(n: int) -> int {
    if n == 0 { 1 } else if n == 2 { 4 } else if n == 4 { 16 } else { 64 }
}

/// The BGR555 colour of texel `p`, with bit 15 marking it opaque: the
/// palette entry of its index, or transparent 0 for index 0 where colour 0 is
/// transparent.
pub open spec fn texel_color(f: PalFormat, texels: Seq<u8>, palette: Seq<u16>, color0_transparent: bool, p: int) -> u16 {
    let i = texel_index(f, texels, p);
    if color0_transparent && i == 0 { 0 } else { palette[i] | 0x8000 }
}

/// The palette colours of the first `count` texels of paletted texture data
/// `texels` in format `f`, before their conversion to RGB8.
pub fn palette_texels(f: PalFormat, texels: &[u8], palette: &[u16], color0_transparent: bool, count: usize) -> (r: Vec<u16>)
    requires
        count * index_bits(f) <= 8 * texels@.len(),
        palette@.len() >= pal_entries(f),
    ensures
        r@.len() == count,
        forall|p: int| 0 <= p < count ==> #[trigger] r@[p] == texel_color(f, texels@, palette@, color0_transparent, p),
{
    let mut out: Vec<u16> = Vec::new();
    let mut p: usize = 0;
    while p < count
        invariant
            p <= count,
            out@.len() == p,
            count * index_bits(f) <= 8 * texels@.len(),
            palette@.len() >= pal_entries(f),
            forall|q: int| 0 <= q < p ==> #[trigger] out@[q] == texel_color(f, texels@, palette@, color0_transparent, q),
        decreases count - p,
    {
        let idx: usize = match f {
            PalFormat::Pal4 => {
                let b = texels[p / 4];
                let s = p % 4;
                let d: u8 = if s == 0 { 1 } else if s == 1 { 4 } else if s == 2 { 16 } else { 64 };
                ((b / d) % 4) as usize
            },
            PalFormat::Pal16 => {
                let b = texels[p / 2];
                let d: u8 = if p % 2 == 0 { 1 } else { 16 };
                ((b / d) % 16) as usize
            },
            PalFormat::Pal256 => texels[p] as usize,
        };
        assert(idx == texel_index(f, texels@, p as int));
        let c: u16 = if color0_transparent && idx == 0 {
            0
        } else {
            palette[idx] | 0x8000
        };
        out.push(c);
        p = p + 1;
    }
    out
}

/// The translucent texture formats: 3 bits of alpha and 5 of palette index,
/// or 5 of alpha and 3 of index.
#[derive(Clone, Copy, Debug, PartialEq, Eq, Structural)]
pub enum AlphaFormat {
    A3I5,
    A5I3,
}

/// The colour and alpha bits of texel byte `t` in format `f`.
pub open spec fn alpha_texel(f: AlphaFormat, palette: Seq<u16>, t: u8) -> (u16, u8) {
    match f {
        AlphaFormat::A3I5 => (palette[(t % 32) as int], t / 32),
        AlphaFormat::A5I3 => (palette[(t % 8) as int], t / 8),
    }
}

/// The palette colours and the alpha bits of the first `count` texels of
/// translucent texture data, before their conversion to RGBA8.
pub fn alpha_texels(f: AlphaFormat, texels: &[u8], palette: &[u16], count: usize) -> (r: Vec<(u16, u8)>)
    requires
        count <= texels@.len(),
        palette@.len() >= 32,
    ensures
        r@.len() == count,
        forall|p: int| 0 <= p < count ==> #[trigger] r@[p] == alpha_texel(f, palette@, texels@[p]),
{
    let mut out: Vec<(u16, u8)> = Vec::new();
    let mut p: usize = 0;
    while p < count
        invariant
            p <= count,
            count <= texels@.len(),
            palette@.len() >= 32,
            out@.len() == p,
            forall|q: int| 0 <= q < p ==> #[trigger] out@[q] == alpha_texel(f, palette@, texels@[q]),
        decreases count - p,
    {
        let t = texels[p];
        let e = match f {
            AlphaFormat::A3I5 => (palette[(t % 32) as usize], t / 32),
            AlphaFormat::A5I3 => (palette[(t % 8) as usize], t / 8),
        };
        out.push(e);
        p = p + 1;
    }
    out
}

} // verus!
