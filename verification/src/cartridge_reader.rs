use vstd::prelude::*;
use crate::cartridge_layout::{le_u32, read_u32_le};
use crate::key1::{key1_decrypt, key1_table};

pub use crate::cartridge_io::CartridgeHeader;
pub use crate::cartridge_layout::{ArmValues, ArmOverlay};
pub use crate::key1::Key1;

verus! {

/// Bytes of the encrypted start of the ARM9 boot code.
pub const SECURE_AREA_SIZE: usize = 0x800;

/// Whether boot code at `rom_offset` starts with the encrypted secure area.
pub open spec fn is_secure_area_offset(rom_offset: u32) -> bool {
    0x4000 <= rom_offset < 0x8000
}

/// Whether boot code at `rom_offset` starts with the encrypted secure area.
pub fn has_secure_area(rom_offset: u32) -> (r: bool)
    ensures
        r == is_secure_area_offset(rom_offset),
{
    0x4000 <= rom_offset && rom_offset < 0x8000
}

/// The first 0x200 words of some code, read little endian.
pub open spec fn secure_area_words(code: Seq<u8>) -> Seq<u32> {
    Seq::new(0x200, |i: int| le_u32(code, 4 * i))
}

/// The secure area words decrypted: the first block with the level 2 table,
/// then every block, the first one again among them, with the level 3 table.
pub open spec fn decrypted_secure_area(words: Seq<u32>, id_code: u32) -> Seq<u32> {
    let first = key1_decrypt(key1_table(id_code, 2, 2), (words[0], words[1]));
    Seq::new(
        0x200,
        |i: int|
            {
                let b = i / 2;
                let block = if b == 0 {
                    first
                } else {
                    (words[2 * b], words[2 * b + 1])
                };
                let d = key1_decrypt(key1_table(id_code, 3, 2), block);
                if i % 2 == 0 {
                    d.0
                } else {
                    d.1
                }
            },
    )
}

/// The four bytes of a word, least significant first.
pub open spec fn le_bytes(w: u32) -> Seq<u8> {
    seq![(w & 0xFF) as u8, ((w >> 8u32) & 0xFF) as u8, ((w >> 16u32) & 0xFF) as u8, (w >> 24u32) as u8]
}

proof fn lemma_le_round_trip(s: Seq<u8>, o: int, w: u32)
    requires
        0 <= o,
        o + 4 <= s.len(),
        s.subrange(o, o + 4) == le_bytes(w),
    ensures
        le_u32(s, o) == w,
{
    assert(s[o] == s.subrange(o, o + 4)[0]);
    assert(s[o + 1] == s.subrange(o, o + 4)[1]);
    assert(s[o + 2] == s.subrange(o, o + 4)[2]);
    assert(s[o + 3] == s.subrange(o, o + 4)[3]);
    let b0 = s[o];
    let b1 = s[o + 1];
    let b2 = s[o + 2];
    let b3 = s[o + 3];
    assert((b0 as u32) | ((b1 as u32) << 8u32) | ((b2 as u32) << 16u32) | ((b3 as u32) << 24u32)
        == w) by (bit_vector)
        requires
            b0 == (w & 0xFF) as u8,
            b1 == ((w >> 8u32) & 0xFF) as u8,
            b2 == ((w >> 16u32) & 0xFF) as u8,
            b3 == (w >> 24u32) as u8,
    ;
}

fn write_u32_le(v: &mut Vec<u8>, o: usize, w: u32)
    requires
        o + 4 <= old(v).len(),
    ensures
        final(v)@.len() == old(v)@.len(),
        final(v)@.subrange(o as int, o + 4) == le_bytes(w),
        forall|i: int|
            0 <= i < final(v)@.len() && !(o <= i < o + 4) ==> #[trigger] final(v)@[i] == old(v)@[i],
{
    v.set(o, (w & 0xFF) as u8);
    v.set(o + 1, ((w >> 8u32) & 0xFF) as u8);
    v.set(o + 2, ((w >> 16u32) & 0xFF) as u8);
    v.set(o + 3, (w >> 24u32) as u8);
    assert(final(v)@.subrange(o as int, o + 4) =~= le_bytes(w));
}

/// Decrypts the secure area at the start of ARM9 boot code read from the
/// image, in place; `id_code` is the game code word.
pub fn decrypt_secure_area(code: &mut Vec<u8>, id_code: u32)
    requires
        old(code)@.len() >= SECURE_AREA_SIZE,
    ensures
        final(code)@.len() == old(code)@.len(),
        forall|k: int|
            0 <= k < 0x200 ==> #[trigger] final(code)@.subrange(4 * k, 4 * k + 4) == le_bytes(
                decrypted_secure_area(secure_area_words(old(code)@), id_code)[k],
            ),
        forall|i: int|
            SECURE_AREA_SIZE <= i < final(code)@.len() ==> #[trigger] final(code)@[i] == old(
                code,
            )@[i],
{
    let ghost words = secure_area_words(old(code)@);
    let ghost result = decrypted_secure_area(words, id_code);
    let key2 = Key1::new(id_code, 2, 2);
    let mut block: [u32; 2] = [read_u32_le(code.as_slice(), 0), read_u32_le(code.as_slice(), 4)];
    key2.decrypt(&mut block);
    let ghost first = (block@[0], block@[1]);
    write_u32_le(code, 0, block[0]);
    let ghost mid = code@;
    write_u32_le(code, 4, block[1]);
    proof {
        assert(code@.subrange(0, 4) =~= mid.subrange(0, 4));
        lemma_le_round_trip(code@, 0, first.0);
        lemma_le_round_trip(code@, 4, first.1);
        assert forall|k: int| 2 <= k < 0x200 implies le_u32(code@, 4 * k) == words[k] by {
            assert(code@.subrange(4 * k, 4 * k + 4) =~= old(code)@.subrange(4 * k, 4 * k + 4));
        }
    }
    let key3 = Key1::new(id_code, 3, 2);
    let mut i: usize = 0;
    while i < 0x200
        invariant
            i <= 0x200,
            i % 2 == 0,
            key3.table() == key1_table(id_code, 3, 2),
            first == key1_decrypt(key1_table(id_code, 2, 2), (words[0], words[1])),
            words == secure_area_words(old(code)@),
            result == decrypted_secure_area(words, id_code),
            code@.len() == old(code)@.len(),
            old(code)@.len() >= SECURE_AREA_SIZE,
            i == 0 ==> le_u32(code@, 0) == first.0 && le_u32(code@, 4) == first.1,
            forall|k: int| i <= k < 0x200 && (k >= 2 || i > 0) ==> le_u32(code@, 4 * k) == words[k],
            forall|k: int|
                0 <= k < i ==> #[trigger] code@.subrange(4 * k, 4 * k + 4) == le_bytes(result[k]),
            forall|j: int|
                SECURE_AREA_SIZE <= j < code@.len() ==> #[trigger] code@[j] == old(code)@[j],
        decreases 0x200 - i,
    {
        let ghost before = code@;
        let mut block: [u32; 2] = [
            read_u32_le(code.as_slice(), 4 * i),
            read_u32_le(code.as_slice(), 4 * i + 4),
        ];
        let ghost input = (block@[0], block@[1]);
        assert(input == if i == 0 {
            first
        } else {
            (words[i as int], words[i + 1])
        });
        key3.decrypt(&mut block);
        write_u32_le(code, 4 * i, block[0]);
        let ghost mid = code@;
        write_u32_le(code, 4 * i + 4, block[1]);
        proof {
            assert(code@.subrange(4 * i as int, 4 * i + 4) =~= mid.subrange(4 * i as int, 4 * i + 4));
            let b = i as int / 2;
            assert(b * 2 == i);
            assert(result[i as int] == block@[0]);
            assert(result[i + 1] == block@[1]);
            assert forall|k: int| 0 <= k < i + 2 implies #[trigger] code@.subrange(4 * k, 4 * k + 4)
                == le_bytes(result[k]) by {
                if k < i {
                    assert(code@.subrange(4 * k, 4 * k + 4) =~= before.subrange(4 * k, 4 * k + 4));
                }
            }
            assert forall|k: int| i + 2 <= k < 0x200 implies le_u32(code@, 4 * k) == words[k] by {
                assert(code@.subrange(4 * k, 4 * k + 4) =~= before.subrange(4 * k, 4 * k + 4));
                assert(code@[4 * k] == before[4 * k]);
                assert(code@[4 * k + 1] == before[4 * k + 1]);
                assert(code@[4 * k + 2] == before[4 * k + 2]);
                assert(code@[4 * k + 3] == before[4 * k + 3]);
            }
        }
        i = i + 2;
    }
}

} // verus!
