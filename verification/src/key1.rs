use vstd::prelude::*;

verus! {

/// Words of the KEY1 table: the 18-entry P-array followed by four 256-entry S-boxes.
pub const KEY1_BUF_SIZE: usize = 0x412;

/// The round function: the four bytes of `z` (most significant first) pick
/// one entry of each S-box.
pub open spec fn key1_f(kb: Seq<u32>, z: u32) -> u32 {
    let a = kb[0x12 + (z >> 24u32) as int];
    let b = kb[0x112 + ((z >> 16u32) & 0xFF) as int];
    let c = kb[0x212 + ((z >> 8u32) & 0xFF) as int];
    let d = kb[0x312 + (z & 0xFF) as int];
    (a.wrapping_add(b) ^ c).wrapping_add(d)
}

/// One Feistel round with P-array entry `i`, on the pair `(y, x)`.
pub open spec fn key1_round(kb: Seq<u32>, i: int, st: (u32, u32)) -> (u32, u32) {
    let (y, x) = st;
    let z = kb[i] ^ x;
    (z, key1_f(kb, z) ^ y)
}

/// The encryption rounds with P-array entries `0 .. n`, from `(data[0], data[1])`.
pub open spec fn key1_enc_rounds(kb: Seq<u32>, d: (u32, u32), n: int) -> (u32, u32)
    decreases n,
{
    if n <= 0 {
        d
    } else {
        key1_round(kb, n - 1, key1_enc_rounds(kb, d, n - 1))
    }
}

/// The decryption rounds with P-array entries `0x11` down to `m`, from `(data[0], data[1])`.
pub open spec fn key1_dec_rounds(kb: Seq<u32>, d: (u32, u32), m: int) -> (u32, u32)
    decreases 0x12 - m,
{
    if m >= 0x12 {
        d
    } else {
        key1_round(kb, m, key1_dec_rounds(kb, d, m + 1))
    }
}

/// A block encrypted with the table.
pub open spec fn key1_encrypt(kb: Seq<u32>, d: (u32, u32)) -> (u32, u32) {
    let (y, x) = key1_enc_rounds(kb, d, 0x10);
    (x ^ kb[0x10], y ^ kb[0x11])
}

/// A block decrypted with the table.
pub open spec fn key1_decrypt(kb: Seq<u32>, d: (u32, u32)) -> (u32, u32) {
    let (y, x) = key1_dec_rounds(kb, d, 2);
    (x ^ kb[1], y ^ kb[0])
}

/// `u32::from_be` on the little-endian console: the bytes in reverse order.
pub open spec fn swap_bytes(x: u32) -> u32 {
    ((x & 0xFF) << 24u32) | ((x & 0xFF00) << 8u32) | ((x >> 8u32) & 0xFF00) | (x >> 24u32)
}

/// Refills the table from entry `i` on, two entries at a time, with a block
/// encrypted over and over.
pub open spec fn key1_fill(kb: Seq<u32>, s: (u32, u32), i: int) -> Seq<u32>
    decreases 0x412 - i,
{
    if i >= 0x411 {
        kb
    } else {
        let e = key1_encrypt(kb, s);
        key1_fill(kb.update(i, e.1).update(i + 1, e.0), e, i + 2)
    }
}

/// The table with its first 0x12 entries xored with the byte-swapped key code
/// words (`keycode[i % modulo]`).
pub open spec fn key1_mix(kb: Seq<u32>, kc: Seq<u32>, modulo: int) -> Seq<u32> {
    Seq::new(kb.len(), |i: int| if i < 0x12 { kb[i] ^ swap_bytes(kc[i % modulo]) } else { kb[i] })
}

/// One application of the key code: the table and the key code afterwards.
pub open spec fn key1_apply(kb: Seq<u32>, kc: Seq<u32>, modulo: int) -> (Seq<u32>, Seq<u32>) {
    let e1 = key1_encrypt(kb, (kc[1], kc[2]));
    let kc1 = seq![kc[0], e1.0, e1.1];
    let e0 = key1_encrypt(kb, (kc1[0], kc1[1]));
    let kc2 = seq![e0.0, e0.1, kc1[2]];
    (key1_fill(key1_mix(kb, kc2, modulo), (0, 0), 0), kc2)
}

/// The KEY1 table of a game code at a level (1 to 3 applications of the key code).
pub open spec fn key1_table(id_code: u32, level: u8, modulo: int) -> Seq<u32> {
    let kb0 = Seq::new(KEY1_BUF_SIZE as nat, |i: int| 0u32);
    let kc0 = seq![id_code, id_code >> 1u32, id_code << 1u32];
    let (kb1, kc1) = if level >= 1 { key1_apply(kb0, kc0, modulo) } else { (kb0, kc0) };
    let (kb2, kc2) = if level >= 2 { key1_apply(kb1, kc1, modulo) } else { (kb1, kc1) };
    let kc3 = seq![kc2[0], kc2[1].wrapping_mul(2), kc2[2] >> 1u32];
    if level >= 3 { key1_apply(kb2, kc3, modulo).0 } else { kb2 }
}

/// The KEY1 cipher of the cartridge protocol, a Blowfish variant.
pub struct Key1 {
    key_buf: [u32; 0x412],
}

fn swap_bytes_exec(x: u32) -> (r: u32)
    ensures
        r == swap_bytes(x),
{
    ((x & 0xFF) << 24u32) | ((x & 0xFF00) << 8u32) | ((x >> 8u32) & 0xFF00) | (x >> 24u32)
}

proof fn lemma_byte_indices(z: u32)
    by (bit_vector)
    ensures
        (z >> 24u32) < 0x100,
        ((z >> 16u32) & 0xFF) < 0x100,
        ((z >> 8u32) & 0xFF) < 0x100,
        (z & 0xFF) < 0x100,
{
}

impl Key1 {
    /// The table.
    pub closed spec fn table(&self) -> Seq<u32> {
        self.key_buf@
    }

    /// The table of every cipher has the P-array and the four S-boxes.
    pub proof fn lemma_table_len(&self)
        ensures
            self.table().len() == KEY1_BUF_SIZE,
    {
    }

    fn f(&self, z: u32) -> (r: u32)
        ensures
            r == key1_f(self.table(), z),
    {
        proof {
            lemma_byte_indices(z);
        }
        let mut x = self.key_buf[0x12 + (z >> 24u32) as usize];
        x = x.wrapping_add(self.key_buf[0x112 + ((z >> 16u32) & 0xFF) as usize]);
        x = x ^ self.key_buf[0x212 + ((z >> 8u32) & 0xFF) as usize];
        x.wrapping_add(self.key_buf[0x312 + (z & 0xFF) as usize])
    }

    /// Encrypts a block in place.
    pub fn encrypt(&self, data: &mut [u32; 2])
        ensures
            (final(data)@[0], final(data)@[1]) == key1_encrypt(self.table(), (old(data)@[0], old(data)@[1])),
    {
        let mut y = data[0];
        let mut x = data[1];
        let mut i: usize = 0;
        while i < 0x10
            invariant
                i <= 0x10,
                (y, x) == key1_enc_rounds(self.table(), (old(data)@[0], old(data)@[1]), i as int),
            decreases 0x10 - i,
        {
            let z = self.key_buf[i] ^ x;
            x = self.f(z) ^ y;
            y = z;
            i = i + 1;
        }
        data[0] = x ^ self.key_buf[0x10];
        data[1] = y ^ self.key_buf[0x11];
    }

    /// Decrypts a block in place.
    pub fn decrypt(&self, data: &mut [u32; 2])
        ensures
            (final(data)@[0], final(data)@[1]) == key1_decrypt(self.table(), (old(data)@[0], old(data)@[1])),
    {
        let mut y = data[0];
        let mut x = data[1];
        let mut i: usize = 0x12;
        while i > 0x02
            invariant
                2 <= i <= 0x12,
                (y, x) == key1_dec_rounds(self.table(), (old(data)@[0], old(data)@[1]), i as int),
            decreases i,
        {
            i = i - 1;
            let z = self.key_buf[i] ^ x;
            x = self.f(z) ^ y;
            y = z;
        }
        data[0] = x ^ self.key_buf[0x1];
        data[1] = y ^ self.key_buf[0x0];
    }

    /// Applies a key code to the table; the key code is encrypted on the way.
    pub fn apply_keycode(&mut self, keycode: &mut [u32; 3], modulo: u32)
        requires
            1 <= modulo <= 3,
        ensures
            (final(self).table(), final(keycode)@) == key1_apply(old(self).table(), old(keycode)@, modulo as int),
    {
        let mut pair: [u32; 2] = [keycode[1], keycode[2]];
        self.encrypt(&mut pair);
        keycode[1] = pair[0];
        keycode[2] = pair[1];
        let mut pair: [u32; 2] = [keycode[0], keycode[1]];
        self.encrypt(&mut pair);
        keycode[0] = pair[0];
        keycode[1] = pair[1];
        assert(keycode@ =~= key1_apply(old(self).table(), old(keycode)@, modulo as int).1);

        let ghost kb0 = self.key_buf@;
        let mut i: usize = 0;
        while i < 0x12
            invariant
                i <= 0x12,
                1 <= modulo <= 3,
                self.key_buf@.len() == KEY1_BUF_SIZE,
                forall|k: int| 0 <= k < KEY1_BUF_SIZE ==> #[trigger] self.key_buf@[k] == if k < i {
                    kb0[k] ^ swap_bytes(keycode@[k % (modulo as int)])
                } else {
                    kb0[k]
                },
            decreases 0x12 - i,
        {
            let w = swap_bytes_exec(keycode[i % modulo as usize]);
            let v = self.key_buf[i] ^ w;
            self.key_buf[i] = v;
            i = i + 1;
        }
        assert(self.key_buf@ =~= key1_mix(kb0, keycode@, modulo as int));

        let mut scratch: [u32; 2] = [0, 0];
        let mut i: usize = 0;
        let ghost mixed = self.key_buf@;
        while i < 0x411
            invariant
                i <= 0x412,
                i % 2 == 0,
                self.key_buf@.len() == KEY1_BUF_SIZE,
                key1_fill(self.key_buf@, (scratch@[0], scratch@[1]), i as int) == key1_fill(mixed, (0, 0), 0),
            decreases 0x412 - i,
        {
            let ghost before = self.key_buf@;
            self.encrypt(&mut scratch);
            self.key_buf[i] = scratch[1];
            self.key_buf[i + 1] = scratch[0];
            assert(self.key_buf@ =~= before.update(i as int, scratch@[1]).update(i + 1, scratch@[0]));
            i = i + 2;
        }
    }

    /// The table of a game code at a level, the key code words taken `modulo`
    /// at a time.
    pub fn new(id_code: u32, level: u8, modulo: u32) -> (r: Self)
        requires
            1 <= modulo <= 3,
        ensures
            r.table() == key1_table(id_code, level, modulo as int),
    {
        let mut instance = Key1 { key_buf: [0u32; 0x412] };
        assert(instance.key_buf@ =~= Seq::new(KEY1_BUF_SIZE as nat, |i: int| 0u32));
        let mut keycode: [u32; 3] = [id_code, id_code >> 1u32, id_code << 1u32];
        if level >= 1 {
            instance.apply_keycode(&mut keycode, modulo);
        }
        if level >= 2 {
            instance.apply_keycode(&mut keycode, modulo);
        }
        keycode[1] = keycode[1].wrapping_mul(2);
        keycode[2] = keycode[2] >> 1u32;
        if level >= 3 {
            instance.apply_keycode(&mut keycode, modulo);
        }
        instance
    }
}

/// Exclusive or cancels and commutes.
proof fn lemma_xor(a: u32, b: u32, c: u32)
    by (bit_vector)
    ensures
        (a ^ b) ^ b == a,
        b ^ (a ^ b) == a,
        c ^ ((c ^ a) ^ b) == a ^ b,
        b ^ a == a ^ b,
{
}

/// Before decryption round `j - 1` the state is the encryption state before
/// round `j - 2`, each half xored with a P-array entry.
proof fn lemma_key1_dec_state(kb: Seq<u32>, d: (u32, u32), j: int)
    requires
        kb.len() == KEY1_BUF_SIZE,
        2 <= j <= 0x12,
    ensures
        ({
            let s = key1_enc_rounds(kb, d, j - 2);
            key1_dec_rounds(kb, key1_encrypt(kb, d), j) == (s.1 ^ kb[j - 2], s.0 ^ kb[j - 1])
        }),
    decreases 0x12 - j,
{
    let e = key1_encrypt(kb, d);
    if j < 0x12 {
        lemma_key1_dec_state(kb, d, j + 1);
        let prev = key1_enc_rounds(kb, d, j - 2);
        let cur = key1_enc_rounds(kb, d, j - 1);
        assert(cur == key1_round(kb, j - 2, prev));
        let (ym1, xm1) = prev;
        let km1 = kb[j - 2];
        let zm1 = km1 ^ xm1;
        let fz = key1_f(kb, zm1);
        let ym = zm1;
        let xm = fz ^ ym1;
        assert(cur == (ym, xm));
        let km = kb[j - 1];
        let kj = kb[j];
        let dn = key1_dec_rounds(kb, e, j + 1);
        assert(dn == (xm ^ km, ym ^ kj));
        let z = kj ^ (ym ^ kj);
        lemma_xor(ym, kj, 0);
        lemma_xor(ym1, km, fz);
        lemma_xor(xm1, km1, 0);
        assert(key1_dec_rounds(kb, e, j) == key1_round(kb, j, dn));
        assert(key1_round(kb, j, dn) == (z, key1_f(kb, z) ^ (xm ^ km)));

    }
}

/// Decryption undoes encryption, whatever the table: the Feistel structure
/// runs the same rounds backwards.
pub proof fn law_key1_decrypt_encrypt(kb: Seq<u32>, d: (u32, u32))
    requires
        kb.len() == KEY1_BUF_SIZE,
    ensures
        key1_decrypt(kb, key1_encrypt(kb, d)) == d,
{
    lemma_key1_dec_state(kb, d, 2);
    assert(key1_enc_rounds(kb, d, 0) == d);
    let (y0, x0) = d;
    let k0 = kb[0];
    let k1 = kb[1];
    lemma_xor(y0, k1, 0);
    lemma_xor(x0, k0, 0);
}

/// With any cipher, decrypting a block that it encrypted gives the block back.
pub proof fn law_key1_cipher_round_trip(k: &Key1, d: (u32, u32))
    ensures
        key1_decrypt(k.table(), key1_encrypt(k.table(), d)) == d,
{
    k.lemma_table_len();
    law_key1_decrypt_encrypt(k.table(), d);
}

/// The KEY1 table of a game code is built from the zeroed table by applying
/// the key code `[id, id >> 1, id << 1]` once per level (for level 3 the
/// third time with its second word doubled and its third halved), each
/// application going on with the key code the previous one left.
pub proof fn law_key1_table_from_game_code(id: u32, level: u8, modulo: int)
    ensures
        ({
            let zero = Seq::new(0x412nat, |i: int| 0u32);
            let kc = seq![id, id >> 1u32, id << 1u32];
            let first = key1_apply(zero, kc, modulo);
            let second = key1_apply(first.0, first.1, modulo);
            let kc3 = seq![second.1[0], second.1[1].wrapping_mul(2), second.1[2] >> 1u32];
            &&& level == 0 ==> key1_table(id, level, modulo) == zero
            &&& level == 1 ==> key1_table(id, level, modulo) == first.0
            &&& level == 2 ==> key1_table(id, level, modulo) == second.0
            &&& level >= 3 ==> key1_table(id, level, modulo) == key1_apply(second.0, kc3, modulo).0
        }),
{
}

} // verus!
