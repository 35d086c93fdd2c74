use dsvita::key1::Key1;

#[test]
fn decrypt_undoes_encrypt() {
    let key = Key1::new(0x4A454D41, 2, 2);
    for &(a, b) in &[(0u32, 0u32), (0x12345678, 0x9ABCDEF0), (0xFFFFFFFF, 1)] {
        let mut block = [a, b];
        key.encrypt(&mut block);
        assert_ne!(block, [a, b]);
        key.decrypt(&mut block);
        assert_eq!(block, [a, b]);
    }
}

#[test]
fn level_zero_table_is_zero() {
    let key = Key1::new(0x12345678, 0, 1);
    let mut block = [0u32, 0u32];
    key.encrypt(&mut block);
    assert_eq!(block, [0, 0]);
}

#[test]
fn tables_differ_by_game_code() {
    let a = Key1::new(0x11111111, 3, 2);
    let b = Key1::new(0x22222222, 3, 2);
    let mut x = [5u32, 6u32];
    let mut y = [5u32, 6u32];
    a.encrypt(&mut x);
    b.encrypt(&mut y);
    assert_ne!(x, y);
}
