use dsvita::cheats::{parse, serialize, update_any_enabled, Cheat, CheatList};

#[test]
fn parse_noods_format() {
    let cheats = parse("[Max money]+\n0223CC44 000F423F\n1223CC48 0000270F\n\n[Walk anywhere]-\n923FDFFA 00000002\nD2000000 00000000\n\n");
    assert_eq!(cheats.len(), 2);
    assert_eq!(cheats[0].name, "Max money");
    assert!(cheats[0].enabled);
    assert_eq!(cheats[0].code, vec![0x0223CC44, 0x000F423F, 0x1223CC48, 0x0000270F]);
    assert_eq!(cheats[1].name, "Walk anywhere");
    assert!(!cheats[1].enabled);
    assert_eq!(cheats[1].code, vec![0x923FDFFA, 0x00000002, 0xD2000000, 0x00000000]);
}

#[test]
fn parse_tolerates_junk() {
    let cheats = parse("02000000 00000001\nhello\n[A]+\nnothex 12345678\n0200000C 00000002\n");
    assert_eq!(cheats.len(), 1);
    assert_eq!(cheats[0].code, vec![0x12345678, 0x0200000C, 0x00000002]);
}

#[test]
fn serialize_parse_roundtrip() {
    let original = vec![
        Cheat {
            name: "First".to_string(),
            code: vec![0x020F0000, 0xDEADBEEF],
            enabled: true,
        },
        Cheat {
            name: "Second [hard] mode".to_string(),
            code: vec![0xD3000000, 0x02100000, 0xD6000000, 0x00000000],
            enabled: false,
        },
    ];
    let reparsed = parse(&serialize(&original));
    assert_eq!(reparsed.len(), original.len());
    for (a, b) in reparsed.iter().zip(&original) {
        assert_eq!(a.name, b.name);
        assert_eq!(a.code, b.code);
        assert_eq!(a.enabled, b.enabled);
    }
}

#[test]
fn parse_header_without_closing_bracket_is_skipped() {
    let cheats = parse("[Broken\n[Good]+\n01000000 00000002\n");
    assert_eq!(cheats.len(), 1);
    assert_eq!(cheats[0].name, "Good");
    assert_eq!(cheats[0].code, vec![0x01000000, 0x00000002]);
}

#[test]
fn parse_drops_nul_and_reads_flag_after_last_bracket() {
    let cheats = parse("[a\0b]x+   \n");
    assert_eq!(cheats.len(), 1);
    assert_eq!(cheats[0].name, "ab");
    assert!(cheats[0].enabled);
    let cheats = parse("[a]+b\n");
    assert!(!cheats[0].enabled);
}

#[test]
fn parse_empty_text_gives_no_cheats() {
    assert!(parse("").is_empty());
    assert!(parse("\n\n   \n").is_empty());
}

#[test]
fn serialize_exact_text() {
    let cheats = vec![Cheat { name: "X".to_string(), code: vec![0xABC, 0x1, 0x2], enabled: false }];
    assert_eq!(serialize(&cheats), "[X]-\n00000ABC 00000001\n00000002 00000000\n\n");
    assert_eq!(serialize(&[]), "");
}

#[test]
fn any_enabled_gate() {
    let cheats = parse("[a]-\n[b]+\n");
    assert!(update_any_enabled(&cheats));
    let cheats = parse("[a]-\n[b]-\n");
    assert!(!update_any_enabled(&cheats));
}

#[test]
fn cheat_list_enable_and_save() {
    let mut list = CheatList::new();
    assert!(!list.any_enabled());
    list.load("[One]-\n02000000 00000001\n[Two]-\n");
    assert!(!list.any_enabled());
    list.set_enabled(1, true);
    assert!(list.any_enabled());
    assert_eq!(list.names_and_states(), vec![("One".to_string(), false), ("Two".to_string(), true)]);
    list.set_enabled(5, false);
    assert!(list.any_enabled());
    assert_eq!(list.enabled_codes(), vec![Vec::<u32>::new()]);
    list.set_enabled(0, true);
    assert_eq!(list.enabled_codes(), vec![vec![0x02000000, 0x00000001], vec![]]);
    assert_eq!(list.save(), "[One]+\n02000000 00000001\n\n[Two]+\n\n");
}
