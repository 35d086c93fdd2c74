use dsvita::io_lut::{assemble_lut_entries, lut_routes, IoEntry, IoRoute};

fn block() -> Vec<IoEntry> {
    vec![
        IoEntry { offset: 0x0, size: 4 },
        IoEntry { offset: 0x4, size: 2 },
        IoEntry { offset: 0x6, size: 1 },
        IoEntry { offset: 0x7, size: 1 },
        IoEntry { offset: 0x10, size: 2 },
    ]
}

#[test]
fn accesses_group_the_registers_they_reach() {
    let es = block();
    let lut = assemble_lut_entries(&es, 2);
    assert_eq!(lut.len(), 9);
    let offsets: Vec<usize> = lut.iter().map(|l| l.offset).collect();
    assert_eq!(offsets, vec![0, 2, 4, 6, 8, 0xA, 0xC, 0xE, 0x10]);
    assert_eq!(lut[0].entries, vec![0]);
    assert_eq!(lut[1].entries, vec![0]);
    assert_eq!(lut[2].entries, vec![1]);
    assert_eq!(lut[3].entries, vec![2, 3]);
    assert!(lut[4].entries.is_empty());
    assert_eq!(lut[8].entries, vec![4]);

    let wide = assemble_lut_entries(&es, 4);
    assert_eq!(wide.len(), 5);
    assert_eq!(wide[1].entries, vec![1, 2, 3]);
    assert_eq!(wide[0].offset, 0);
    assert_eq!(wide[4].offset, 0x10);
    assert_eq!(IoEntry { offset: 6, size: 2 }.offset_end(), 8);
}

#[test]
fn accesses_route_values_to_their_registers() {
    let es = block();
    let lut = assemble_lut_entries(&es, 2);
    let w = lut_routes(&lut[1], &es, 2, true);
    assert_eq!(w, vec![IoRoute { entry: 0, left: true, shift: 16, masked: true, mask: 0xFFFF_0000 }]);
    let r = lut_routes(&lut[1], &es, 2, false);
    assert_eq!(r, vec![IoRoute { entry: 0, left: false, shift: 16, masked: false, mask: 0 }]);
    let w = lut_routes(&lut[3], &es, 2, true);
    assert_eq!(
        w,
        vec![
            IoRoute { entry: 2, left: false, shift: 0, masked: false, mask: 0xFFFF },
            IoRoute { entry: 3, left: false, shift: 8, masked: false, mask: 0xFFFF },
        ]
    );
    let r = lut_routes(&lut[3], &es, 2, false);
    assert_eq!(r[1], IoRoute { entry: 3, left: true, shift: 8, masked: false, mask: 0 });
}
