use tunnel_switch::ports::{get_port, put_port};

#[test]
fn get_port_hands_out_the_lowest_free_slot() {
    let mut table: [u8; 4] = [0; 4];
    assert_eq!(get_port(&mut table), Some(0));
    assert_eq!(table, [1, 0, 0, 0]);
    assert_eq!(get_port(&mut table), Some(1));
    assert_eq!(get_port(&mut table), Some(2));
    assert_eq!(get_port(&mut table), Some(3));
    assert_eq!(table, [1, 1, 1, 1]);
}

#[test]
fn get_port_on_a_full_table_returns_none_and_changes_nothing() {
    let mut table: [u8; 3] = [1, 1, 1];
    assert_eq!(get_port(&mut table), None);
    assert_eq!(table, [1, 1, 1]);
}

#[test]
fn get_port_on_an_empty_table_returns_none() {
    let mut table: [u8; 0] = [];
    assert_eq!(get_port(&mut table), None);
}

#[test]
fn get_port_skips_occupied_slots_of_any_mark() {
    let mut table: [u8; 4] = [7, 255, 0, 0];
    assert_eq!(get_port(&mut table), Some(2));
    assert_eq!(table, [7, 255, 1, 0]);
}

#[test]
fn get_port_reuses_a_released_slot_before_higher_ones() {
    let mut table: [u8; 4] = [0; 4];
    assert_eq!(get_port(&mut table), Some(0));
    assert_eq!(get_port(&mut table), Some(1));
    assert_eq!(get_port(&mut table), Some(2));
    put_port(&mut table, 1);
    assert_eq!(table, [1, 0, 1, 0]);
    assert_eq!(get_port(&mut table), Some(1));
    assert_eq!(get_port(&mut table), Some(3));
}

#[test]
fn put_port_frees_the_slot() {
    let mut table: [u8; 4] = [1, 1, 1, 0];
    put_port(&mut table, 2);
    assert_eq!(table, [1, 1, 0, 0]);
}

#[test]
fn put_port_on_a_free_slot_changes_nothing() {
    let mut table: [u8; 4] = [1, 0, 1, 0];
    put_port(&mut table, 1);
    assert_eq!(table, [1, 0, 1, 0]);
    put_port(&mut table, 1);
    assert_eq!(table, [1, 0, 1, 0]);
}

#[test]
fn put_port_twice_is_put_port_once() {
    let mut once: [u8; 4] = [1, 1, 1, 1];
    let mut twice: [u8; 4] = [1, 1, 1, 1];
    put_port(&mut once, 3);
    put_port(&mut twice, 3);
    put_port(&mut twice, 3);
    assert_eq!(once, twice);
    assert_eq!(once, [1, 1, 1, 0]);
}

#[test]
fn put_port_outside_the_table_is_ignored() {
    let mut table: [u8; 4] = [1, 0, 1, 0];
    put_port(&mut table, 4);
    put_port(&mut table, usize::MAX);
    assert_eq!(table, [1, 0, 1, 0]);
}

#[test]
fn no_slot_is_handed_out_twice_while_held() {
    let mut table: Vec<u8> = vec![0; 3];
    let mut held: Vec<usize> = Vec::new();
    let script: [Option<usize>; 12] = [
        None,
        None,
        Some(0),
        None,
        None,
        None,
        Some(2),
        Some(2),
        None,
        Some(1),
        Some(7),
        None,
    ];
    for step in script {
        match step {
            None => {
                let got = get_port(&mut table);
                match got {
                    Some(i) => {
                        assert!(i < 3);
                        assert!(!held.contains(&i));
                        held.push(i);
                    }
                    None => assert_eq!(held.len(), 3),
                }
            }
            Some(i) => {
                put_port(&mut table, i);
                held.retain(|h| *h != i);
            }
        }
        let occupied = table.iter().filter(|slot| **slot != 0).count();
        assert_eq!(occupied, held.len());
    }
}
