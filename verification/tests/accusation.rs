use mahjong::accusation::{can_remember, suspect_from_log, tampered_ponds, CheatEntry};
use mahjong::tile::Tile;

#[test]
fn memory_reaches_by_distance() {
    assert!(can_remember(0, false, false));
    assert!(can_remember(1, true, false));
    assert!(!can_remember(3, false, true));
    assert!(can_remember(2, false, true));
    assert!(!can_remember(2, true, false));
    assert!(!can_remember(4, true, true));
}

#[test]
fn changed_ponds_are_found() {
    let snapshot = vec![vec![Tile::Man(1), Tile::Pin(2)], vec![Tile::Sou(3)], vec![Tile::Man(9)], vec![]];
    let current = vec![vec![Tile::Man(1), Tile::Pin(3)], vec![Tile::Sou(4)], vec![Tile::Man(9), Tile::Man(8)], vec![]];
    assert_eq!(tampered_ponds(&snapshot, &current, &[true, true, true, true]), vec![0, 1]);
    assert_eq!(tampered_ponds(&snapshot, &current, &[false, true, true, true]), vec![1]);
}

#[test]
fn the_record_names_the_cheater() {
    let log = vec![
        CheatEntry { cheater: 2, target_kawa: 3, tile_taken: Tile::Man(1), tile_left: Tile::Man(2) },
        CheatEntry { cheater: 1, target_kawa: 0, tile_taken: Tile::Pin(1), tile_left: Tile::Pin(2) },
        CheatEntry { cheater: 3, target_kawa: 0, tile_taken: Tile::Sou(1), tile_left: Tile::Sou(2) },
    ];
    assert_eq!(suspect_from_log(&log, &[0]), Some(1));
    assert_eq!(suspect_from_log(&log, &[3, 0]), Some(2));
    assert_eq!(suspect_from_log(&log, &[1]), None);
}
