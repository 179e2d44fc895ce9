use mahjong::counting::{combine_tiles, count_of, sort_tiles, tiles_to_frequency_array};
use mahjong::scoring::get_dora_from_indicator;
use mahjong::tile::{
    all_tiles, index_to_tile, is_green, is_honor, is_terminal, is_yaochuuhai, next_tile_sequence,
    previous_tile_sequence, tile_to_index, Honor, Mentsu, Tile, Wind,
};

#[test]
fn index_round_trip_for_every_kind() {
    for i in 0..34 {
        assert_eq!(tile_to_index(&index_to_tile(i)), i);
    }
    assert_eq!(tile_to_index(&Tile::Man(1)), 0);
    assert_eq!(tile_to_index(&Tile::Pin(9)), 17);
    assert_eq!(tile_to_index(&Tile::Sou(5)), 22);
    assert_eq!(tile_to_index(&Tile::Honor(Honor::East)), 27);
    assert_eq!(tile_to_index(&Tile::Honor(Honor::White)), 31);
    assert_eq!(tile_to_index(&Tile::Honor(Honor::Red)), 33);
}

#[test]
fn all_tiles_lists_each_kind_once() {
    let t = all_tiles();
    assert_eq!(t.len(), 34);
    assert_eq!(t[0], Tile::Man(1));
    assert_eq!(t[1], Tile::Pin(1));
    assert_eq!(t[2], Tile::Sou(1));
    assert_eq!(t[26], Tile::Sou(9));
    assert_eq!(t[27], Tile::Honor(Honor::East));
    assert_eq!(t[30], Tile::Honor(Honor::North));
    assert_eq!(t[33], Tile::Honor(Honor::Red));
    for i in 0..34 {
        for j in 0..34 {
            if i != j {
                assert_ne!(t[i], t[j]);
            }
        }
    }
}

#[test]
fn sequence_neighbours() {
    assert_eq!(next_tile_sequence(&Tile::Man(3)), Some(Tile::Man(4)));
    assert_eq!(next_tile_sequence(&Tile::Man(9)), None);
    assert_eq!(previous_tile_sequence(&Tile::Pin(1)), None);
    assert_eq!(previous_tile_sequence(&Tile::Sou(7)), Some(Tile::Sou(6)));
    assert_eq!(next_tile_sequence(&Tile::Honor(Honor::East)), None);
    for i in 0..27 {
        let t = index_to_tile(i);
        if let Some(n) = next_tile_sequence(&t) {
            assert_eq!(previous_tile_sequence(&n), Some(t));
        }
    }
}

#[test]
fn tile_classes() {
    assert!(is_terminal(&Tile::Man(1)));
    assert!(is_terminal(&Tile::Sou(9)));
    assert!(!is_terminal(&Tile::Pin(5)));
    assert!(!is_terminal(&Tile::Honor(Honor::Red)));
    assert!(is_honor(&Tile::Honor(Honor::North)));
    assert!(!is_honor(&Tile::Man(1)));
    assert!(is_yaochuuhai(&Tile::Honor(Honor::White)));
    assert!(is_yaochuuhai(&Tile::Pin(9)));
    assert!(!is_yaochuuhai(&Tile::Pin(2)));
    assert!(is_green(&Tile::Sou(2)));
    assert!(is_green(&Tile::Honor(Honor::Green)));
    assert!(!is_green(&Tile::Sou(5)));
    assert!(!is_green(&Tile::Man(2)));
}

#[test]
fn dora_indicator_points_at_next_tile() {
    assert_eq!(get_dora_from_indicator(&Tile::Man(3)), Tile::Man(4));
    assert_eq!(get_dora_from_indicator(&Tile::Man(9)), Tile::Man(1));
    assert_eq!(get_dora_from_indicator(&Tile::Sou(9)), Tile::Sou(1));
    assert_eq!(get_dora_from_indicator(&Tile::Honor(Honor::North)), Tile::Honor(Honor::East));
    assert_eq!(get_dora_from_indicator(&Tile::Honor(Honor::East)), Tile::Honor(Honor::South));
    assert_eq!(get_dora_from_indicator(&Tile::Honor(Honor::Red)), Tile::Honor(Honor::White));
    assert_eq!(get_dora_from_indicator(&Tile::Honor(Honor::White)), Tile::Honor(Honor::Green));
}

#[test]
fn every_tile_has_exactly_one_indicator() {
    for target in 0..34 {
        let t = index_to_tile(target);
        let mut pointing = 0;
        for i in 0..34 {
            if get_dora_from_indicator(&index_to_tile(i)) == t {
                pointing += 1;
            }
        }
        assert_eq!(pointing, 1);
    }
}

#[test]
fn winds_in_turn_order() {
    assert_eq!(Wind::East.next_turn_wind(), Wind::South);
    assert_eq!(Wind::North.next_turn_wind(), Wind::East);
    assert_eq!(Wind::South.next_round_wind(), Wind::East);
    assert_eq!(Wind::East.next_round_wind(), Wind::North);
    assert_eq!(Wind::East.distance_to(&Wind::West), 2);
    assert_eq!(Wind::North.distance_to(&Wind::East), 1);
    assert!(Wind::South.is_kamicha_to(&Wind::East));
    assert!(Wind::East.is_kamicha_to(&Wind::North));
    assert!(!Wind::West.is_kamicha_to(&Wind::East));
    assert_eq!(Wind::West.wind_to_honor(), Honor::West);
    assert_eq!(Wind::North.to_num(), 3);
}

#[test]
fn frequency_array_counts_kinds() {
    let tiles = vec![Tile::Man(1), Tile::Man(1), Tile::Sou(9), Tile::Honor(Honor::Red)];
    let f = tiles_to_frequency_array(&tiles);
    assert_eq!(f[0], 2);
    assert_eq!(f[26], 1);
    assert_eq!(f[33], 1);
    assert_eq!(f.iter().map(|x| *x as u32).sum::<u32>(), 4);
    assert_eq!(count_of(&tiles, &Tile::Man(1)), 2);
}

#[test]
fn sorting_orders_suits_then_ranks() {
    let mut v = vec![
        Tile::Honor(Honor::South),
        Tile::Sou(3),
        Tile::Man(9),
        Tile::Honor(Honor::White),
        Tile::Pin(2),
        Tile::Man(1),
        Tile::Honor(Honor::East),
    ];
    sort_tiles(&mut v);
    assert_eq!(
        v,
        vec![
            Tile::Man(1),
            Tile::Man(9),
            Tile::Pin(2),
            Tile::Sou(3),
            Tile::Honor(Honor::White),
            Tile::Honor(Honor::East),
            Tile::Honor(Honor::South),
        ]
    );
}

#[test]
fn combine_appends_meld_tiles() {
    let hand = vec![Tile::Man(1), Tile::Man(2)];
    let open = vec![Mentsu::Koutsu([Tile::Pin(5); 3], false), Mentsu::Ankan([Tile::Honor(Honor::Red); 4])];
    let c = combine_tiles(&hand, &open);
    assert_eq!(c.len(), 9);
    assert_eq!(c[0], Tile::Man(1));
    assert_eq!(c[2], Tile::Pin(5));
    assert_eq!(c[8], Tile::Honor(Honor::Red));
    assert_eq!(Mentsu::Shuntsu([Tile::Sou(1), Tile::Sou(2), Tile::Sou(3)], true).tiles(), &[Tile::Sou(1), Tile::Sou(2), Tile::Sou(3)]);
}
