use mahjong::calls::{
    can_declare_chi, can_declare_kan_from_hand, can_declare_kan_from_pon, can_declare_kyuushu, can_declare_pon,
    check_tenpai, is_furiten,
};
use mahjong::counting::{sort_tiles, tiles_to_frequency_array};
use mahjong::decompose::decompose;
use mahjong::naki::{ankan_options, apply_chi, apply_pon, riichi_allowed, riichi_discards, shouminkan_options};
use mahjong::shanten::{
    calculate_chiitoitsu_shanten, calculate_kokushi_shanten, calculate_shanten, calculate_shanten_from_array,
    ukeire_tiles,
};
use mahjong::table::{Hand, Kawa, OpenMentsu, Tenpai};
use mahjong::tile::{ChiTilePos, Honor, Mentsu, Tile};

fn m(n: u8) -> Tile {
    Tile::Man(n)
}
fn p(n: u8) -> Tile {
    Tile::Pin(n)
}
fn s(n: u8) -> Tile {
    Tile::Sou(n)
}
fn h(x: Honor) -> Tile {
    Tile::Honor(x)
}

fn tenpai_hand() -> Vec<Tile> {
    vec![m(1), m(2), m(3), m(5), m(6), p(4), p(5), p(6), s(7), s(8), s(9), h(Honor::East), h(Honor::East)]
}

#[test]
fn decompose_returns_every_split() {
    let mut hand = vec![s(1), s(1), s(1), s(2), s(2), s(2), s(3), s(3), s(3), m(5), m(5), p(7), p(8), p(9)];
    sort_tiles(&mut hand);
    let splits = decompose(&hand);
    assert_eq!(splits.len(), 2);
    let pair = Mentsu::Jantou([m(5), m(5)]);
    let run = Mentsu::Shuntsu([p(7), p(8), p(9)], true);
    assert_eq!(
        splits[0],
        vec![
            pair,
            run,
            Mentsu::Koutsu([s(1); 3], true),
            Mentsu::Koutsu([s(2); 3], true),
            Mentsu::Koutsu([s(3); 3], true),
        ]
    );
    assert_eq!(
        splits[1],
        vec![
            pair,
            run,
            Mentsu::Shuntsu([s(1), s(2), s(3)], true),
            Mentsu::Shuntsu([s(1), s(2), s(3)], true),
            Mentsu::Shuntsu([s(1), s(2), s(3)], true),
        ]
    );
}

#[test]
fn every_split_is_a_pair_and_sets() {
    let mut hand = vec![s(1), s(1), s(1), s(2), s(2), s(2), s(3), s(3), s(3), m(5), m(5), p(7), p(8), p(9)];
    sort_tiles(&mut hand);
    for split in decompose(&hand) {
        assert_eq!(split.len(), 1 + (hand.len() - 2) / 3);
        assert!(matches!(split[0], Mentsu::Jantou(_)));
    }
    let no_win = vec![m(1), m(2), m(4), m(5), m(7)];
    assert!(decompose(&no_win).is_empty());
}

#[test]
fn shanten_of_sample_hands() {
    let hand = tenpai_hand();
    assert_eq!(calculate_shanten(&hand), 0);
    let mut won = hand.clone();
    won.push(m(4));
    assert_eq!(calculate_shanten(&won), -1);
    let far = vec![m(1), m(4), m(7), p(2), p(5), p(8), s(3), s(6), s(9), h(Honor::East), h(Honor::South), h(Honor::West), h(Honor::North)];
    assert!(calculate_shanten(&far) >= 3);
    assert!(calculate_shanten(&far) <= 8);
}

#[test]
fn seven_pairs_and_orphans_shanten() {
    let pairs = vec![m(1), m(1), m(3), m(3), p(5), p(5), p(7), p(7), s(2), s(2), s(9), s(9), h(Honor::Red)];
    let f = tiles_to_frequency_array(&pairs);
    assert_eq!(calculate_chiitoitsu_shanten(&f), 0);
    let orphans = vec![
        m(1), m(9), p(1), p(9), s(1), s(9), h(Honor::East), h(Honor::South), h(Honor::West), h(Honor::North),
        h(Honor::White), h(Honor::Green), h(Honor::Red),
    ];
    let f2 = tiles_to_frequency_array(&orphans);
    assert_eq!(calculate_kokushi_shanten(&f2), 0);
    let mut f3 = f2;
    assert_eq!(calculate_shanten_from_array(&mut f3), 0);
    assert_eq!(f3, f2);
}

#[test]
fn ukeire_lists_advancing_kinds() {
    let mut f = tiles_to_frequency_array(&tenpai_hand());
    let before = f;
    let uke = ukeire_tiles(&mut f, 0);
    assert_eq!(uke, vec![3, 6]);
    assert_eq!(f, before);
}

#[test]
fn tenpai_waits_in_tile_order() {
    let waits = check_tenpai(&tenpai_hand());
    assert_eq!(waits, vec![m(4), m(7)]);
    let noten = vec![m(1), m(4), m(7), p(2), p(5), p(8), s(3), s(6), s(9), h(Honor::East), h(Honor::South), h(Honor::West), h(Honor::North)];
    assert!(check_tenpai(&noten).is_empty());
}

#[test]
fn every_wait_completes_the_hand() {
    let hand = tenpai_hand();
    for w in check_tenpai(&hand) {
        let mut full = hand.clone();
        full.push(w);
        assert_eq!(calculate_shanten(&full), -1);
    }
}

#[test]
fn chi_positions() {
    let hand = vec![m(2), m(4), m(5)];
    assert_eq!(can_declare_chi(&hand, &m(3)), vec![ChiTilePos::Middle, ChiTilePos::Left]);
    assert!(can_declare_chi(&hand, &h(Honor::East)).is_empty());
    let hand2 = vec![s(7), s(8)];
    assert_eq!(can_declare_chi(&hand2, &s(9)), vec![ChiTilePos::Right]);
}

#[test]
fn pon_and_kan_counts() {
    let hand = vec![m(5), m(5), m(5), p(1)];
    assert!(can_declare_pon(&hand, &m(5)));
    assert!(!can_declare_pon(&hand, &p(1)));
    assert_eq!(can_declare_kan_from_hand(&hand, &m(5)), 3);
    let open = vec![Mentsu::Koutsu([p(7); 3], false), Mentsu::Koutsu([s(2); 3], true)];
    assert!(can_declare_kan_from_pon(&open, &p(7)));
    assert!(!can_declare_kan_from_pon(&open, &s(2)));
}

#[test]
fn nine_kinds_abort() {
    let hand = vec![
        m(1), m(9), p(1), p(9), s(1), s(9), h(Honor::East), h(Honor::South), h(Honor::West), m(5), m(5), p(4), p(4),
        s(6),
    ];
    assert!(can_declare_kyuushu(&hand, false, &Kawa(vec![])));
    assert!(!can_declare_kyuushu(&hand, true, &Kawa(vec![])));
    assert!(!can_declare_kyuushu(&hand, false, &Kawa(vec![m(2)])));
    let eight = vec![m(1), m(9), p(1), p(9), s(1), s(9), h(Honor::East), h(Honor::East), m(5)];
    assert!(!can_declare_kyuushu(&eight, false, &Kawa(vec![])));
}

#[test]
fn furiten_when_a_wait_was_discarded() {
    let tenpai = Tenpai(vec![m(4), m(7)]);
    assert!(is_furiten(&Kawa(vec![p(1), m(7)]), &tenpai));
    assert!(!is_furiten(&Kawa(vec![p(1), m(5)]), &tenpai));
}

#[test]
fn pon_moves_two_tiles_into_an_open_triplet() {
    let mut hand = Hand(vec![m(1), m(5), p(2), m(5), s(3)]);
    let mut open = OpenMentsu(vec![]);
    let forbidden = apply_pon(&mut hand, &mut open, m(5));
    assert_eq!(hand.0, vec![m(1), p(2), s(3)]);
    assert_eq!(open.0, vec![Mentsu::Koutsu([m(5); 3], false)]);
    assert_eq!(forbidden, vec![m(5)]);
}

#[test]
fn chi_forbids_swap_calls() {
    let mut hand = Hand(vec![m(3), m(4), m(5), p(1)]);
    let mut open = OpenMentsu(vec![]);
    let forbidden = apply_chi(&mut hand, &mut open, m(3), ChiTilePos::Left);
    assert_eq!(hand.0, vec![m(3), p(1)]);
    assert_eq!(open.0, vec![Mentsu::Shuntsu([m(3), m(4), m(5)], false)]);
    assert_eq!(forbidden, vec![m(3), m(6)]);
    let mut hand2 = Hand(vec![s(4), s(6), p(9)]);
    let mut open2 = OpenMentsu(vec![]);
    let forbidden2 = apply_chi(&mut hand2, &mut open2, s(5), ChiTilePos::Middle);
    assert_eq!(hand2.0, vec![p(9)]);
    assert_eq!(open2.0, vec![Mentsu::Shuntsu([s(4), s(5), s(6)], false)]);
    assert_eq!(forbidden2, vec![s(5)]);
}

#[test]
fn riichi_options() {
    assert!(riichi_allowed(false, true, 25000, 10));
    assert!(!riichi_allowed(false, true, 500, 10));
    assert!(!riichi_allowed(false, true, 25000, 3));
    assert!(!riichi_allowed(true, true, 25000, 10));
    let mut full = tenpai_hand();
    full.push(s(1));
    assert_eq!(riichi_discards(&full), vec![s(1)]);
}

#[test]
fn kan_options_on_the_draw() {
    let full = vec![m(2), m(2), m(2), m(2), p(5), p(6), p(7), s(1), s(1), s(1), s(5), s(5), h(Honor::Red), h(Honor::Red)];
    assert_eq!(ankan_options(&full, false, None, 0), vec![m(2)]);
    assert!(ankan_options(&full, false, None, 4).is_empty());
    let open = OpenMentsu(vec![Mentsu::Koutsu([s(5); 3], false)]);
    let full2 = vec![s(5), m(1)];
    assert_eq!(shouminkan_options(&full2, &open, 0), vec![s(5)]);
}

#[test]
fn calls_move_tiles_into_melds() {
    let before = vec![m(2), m(2), m(3), m(4), p(9)];
    let mut hand = Hand(before.clone());
    let mut open = OpenMentsu(vec![]);
    apply_pon(&mut hand, &mut open, m(2));
    let mut after: Vec<Tile> = hand.0.clone();
    after.extend_from_slice(open.0[0].tiles());
    let mut expected = before.clone();
    expected.push(m(2));
    after.sort();
    expected.sort();
    assert_eq!(after, expected);

    let before = vec![m(3), m(4), p(9)];
    let mut hand = Hand(before.clone());
    let mut open = OpenMentsu(vec![]);
    apply_chi(&mut hand, &mut open, m(2), ChiTilePos::Left);
    let mut after: Vec<Tile> = hand.0.clone();
    after.extend_from_slice(open.0[0].tiles());
    let mut expected = before.clone();
    expected.push(m(2));
    after.sort();
    expected.sort();
    assert_eq!(after, expected);
    assert_eq!(hand.0, vec![p(9)]);
}

#[test]
fn complete_hands_have_shanten_minus_one() {
    let split = vec![m(1), m(2), m(3), p(4), p(5), p(6), s(7), s(8), s(9), m(5), m(5), p(2), p(3), p(4)];
    assert_eq!(calculate_shanten(&split), -1);
    let pairs = vec![m(1), m(1), m(4), m(4), p(2), p(2), p(8), p(8), s(3), s(3), s(6), s(6), h(Honor::Red), h(Honor::Red)];
    assert_eq!(calculate_shanten(&pairs), -1);
    let scattered = vec![m(1), m(4), m(7), p(2), p(5), p(8), s(3), s(6), s(9), h(Honor::East), h(Honor::South), h(Honor::West), h(Honor::White), h(Honor::Red)];
    let sh = calculate_shanten(&scattered);
    assert!(sh >= 0 && sh <= 6);
}
