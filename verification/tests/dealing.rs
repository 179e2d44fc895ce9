use mahjong::counting::tiles_to_frequency_array;
use mahjong::dealing::{deal_hands, deal_round, new_round_wall};
use mahjong::table::Wall;
use mahjong::tile::{all_tiles, MatchPhase, Tile};

fn ordered_set() -> Vec<Tile> {
    let mut tiles = Vec::new();
    for _ in 0..4 {
        tiles.extend(all_tiles());
    }
    tiles
}

#[test]
fn a_new_wall_holds_four_of_each_kind() {
    let w = new_round_wall(MatchPhase::Yonma);
    assert_eq!(w.tiles.len(), 136);
    let mut counts = [0u32; 34];
    for t in &w.tiles {
        counts[mahjong::tile::tile_to_index(t)] += 1;
    }
    assert!(counts.iter().all(|&c| c == 4));
    assert_eq!(w.head, 0);
    assert_eq!(w.tail, 122);
    assert_eq!(w.rinshan_max, 4);
    assert!(w.dice_roll >= 2 && w.dice_roll <= 12);
    let sanma = new_round_wall(MatchPhase::Sanma);
    assert_eq!(sanma.rinshan_max, 8);
}

#[test]
fn dealing_goes_four_at_a_time_then_one_each() {
    let tiles = ordered_set();
    let mut w = Wall {
        tiles: tiles.clone(),
        head: 0,
        tail: 122,
        dora_count: 1,
        rinshan_draws: 0,
        rinshan_max: 4,
        dice_roll: 7,
    };
    let hands = deal_hands(&mut w, 2);
    assert_eq!(hands.len(), 2);
    let mut first = Vec::new();
    first.extend_from_slice(&tiles[0..4]);
    first.extend_from_slice(&tiles[8..12]);
    first.extend_from_slice(&tiles[16..20]);
    first.push(tiles[24]);
    let mut second = Vec::new();
    second.extend_from_slice(&tiles[4..8]);
    second.extend_from_slice(&tiles[12..16]);
    second.extend_from_slice(&tiles[20..24]);
    second.push(tiles[25]);
    assert_eq!(hands[0], first);
    assert_eq!(hands[1], second);
    assert_eq!(w.head, 26);
    assert_eq!(w.tail, 122);
}

#[test]
fn a_dealt_round_uses_the_wall_head() {
    let (w, hands) = deal_round(MatchPhase::Yonma, 4);
    assert_eq!(hands.len(), 4);
    assert_eq!(w.head, 52);
    let mut dealt = Vec::new();
    for hand in &hands {
        assert_eq!(hand.len(), 13);
        dealt.extend_from_slice(hand);
    }
    let mut head = w.tiles[0..52].to_vec();
    dealt.sort();
    head.sort();
    assert_eq!(dealt, head);
    assert_eq!(hands[3][12], w.tiles[51]);
    assert_eq!(hands[0][4], w.tiles[16]);
    let all = tiles_to_frequency_array(&w.tiles);
    assert!(all.iter().all(|&c| c == 4));
}
