use mahjong::evaluation::{evaluate_chiitoitsu, is_better};
use mahjong::scoring::{calculate_fu, calculate_score, count_dora, HandResult};
use mahjong::table::{DeadWall, Hand, Kawa, OpenMentsu, Tenpai, Wall};
use mahjong::tile::{Honor, Mentsu, Tile, Wind};
use mahjong::winning::{best_potential_result, build_loser_tilt_info, can_declare_ron, can_declare_tsumo};
use mahjong::yaku::{chiitoitsu, kokushi_musou, pinfu, tanyao, yakuhai};

fn m(n: u8) -> Tile {
    Tile::Man(n)
}
fn p(n: u8) -> Tile {
    Tile::Pin(n)
}
fn s(n: u8) -> Tile {
    Tile::Sou(n)
}
fn h(x: Honor) -> Tile {
    Tile::Honor(x)
}

fn names(n: usize) -> Vec<String> {
    (0..n).map(|i| format!("yaku {}", i)).collect()
}

fn result(han: u8, fu: u8, yakuman: bool, n: usize) -> HandResult {
    HandResult { yaku_names: names(n), dora_count: 0, ura_dora_count: 0, total_han: han, total_fu: fu, is_yakuman: yakuman }
}

fn busy_wall() -> Wall {
    let mut tiles = Vec::new();
    for _ in 0..4 {
        tiles.extend(mahjong::tile::all_tiles());
    }
    Wall { tiles, head: 20, tail: 122, dora_count: 1, rinshan_draws: 0, rinshan_max: 4, dice_roll: 7 }
}

fn quiet_dead_wall() -> DeadWall {
    DeadWall {
        dora_indicators: vec![h(Honor::North)],
        ura_indicators: vec![h(Honor::White)],
        rinshan_tiles: vec![],
        filler_tiles: vec![],
    }
}

fn pinfu_hand() -> Vec<Tile> {
    vec![m(2), m(3), m(4), m(5), m(6), m(7), p(3), p(4), p(5), s(6), s(7), s(8), s(8)]
}

#[test]
fn score_of_ordinary_hands() {
    let n = names(1);
    let r = calculate_score(1, 30, false, false, false, &n);
    assert_eq!((r.total_won, r.oya_pays, r.non_oya_pays), (1000, 1000, 1000));
    let r = calculate_score(1, 30, true, false, false, &n);
    assert_eq!((r.total_won, r.oya_pays, r.non_oya_pays), (1500, 0, 1500));
    let r = calculate_score(1, 30, false, true, false, &n);
    assert_eq!((r.total_won, r.oya_pays, r.non_oya_pays), (1100, 500, 300));
    let r = calculate_score(1, 30, true, true, false, &n);
    assert_eq!((r.total_won, r.oya_pays, r.non_oya_pays), (1500, 0, 500));
    let r = calculate_score(4, 30, false, false, false, &n);
    assert_eq!(r.total_won, 7700);
    let r = calculate_score(4, 20, false, true, false, &n);
    assert_eq!((r.total_won, r.oya_pays, r.non_oya_pays), (5200, 2600, 1300));
}

#[test]
fn limit_hands() {
    let n = names(1);
    assert_eq!(calculate_score(5, 30, false, false, false, &n).total_won, 8000);
    assert_eq!(calculate_score(4, 40, false, false, false, &n).total_won, 8000);
    assert_eq!(calculate_score(3, 70, false, false, false, &n).total_won, 8000);
    assert_eq!(calculate_score(6, 30, false, false, false, &n).total_won, 12000);
    assert_eq!(calculate_score(8, 30, false, false, false, &n).total_won, 16000);
    assert_eq!(calculate_score(11, 30, false, false, false, &n).total_won, 24000);
    assert_eq!(calculate_score(13, 30, false, false, false, &n).total_won, 32000);
    assert_eq!(calculate_score(5, 30, true, false, false, &n).total_won, 12000);
}

#[test]
fn yakuman_scores_per_name() {
    let r = calculate_score(0, 0, false, false, true, &names(1));
    assert_eq!((r.total_won, r.oya_pays, r.non_oya_pays), (32000, 0, 32000));
    let r = calculate_score(0, 0, false, false, true, &names(2));
    assert_eq!(r.total_won, 64000);
    let r = calculate_score(0, 0, true, true, true, &names(1));
    assert_eq!((r.total_won, r.oya_pays, r.non_oya_pays), (48000, 0, 16000));
    let r = calculate_score(0, 0, false, true, true, &names(1));
    assert_eq!((r.total_won, r.oya_pays, r.non_oya_pays), (32000, 16000, 8000));
}

#[test]
fn tsumo_payments_add_up() {
    for han in 1..14u8 {
        for fu in [20u8, 25, 30, 40, 50, 70, 110] {
            let r = calculate_score(han, fu, false, true, false, &names(1));
            assert_eq!(r.total_won, r.oya_pays + 2 * r.non_oya_pays);
            assert_eq!(r.total_won % 100, 0);
            let d = calculate_score(han, fu, true, true, false, &names(1));
            assert_eq!(d.total_won, 3 * d.non_oya_pays);
        }
    }
}

#[test]
fn shots_and_low_han() {
    assert_eq!(result(1, 30, false, 1).shot_count_from_result(), 0);
    assert_eq!(result(6, 30, false, 1).shot_count_from_result(), 1);
    assert_eq!(result(9, 30, false, 1).shot_count_from_result(), 2);
    assert_eq!(result(12, 30, false, 1).shot_count_from_result(), 2);
    assert_eq!(result(13, 30, false, 1).shot_count_from_result(), 3);
    assert_eq!(result(0, 0, true, 1).shot_count_from_result(), 3);
    assert!(result(1, 30, false, 1).is_low_han());
    assert!(!result(2, 30, false, 1).is_low_han());
    assert!(!result(0, 0, true, 1).is_low_han());
}

#[test]
fn better_results() {
    let yakuman = result(0, 0, true, 1);
    let double = result(0, 0, true, 2);
    let big = result(7, 30, false, 3);
    let same_han_more_fu = result(7, 40, false, 2);
    assert!(is_better(&yakuman, &big));
    assert!(!is_better(&big, &yakuman));
    assert!(is_better(&double, &yakuman));
    assert!(is_better(&same_han_more_fu, &big));
    assert!(!is_better(&big, &big));
}

#[test]
fn fu_of_a_split() {
    let split = vec![
        Mentsu::Jantou([s(8), s(8)]),
        Mentsu::Shuntsu([m(2), m(3), m(4)], true),
        Mentsu::Shuntsu([m(5), m(6), m(7)], true),
        Mentsu::Shuntsu([p(3), p(4), p(5)], true),
        Mentsu::Shuntsu([s(5), s(6), s(7)], true),
    ];
    assert_eq!(calculate_fu(&split, &s(5), &Wind::South, &Wind::East, false, true), 30);
    assert_eq!(calculate_fu(&split, &s(5), &Wind::South, &Wind::East, true, true), 22);
    let sets = vec![
        Mentsu::Jantou([h(Honor::Red), h(Honor::Red)]),
        Mentsu::Koutsu([m(1); 3], true),
        Mentsu::Ankan([h(Honor::East); 4]),
        Mentsu::Koutsu([p(5); 3], false),
        Mentsu::Shuntsu([s(1), s(2), s(3)], true),
    ];
    assert_eq!(calculate_fu(&sets, &s(2), &Wind::East, &Wind::East, false, false), 20 + 2 + 8 + 32 + 2 + 2);
    assert!(pinfu(&split, &s(5), &Wind::South, &Wind::East));
    assert_eq!(yakuhai(&sets, &Wind::East, &Wind::East), 2);
}

#[test]
fn dora_counting() {
    let dw = DeadWall {
        dora_indicators: vec![m(4), h(Honor::Red)],
        ura_indicators: vec![s(9)],
        rinshan_tiles: vec![],
        filler_tiles: vec![],
    };
    let hand = vec![m(5), m(5), h(Honor::White), s(1), p(3)];
    let d = count_dora(&hand, &dw, true);
    assert_eq!((d.dora, d.ura_dora, d.additional_han), (3, 1, 4));
    let d2 = count_dora(&hand, &dw, false);
    assert_eq!((d2.dora, d2.ura_dora, d2.additional_han), (3, 0, 3));
}

#[test]
fn riichi_pinfu_tsumo() {
    let hand = pinfu_hand();
    let tenpai = Tenpai(vec![s(5), s(8)]);
    let wall = busy_wall();
    let r = can_declare_tsumo(
        &s(5), &hand, &[], &tenpai, true, false, &Kawa(vec![h(Honor::North)]), true, false, false,
        &Wind::East, &Wind::South, &wall, &quiet_dead_wall(), false, false,
    )
    .expect("a winning draw");
    assert_eq!(r.yaku_names, vec!["Tanyao", "Pinfu", "Menzen Tsumo", "Riichi"]);
    assert_eq!((r.total_han, r.total_fu, r.is_yakuman, r.dora_count), (4, 20, false, 0));
    let pay = calculate_score(r.total_han, r.total_fu, false, true, r.is_yakuman, &r.yaku_names);
    assert_eq!(pay.total_won, 5200);
    assert!(tanyao(&[m(2), m(8), s(5)]));
}

#[test]
fn ron_is_refused_when_furiten_or_not_waiting() {
    let hand = pinfu_hand();
    let tenpai = Tenpai(vec![s(5), s(8)]);
    let wall = busy_wall();
    let dw = quiet_dead_wall();
    let ok = can_declare_ron(
        &s(5), &hand, &[], &tenpai, true, false, &Kawa(vec![h(Honor::North)]), false, false, false,
        &Wind::East, &Wind::South, &wall, &dw, false, false, false,
    )
    .expect("ron on a wait");
    assert_eq!(ok.yaku_names, vec!["Tanyao", "Pinfu"]);
    assert_eq!((ok.total_han, ok.total_fu), (2, 30));
    let furiten = can_declare_ron(
        &s(5), &hand, &[], &tenpai, true, false, &Kawa(vec![s(8)]), false, false, false,
        &Wind::East, &Wind::South, &wall, &dw, false, false, false,
    );
    assert!(furiten.is_none());
    let temp = can_declare_ron(
        &s(5), &hand, &[], &tenpai, true, false, &Kawa(vec![]), false, false, false,
        &Wind::East, &Wind::South, &wall, &dw, false, false, true,
    );
    assert!(temp.is_none());
    let not_a_wait = can_declare_ron(
        &s(4), &hand, &[], &tenpai, true, false, &Kawa(vec![]), false, false, false,
        &Wind::East, &Wind::South, &wall, &dw, false, false, false,
    );
    assert!(not_a_wait.is_none());
}

#[test]
fn ron_needs_a_yaku() {
    let hand = vec![m(2), m(3), m(4), m(5), m(6), m(7), s(6), s(7), s(8), s(8)];
    let open = vec![Mentsu::Koutsu([p(9); 3], false)];
    let tenpai = Tenpai(vec![s(5), s(8)]);
    let r = can_declare_ron(
        &s(5), &hand, &open, &tenpai, false, false, &Kawa(vec![m(1)]), false, false, false,
        &Wind::East, &Wind::South, &busy_wall(), &quiet_dead_wall(), false, true, false,
    );
    assert!(r.is_none());
}

#[test]
fn seven_pairs_scoring() {
    let raw = vec![m(2), m(2), m(4), m(4), p(3), p(3), p(6), p(6), s(2), s(2), s(5), s(5), s(8), s(8)];
    assert!(chiitoitsu(&raw));
    let r = evaluate_chiitoitsu(&raw, false, false, false, true, false, false, &Kawa(vec![m(1)]), &busy_wall(), false);
    assert_eq!(r.yaku_names, vec!["Chiitoitsu", "Tanyao", "Menzen Tsumo"]);
    assert_eq!((r.total_han, r.total_fu, r.is_yakuman), (4, 25, false));
    let first_draw = evaluate_chiitoitsu(&raw, false, false, false, true, false, true, &Kawa(vec![]), &busy_wall(), false);
    assert_eq!(first_draw.yaku_names, vec!["Tenhou"]);
    assert!(first_draw.is_yakuman);
}

#[test]
fn thirteen_orphans_is_a_yakuman() {
    let hand = vec![
        m(1), m(9), p(1), p(9), s(1), s(9), h(Honor::White), h(Honor::Red), h(Honor::Green), h(Honor::North),
        h(Honor::West), h(Honor::East), h(Honor::South),
    ];
    let mut full = hand.clone();
    full.push(m(1));
    assert!(kokushi_musou(&{
        let mut v = full.clone();
        mahjong::counting::sort_tiles(&mut v);
        v
    }));
    let tenpai = Tenpai(mahjong::calls::check_tenpai(&hand));
    assert_eq!(tenpai.0.len(), 13);
    let r = can_declare_ron(
        &m(1), &hand, &[], &tenpai, true, false, &Kawa(vec![s(5)]), false, false, false,
        &Wind::East, &Wind::South, &busy_wall(), &quiet_dead_wall(), false, false, false,
    )
    .expect("kokushi ron");
    assert_eq!(r.yaku_names, vec!["Kokushi Musou"]);
    assert!(r.is_yakuman);
}

#[test]
fn best_result_a_tenpai_hand_could_reach() {
    let hand = pinfu_hand();
    let tenpai = Tenpai(vec![s(5), s(8)]);
    let best = best_potential_result(
        &hand, &[], Some(&tenpai), true, false, &Kawa(vec![m(1)]), false, false, false, &Wind::East,
        &Wind::South, &busy_wall(), &quiet_dead_wall(), false, &[0u8; 34],
    )
    .expect("a reachable win");
    assert_eq!(best.total_han, 3);
    assert_eq!(best.yaku_names, vec!["Tanyao", "Pinfu", "Menzen Tsumo"]);
    let mut seen = [0u8; 34];
    seen[22] = 4;
    seen[25] = 4;
    let none = best_potential_result(
        &hand, &[], Some(&tenpai), true, false, &Kawa(vec![m(1)]), false, false, false, &Wind::East,
        &Wind::South, &busy_wall(), &quiet_dead_wall(), false, &seen,
    );
    assert!(none.is_none());
    let info = build_loser_tilt_info(
        2, &Hand(hand.clone()), &OpenMentsu(vec![]), Some(&tenpai), &Kawa(vec![m(1)]),
        &mahjong::table::Jikaze(Wind::South), true, false, true, false, false, &Wind::East, &busy_wall(),
        &quiet_dead_wall(), false, &[0u8; 34],
    );
    assert_eq!(info.player, 2);
    assert!(info.was_tenpai && info.was_riichi);
    assert_eq!(info.best_han, Some(4));
}

#[test]
fn more_han_or_fu_never_pays_less() {
    let names = vec!["Riichi".to_string()];
    let mut last = 0;
    for han in 1..=13u8 {
        let p = calculate_score(han, 30, false, false, false, &names);
        assert!(p.total_won >= last);
        last = p.total_won;
    }
    let low = calculate_score(3, 30, true, true, false, &names);
    let high = calculate_score(3, 40, true, true, false, &names);
    assert!(high.total_won >= low.total_won && high.non_oya_pays >= low.non_oya_pays);
    assert_eq!(calculate_score(3, 30, false, false, false, &names).total_won, 3900);
    assert_eq!(calculate_score(4, 30, false, false, false, &names).total_won, 7700);
}
