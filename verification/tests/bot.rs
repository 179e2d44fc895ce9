use mahjong::bot::{estimate_yaku_han, evaluate_discard, get_discard_penalty};
use mahjong::bot_calls::{
    best_call, call_eligible, call_refused, decide_call, is_critical_call, riichi_selection_forbidden, suji_safe_tiles, CallAction,
    CallScore,
};
use mahjong::strategy::choose_target_yaku;
use mahjong::bot_turn::{best_wait_count, decide_riichi, main_phase_action, riichi_hand_value, MainPhaseAction};
use mahjong::cheating::{apply_swap, best_swaps, Swap};
use mahjong::reading::{dead_honors, read_table, SeatView};
use mahjong::table::DeadWall;
use mahjong::tile::{ChiTilePos, Honor, Mentsu, Suit, TargetYaku, Tile, Wind};

fn m(n: u8) -> Tile {
    Tile::Man(n)
}
fn p(n: u8) -> Tile {
    Tile::Pin(n)
}
fn s(n: u8) -> Tile {
    Tile::Sou(n)
}
fn h(x: Honor) -> Tile {
    Tile::Honor(x)
}

#[test]
fn discard_penalty_follows_the_target() {
    assert_eq!(get_discard_penalty(&m(5), &TargetYaku::Tanyao, 1, false), 10000);
    assert_eq!(get_discard_penalty(&m(1), &TargetYaku::Tanyao, 1, false), 0);
    assert_eq!(get_discard_penalty(&h(Honor::East), &TargetYaku::Speed, 1, true), 800);
    assert_eq!(get_discard_penalty(&m(1), &TargetYaku::ChuurenPoutou(Suit::Man), 1, false), 20000);
    assert_eq!(get_discard_penalty(&m(5), &TargetYaku::ChuurenPoutou(Suit::Man), 1, false), 10000);
    assert_eq!(get_discard_penalty(&p(5), &TargetYaku::ChuurenPoutou(Suit::Man), 1, false), 0);
    assert_eq!(get_discard_penalty(&m(9), &TargetYaku::Kokushi, 1, false), 10000);
    assert_eq!(get_discard_penalty(&m(9), &TargetYaku::Kokushi, 2, false), 0);
    assert_eq!(get_discard_penalty(&s(2), &TargetYaku::SanshokuDoujun(1), 1, false), 10000);
    assert_eq!(get_discard_penalty(&s(5), &TargetYaku::SanshokuDoujun(1), 1, false), 0);
    assert_eq!(get_discard_penalty(&h(Honor::Red), &TargetYaku::Daisangen, 1, true), 10800);
    assert_eq!(get_discard_penalty(&m(4), &TargetYaku::Toitoi, 2, false), 10000);
    assert_eq!(get_discard_penalty(&m(4), &TargetYaku::Chiitoitsu, 3, false), 0);
}

#[test]
fn estimate_counts_flush_pairs_and_straight() {
    let hand = vec![m(1), m(2), m(3), m(4), m(5), m(6), m(7), m(8), m(9), m(2), m(3), m(4), m(5), m(5)];
    assert_eq!(estimate_yaku_han(&hand, &Wind::East, &Wind::East), 8);
}

#[test]
fn estimate_counts_value_pairs() {
    let hand = vec![
        h(Honor::East),
        h(Honor::East),
        h(Honor::East),
        h(Honor::Red),
        h(Honor::Red),
        m(2),
        m(3),
        m(4),
        p(5),
        p(6),
        p(7),
        s(2),
        s(3),
        s(4),
    ];
    assert_eq!(estimate_yaku_han(&hand, &Wind::East, &Wind::East), 3);
    assert_eq!(estimate_yaku_han(&hand, &Wind::South, &Wind::East), 2);
}

fn tenpai_after_north() -> Vec<Tile> {
    vec![m(1), m(2), m(3), p(4), p(5), p(6), s(7), s(8), s(9), m(5), m(5), p(2), p(3), h(Honor::North)]
}

#[test]
fn discard_keeps_the_hand_tenpai() {
    let hand = tenpai_after_north();
    let visible = [0u8; 34];
    let d = evaluate_discard(&hand, &[], &visible, &[], false, None, TargetYaku::Speed, &[], &[]);
    assert_eq!(d, h(Honor::North));
}

#[test]
fn defence_discards_a_safe_tile() {
    let hand = tenpai_after_north();
    let visible = [0u8; 34];
    let safe = vec![m(5)];
    let d = evaluate_discard(&hand, &[], &visible, &safe, true, None, TargetYaku::Speed, &[], &[]);
    assert_eq!(d, m(5));
}

#[test]
fn forbidden_tiles_are_never_discarded() {
    let hand = tenpai_after_north();
    let visible = [0u8; 34];
    let forbidden = vec![h(Honor::North), m(1), m(2), m(3), p(4), p(5), p(6), s(7), s(8), s(9), m(5), p(3)];
    let d = evaluate_discard(&hand, &[], &visible, &[], false, Some(&forbidden), TargetYaku::Speed, &[], &[]);
    assert_eq!(d, p(2));
}

#[test]
fn everything_forbidden_falls_back_to_the_first_kind() {
    let hand = vec![p(5), p(5)];
    let visible = [0u8; 34];
    let forbidden = vec![p(5)];
    let d = evaluate_discard(&hand, &[], &visible, &[], false, Some(&forbidden), TargetYaku::Speed, &[], &[]);
    assert_eq!(d, m(1));
}

#[test]
fn short_wall_means_speed() {
    let hand = tenpai_after_north();
    assert_eq!(choose_target_yaku(&hand, 30, 3, &[], 0, 0, false, 2), TargetYaku::Speed);
    assert_eq!(choose_target_yaku(&hand, 30, 2, &[], 0, 15, false, 2), TargetYaku::Speed);
}

#[test]
fn thirteen_orphans_steer_for_kokushi() {
    let hand = vec![
        m(1),
        m(9),
        p(1),
        p(9),
        s(1),
        s(9),
        h(Honor::East),
        h(Honor::South),
        h(Honor::West),
        h(Honor::North),
        h(Honor::White),
        h(Honor::Green),
        h(Honor::Red),
        m(5),
    ];
    assert_eq!(choose_target_yaku(&hand, 70, 0, &[], 0, 0, false, 2), TargetYaku::Kokushi);
}

#[test]
fn one_suit_steers_for_chinitsu() {
    let hand = vec![m(2), m(2), m(3), m(4), m(5), m(6), m(7), m(8), m(8), m(3), m(4), m(5), p(1), p(2)];
    assert_eq!(choose_target_yaku(&hand, 70, 0, &[], 0, 0, false, 2), TargetYaku::Chinitsu(Suit::Man));
}

#[test]
fn dragon_pairs_steer_for_daisangen() {
    let hand = vec![
        h(Honor::White),
        h(Honor::White),
        h(Honor::Green),
        h(Honor::Green),
        m(2),
        m(5),
        m(8),
        p(3),
        p(6),
        s(4),
        s(7),
        s(9),
        p(9),
        m(9),
    ];
    assert_eq!(choose_target_yaku(&hand, 70, 0, &[], 0, 0, false, 2), TargetYaku::Daisangen);
    assert_ne!(choose_target_yaku(&hand, 70, 0, &[], 0, 0, false, 3), TargetYaku::Daisangen);
}

#[test]
fn fear_turns_a_plain_hand_to_pinfu() {
    let hand = vec![
        m(2),
        m(4),
        m(6),
        p(3),
        p(5),
        p(7),
        s(4),
        s(6),
        s(8),
        h(Honor::East),
        h(Honor::South),
        h(Honor::West),
        h(Honor::North),
        h(Honor::White),
    ];
    assert_eq!(choose_target_yaku(&hand, 70, 0, &[], 0, 0, true, 2), TargetYaku::Pinfu);
    assert_eq!(choose_target_yaku(&hand, 70, 0, &[], 0, 0, false, 2), TargetYaku::Tanyao);
}

#[test]
fn calls_against_the_target_are_refused() {
    assert!(call_refused(TargetYaku::Pinfu, &m(3)));
    assert!(call_refused(TargetYaku::Chinitsu(Suit::Man), &p(3)));
    assert!(!call_refused(TargetYaku::Chinitsu(Suit::Man), &m(3)));
    assert!(!call_refused(TargetYaku::Honitsu(Suit::Pin), &h(Honor::East)));
    assert!(call_refused(TargetYaku::Honitsu(Suit::Pin), &s(3)));
    assert!(call_refused(TargetYaku::Tanyao, &m(1)));
    assert!(!call_refused(TargetYaku::Speed, &m(1)));
    assert!(!call_refused(TargetYaku::Toitoi, &h(Honor::Red)));
}

#[test]
fn critical_calls() {
    assert!(is_critical_call(TargetYaku::Daisangen, &h(Honor::Red)));
    assert!(!is_critical_call(TargetYaku::Daisangen, &h(Honor::East)));
    assert!(is_critical_call(TargetYaku::Ryuuiisou, &s(2)));
    assert!(!is_critical_call(TargetYaku::Tsuuiisou, &m(1)));
    assert!(!is_critical_call(TargetYaku::Speed, &h(Honor::Red)));
}

#[test]
fn suji_of_a_threat_discards() {
    let safe = suji_safe_tiles(&[m(4), p(1), s(6), h(Honor::East)]);
    assert_eq!(safe, vec![m(1), m(7), s(3), s(9)]);
}

#[test]
fn riichi_choice_forbids_tiles_outside_the_options() {
    let out = riichi_selection_forbidden(&[p(9)], &[m(1), m(2), m(3)], &[m(2)]);
    assert_eq!(out, vec![p(9), m(1), m(3)]);
}

#[test]
fn which_calls_are_worth_the_roll() {
    assert!(!call_eligible(true, 0, 0, 3, 0, false));
    assert!(call_eligible(false, 2, 1, 1, 0, false));
    assert!(!call_eligible(false, 2, 1, 1, 0, true));
    assert!(call_eligible(false, 2, 1, 1, 1, true));
    assert!(!call_eligible(false, 1, 2, 1, 0, false));
    assert!(!call_eligible(false, 2, 1, 0, 3, false));
}

#[test]
fn best_call_without_offers_is_none() {
    let hand = vec![m(2), m(3), m(4)];
    assert_eq!(best_call(&hand, &[], &Wind::East, &Wind::East, &[], None, None, m(1), &[]), None);
}

#[test]
fn best_call_of_a_dragon_pon() {
    let red = h(Honor::Red);
    let hand = vec![red, red, m(2), m(3), m(4), p(5), p(6), p(7), s(2), s(3), s(4), s(6), s(7)];
    let best = best_call(&hand, &[], &Wind::East, &Wind::East, &[], None, Some(red), m(1), &[]);
    let (score, which) = best.unwrap();
    assert_eq!(which, 1);
    assert_eq!(score.han, 1);
    assert_eq!(score.dora, 0);
}

#[test]
fn reading_the_table() {
    let east = h(Honor::East);
    let seats = vec![
        SeatView { open: vec![], kawa: vec![m(1)], is_riichi: false, is_self: true },
        SeatView { open: vec![Mentsu::Koutsu([east, east, east], true)], kawa: vec![m(4), p(5)], is_riichi: true, is_self: false },
        SeatView {
            open: vec![
                Mentsu::Shuntsu([s(1), s(2), s(3)], true),
                Mentsu::Shuntsu([s(4), s(5), s(6)], true),
                Mentsu::Koutsu([p(9), p(9), p(9)], true),
            ],
            kawa: vec![s(6)],
            is_riichi: false,
            is_self: false,
        },
        SeatView { open: vec![], kawa: vec![h(Honor::North)], is_riichi: false, is_self: false },
    ];
    let r = read_table(&seats, &[east]);
    let mut expected = [0u8; 34];
    expected[0] = 1;
    expected[3] = 1;
    expected[13] = 1;
    expected[17] = 3;
    expected[18] = 1;
    expected[19] = 1;
    expected[20] = 1;
    expected[21] = 1;
    expected[22] = 1;
    expected[23] = 2;
    expected[27] = 4;
    expected[30] = 1;
    assert_eq!(r.visible, expected);
    assert!(r.is_threat);
    assert_eq!(r.threat_discards, vec![m(4), p(5), s(6)]);
    assert_eq!(dead_honors(&r.visible), vec![east]);
}

#[test]
fn a_quiet_table_holds_no_threat() {
    let seats = vec![
        SeatView { open: vec![Mentsu::Koutsu([m(2), m(2), m(2)], true)], kawa: vec![m(1)], is_riichi: false, is_self: true },
        SeatView { open: vec![], kawa: vec![p(1)], is_riichi: false, is_self: false },
    ];
    let r = read_table(&seats, &[]);
    assert!(!r.is_threat);
    assert!(r.threat_discards.is_empty());
    assert_eq!(r.visible[1], 0);
    assert_eq!(r.visible[0], 1);
    assert_eq!(r.visible[9], 1);
}

#[test]
fn widest_wait_among_riichi_discards() {
    let hand = tenpai_after_north();
    assert_eq!(best_wait_count(&hand, &[h(Honor::North), p(2)]), 3);
    assert_eq!(best_wait_count(&hand, &[p(2)]), 0);
    assert_eq!(best_wait_count(&hand, &[]), 0);
}

#[test]
fn riichi_value_counts_dora() {
    let hand = tenpai_after_north();
    let dead_wall = DeadWall { dora_indicators: vec![m(4)], ura_indicators: vec![], rinshan_tiles: vec![], filler_tiles: vec![] };
    assert_eq!(riichi_hand_value(&hand, &Wind::East, &Wind::East, &dead_wall), 2);
}

#[test]
fn riichi_decisions() {
    assert!(!decide_riichi(true, true, false, false, 2, 3, false));
    assert!(decide_riichi(false, true, true, true, 6, 1, true));
    assert!(!decide_riichi(false, false, false, false, 6, 3, false));
    assert!(!decide_riichi(false, true, true, false, 2, 1, true));
    assert!(decide_riichi(false, true, true, false, 2, 1, false));
    assert!(!decide_riichi(false, true, false, true, 2, 1, false));
    assert!(decide_riichi(false, false, true, true, 2, 2, true));
}

#[test]
fn main_phase_priorities() {
    let kans = vec![m(3)];
    assert_eq!(main_phase_action(true, true, true, &kans, &[], true), MainPhaseAction::Tsumo);
    assert_eq!(main_phase_action(false, true, true, &kans, &[], true), MainPhaseAction::Riichi);
    assert_eq!(main_phase_action(false, true, false, &kans, &[], true), MainPhaseAction::Pass);
    assert_eq!(main_phase_action(false, false, false, &kans, &[p(1)], true), MainPhaseAction::Ankan(m(3)));
    assert_eq!(main_phase_action(false, false, false, &[], &[p(1)], true), MainPhaseAction::Shouminkan(p(1)));
    assert_eq!(main_phase_action(false, false, false, &[], &[], true), MainPhaseAction::Kyuushu);
    assert_eq!(main_phase_action(false, false, false, &[], &[], false), MainPhaseAction::Pass);
}

#[test]
fn a_cheat_takes_the_winning_tile() {
    let hand = tenpai_after_north();
    let kawas = vec![vec![p(1), s(1)], vec![]];
    let swaps = best_swaps(&hand, &[], &kawas, &[0u8; 34], &[]);
    assert_eq!(swaps, vec![Swap { seat: 0, kawa_idx: 0, taken: p(1), hand_idx: 13, given: h(Honor::North) }]);
}

#[test]
fn a_complete_hand_has_nothing_to_gain() {
    let hand = vec![m(1), m(2), m(3), p(4), p(5), p(6), s(7), s(8), s(9), m(5), m(5), p(1), p(2), p(3)];
    let kawas = vec![vec![h(Honor::East)]];
    assert!(best_swaps(&hand, &[], &kawas, &[0u8; 34], &[]).is_empty());
}

#[test]
fn carrying_out_a_swap() {
    let mut hand = vec![m(3), m(1)];
    let mut drawn = Some(p(5));
    let mut kawa = vec![s(1), s(2)];
    apply_swap(&mut hand, &mut drawn, &mut kawa, Swap { seat: 0, kawa_idx: 1, taken: s(2), hand_idx: 0, given: m(3) });
    assert_eq!(kawa, vec![s(1), m(3)]);
    assert_eq!(hand, vec![m(1), s(2)]);
    assert_eq!(drawn, Some(p(5)));
    apply_swap(&mut hand, &mut drawn, &mut kawa, Swap { seat: 0, kawa_idx: 0, taken: s(1), hand_idx: 2, given: p(5) });
    assert_eq!(kawa, vec![p(5), m(3)]);
    assert_eq!(hand, vec![m(1), s(2)]);
    assert_eq!(drawn, Some(s(1)));
}

#[test]
fn call_decisions() {
    let sc = CallScore { han: 1, neg_shanten: -1, ukeire: 10, dora: 0 };
    let best = Some((sc, 1usize));
    assert_eq!(decide_call(Some(1), false, TargetYaku::Speed, &m(3), true, false, 2, best, &[], false), CallAction::Ron);
    assert_eq!(decide_call(Some(1), true, TargetYaku::Speed, &m(3), false, false, 2, best, &[], true), CallAction::Skip);
    assert_eq!(decide_call(Some(2), true, TargetYaku::Speed, &m(3), true, false, 2, best, &[], true), CallAction::Ron);
    assert_eq!(decide_call(None, false, TargetYaku::Speed, &m(3), true, false, 2, best, &[], true), CallAction::Pon);
    assert_eq!(decide_call(None, false, TargetYaku::Speed, &m(3), true, false, 2, best, &[], false), CallAction::Skip);
    assert_eq!(decide_call(None, false, TargetYaku::Pinfu, &m(3), true, false, 2, best, &[], true), CallAction::Skip);
    assert_eq!(decide_call(None, false, TargetYaku::Speed, &m(3), true, true, 0, best, &[], true), CallAction::Skip);
    let dragon = Some((CallScore { han: 1, neg_shanten: -2, ukeire: 3, dora: 0 }, 0usize));
    assert_eq!(
        decide_call(None, true, TargetYaku::Daisangen, &h(Honor::Red), true, true, 0, dragon, &[], false),
        CallAction::Daiminkan
    );
    let chi = Some((sc, 3usize));
    assert_eq!(
        decide_call(None, false, TargetYaku::Speed, &m(3), true, false, 2, chi, &[ChiTilePos::Left, ChiTilePos::Right], true),
        CallAction::Chi(ChiTilePos::Right)
    );
    assert_eq!(decide_call(None, false, TargetYaku::Speed, &m(3), true, false, 2, None, &[], true), CallAction::Skip);
}

#[test]
fn a_swap_moves_tiles_and_makes_none() {
    let mut hand = vec![m(7), p(2), s(3)];
    let mut drawn = Some(h(Honor::West));
    let mut kawa = vec![m(1), m(9), p(5)];
    let mut before: Vec<Tile> = hand.iter().chain(drawn.iter()).chain(kawa.iter()).copied().collect();
    apply_swap(&mut hand, &mut drawn, &mut kawa, Swap { seat: 1, kawa_idx: 2, taken: p(5), hand_idx: 1, given: p(2) });
    let mut after: Vec<Tile> = hand.iter().chain(drawn.iter()).chain(kawa.iter()).copied().collect();
    before.sort();
    after.sort();
    assert_eq!(before, after);
    assert_eq!(hand, vec![m(7), p(5), s(3)]);
    assert_eq!(kawa, vec![m(1), m(9), p(2)]);
}
