use mahjong::aborts::{player_and_total_kan_count, sanchahou, suucha_riichi, suufon_renda, suukaikan};
use mahjong::executions::{build_shot_queue, fire_shots, resolve_accusation, AfterShot, PendingSelection, RoundOutcome, Shot};
use mahjong::round::{
    advance_round, clear_table, match_transition, next_step, next_turn, rank_seats, rotate_dealer, GameState, NextStep,
    RoundEndReason,
};
use mahjong::scoring::{calculate_score, HandResult, ScorePayout};
use mahjong::settle::{pay_riichi_stick, ron_round_reason, settle_ron, settle_tsumo, tenpai_payout, RonWin};
use mahjong::table::{Hand, Kawa, OpenMentsu, Revolver, Wall};
use mahjong::tile::{all_tiles, Honor, Kantsu, MatchPhase, Mentsu, Tile, Wind};
use mahjong::turns::{apply_daiminkan, apply_discard, apply_drawn_kan, is_double_riichi};

fn game(phase: MatchPhase, bakaze: Wind, rounds: u8, honba: u8) -> GameState {
    GameState {
        match_phase: phase,
        rounds,
        honba,
        bakaze,
        bullet: 0,
        calls_made: true,
        riichi_points: 0,
        pending_kan_dora: true,
        pending_rinshan: true,
    }
}

fn win(han: u8, yakuman: bool) -> HandResult {
    HandResult {
        yaku_names: vec!["Riichi".to_string()],
        dora_count: 0,
        ura_dora_count: 0,
        total_han: han,
        total_fu: 30,
        is_yakuman: yakuman,
    }
}

#[test]
fn ron_payment_with_honba_and_sticks() {
    let mut points = vec![25000, 25000, 25000, 25000];
    let mut sticks = 2000u32;
    let wins = vec![RonWin { seat: 2, wind: Wind::West, total_won: 7700 }];
    settle_ron(&mut points, &wins, 1, Wind::South, 2, &mut sticks, 4);
    assert_eq!(points, vec![25000, 25000 - 8300, 25000 + 8300 + 2000, 25000]);
    assert_eq!(sticks, 0);
    assert_eq!(points.iter().sum::<i32>(), 100000 + 2000);
}

#[test]
fn double_ron_sticks_go_to_one_winner() {
    let mut points = vec![25000, 25000, 25000, 25000];
    let mut sticks = 1000u32;
    let wins = vec![
        RonWin { seat: 2, wind: Wind::West, total_won: 1000 },
        RonWin { seat: 3, wind: Wind::North, total_won: 2000 },
    ];
    settle_ron(&mut points, &wins, 1, Wind::South, 0, &mut sticks, 4);
    assert_eq!(points, vec![25000, 22000, 26000, 28000]);
    assert_eq!(sticks, 0);
}

#[test]
fn sticks_go_to_the_winner_seated_just_before_the_discarder() {
    let mut points = vec![25000, 25000, 25000, 25000];
    let mut sticks = 2000u32;
    let wins = vec![
        RonWin { seat: 2, wind: Wind::West, total_won: 1000 },
        RonWin { seat: 1, wind: Wind::South, total_won: 1000 },
    ];
    settle_ron(&mut points, &wins, 0, Wind::East, 0, &mut sticks, 4);
    assert_eq!(points, vec![23000, 26000, 28000, 25000]);
    assert_eq!(sticks, 0);
}

#[test]
fn ron_without_winner_changes_nothing() {
    let mut points = vec![25000, 25000];
    let mut sticks = 3000u32;
    settle_ron(&mut points, &vec![], 0, Wind::East, 1, &mut sticks, 2);
    assert_eq!(points, vec![25000, 25000]);
    assert_eq!(sticks, 3000);
}

#[test]
fn tsumo_payment_four_players() {
    let names = vec!["Menzen Tsumo".to_string()];
    let score = calculate_score(4, 20, false, true, false, &names);
    let mut points = vec![25000, 25000, 25000, 25000];
    let mut sticks = 1000u32;
    settle_tsumo(&mut points, &vec![true; 4], 1, 0, &score, 1, &mut sticks);
    assert_eq!(points, vec![25000 - 2700, 25000 + 5200 + 1000 + 300, 25000 - 1400, 25000 - 1400]);
    assert_eq!(points.iter().sum::<i32>(), 101000);
    assert_eq!(sticks, 0);
}

#[test]
fn tsumo_skips_eliminated_seats() {
    let score = ScorePayout { total_won: 3000, oya_pays: 0, non_oya_pays: 1000 };
    let mut points = vec![25000, 25000, 25000, 0];
    let mut sticks = 0u32;
    settle_tsumo(&mut points, &vec![true, true, true, false], 0, 0, &score, 0, &mut sticks);
    assert_eq!(points, vec![28000, 24000, 24000, 0]);
}

#[test]
fn tenpai_payments() {
    let alive = vec![true; 4];
    let mut points = vec![25000; 4];
    tenpai_payout(&mut points, &alive, &vec![true, false, false, false]);
    assert_eq!(points, vec![28000, 24000, 24000, 24000]);
    let mut points = vec![25000; 4];
    tenpai_payout(&mut points, &alive, &vec![true, true, false, false]);
    assert_eq!(points, vec![26500, 26500, 23500, 23500]);
    let mut points = vec![25000; 4];
    tenpai_payout(&mut points, &alive, &vec![true, true, true, false]);
    assert_eq!(points, vec![26000, 26000, 26000, 22000]);
    let mut points = vec![25000; 4];
    tenpai_payout(&mut points, &alive, &vec![true; 4]);
    assert_eq!(points, vec![25000; 4]);
}

#[test]
fn riichi_stick_moves_to_the_table() {
    let mut points = vec![25000, 25000];
    let mut sticks = 0u32;
    pay_riichi_stick(&mut points, 1, &mut sticks);
    assert_eq!(points, vec![25000, 24000]);
    assert_eq!(sticks, 1000);
    assert!(is_double_riichi(&Kawa(vec![]), false));
    assert!(!is_double_riichi(&Kawa(vec![Tile::Man(1)]), false));
}

#[test]
fn round_counter_moves_on() {
    let mut g = game(MatchPhase::Yonma, Wind::East, 2, 3);
    let a = advance_round(&mut g, RoundEndReason::OyaWin);
    assert!(!a.dealer_moves && !a.match_end);
    assert_eq!((g.honba, g.rounds, g.bakaze), (4, 2, Wind::East));
    assert!(!g.calls_made && !g.pending_kan_dora && !g.pending_rinshan);
    let a = advance_round(&mut g, RoundEndReason::NonOyaWin);
    assert!(a.dealer_moves && !a.match_end);
    assert_eq!((g.honba, g.rounds, g.bakaze), (0, 3, Wind::East));
    let mut g = game(MatchPhase::Yonma, Wind::East, 4, 0);
    advance_round(&mut g, RoundEndReason::RyuukyokuOyaNoten);
    assert_eq!((g.rounds, g.bakaze), (1, Wind::South));
    let mut g = game(MatchPhase::Sanma, Wind::South, 3, 0);
    let a = advance_round(&mut g, RoundEndReason::NonOyaWin);
    assert!(a.match_end);
    let mut g = game(MatchPhase::Nima, Wind::South, 2, 0);
    let a = advance_round(&mut g, RoundEndReason::NonOyaWin);
    assert!(!a.match_end);
    assert_eq!((g.rounds, g.bakaze), (1, Wind::East));
    let mut g = game(MatchPhase::Yonma, Wind::South, 4, 5);
    let a = advance_round(&mut g, RoundEndReason::TochuuRyuukyoku);
    assert!(!a.dealer_moves && !a.match_end);
    assert_eq!(g.honba, 6);
}

#[test]
fn dealer_passes_to_next_living_player() {
    let mut winds = vec![Wind::East, Wind::South, Wind::West, Wind::North];
    let dealer = rotate_dealer(&mut winds, &vec![true; 4]);
    assert_eq!(dealer, 1);
    assert_eq!(winds, vec![Wind::North, Wind::East, Wind::South, Wind::West]);
    let mut winds = vec![Wind::East, Wind::South, Wind::West, Wind::North];
    let dealer = rotate_dealer(&mut winds, &vec![true, false, true, true]);
    assert_eq!(dealer, 2);
    assert_eq!(winds, vec![Wind::West, Wind::North, Wind::East, Wind::South]);
}

#[test]
fn turn_passes_in_wind_order() {
    let winds = vec![Wind::East, Wind::South, Wind::West, Wind::North];
    assert_eq!(next_turn(&winds, &vec![true; 4], 0), Some(1));
    assert_eq!(next_turn(&winds, &vec![true; 4], 3), Some(0));
    assert_eq!(next_turn(&winds, &vec![true, false, true, true], 0), Some(2));
    assert_eq!(next_turn(&winds, &vec![false, true, true, true], 0), None);
}

#[test]
fn phase_change_ranks_and_splits_the_pool() {
    let points = vec![30000, 10000, 30000, 30000];
    let winds = vec![Wind::South, Wind::East, Wind::North, Wind::West];
    assert_eq!(rank_seats(&points, &winds, &vec![true; 4]), vec![0, 3, 2, 1]);
    let mut g = game(MatchPhase::Yonma, Wind::South, 4, 2);
    g.riichi_points = 2000;
    let mut revolver = Revolver { bullet: 5, chamber: 4 };
    let change = match_transition(&mut g, &mut revolver, &points, &winds, &vec![true; 4]);
    assert_eq!(g.match_phase, MatchPhase::Sanma);
    assert_eq!(g.bakaze, Wind::East);
    assert_eq!((g.rounds, g.honba, g.riichi_points), (1, 0, 0));
    assert!(!g.calls_made && !g.pending_kan_dora && !g.pending_rinshan);
    assert_eq!(revolver.chamber, 1);
    assert!(revolver.bullet >= 1 && revolver.bullet <= 6);
    assert_eq!(change.new_phase, MatchPhase::Sanma);
    assert_eq!(change.eliminated, Some(1));
    let got: Vec<(usize, i32, Wind)> = change.standings.iter().map(|s| (s.seat, s.points, s.wind)).collect();
    assert_eq!(got, vec![(0, 36000, Wind::East), (3, 28800, Wind::South), (2, 25200, Wind::West)]);
    let mut g = game(MatchPhase::Sanma, Wind::East, 2, 0);
    let after_shot = match_transition(&mut g, &mut revolver, &vec![20000, 40000, 0], &vec![Wind::East, Wind::South, Wind::West], &vec![true, true, false]);
    assert_eq!(g.match_phase, MatchPhase::Nima);
    assert_eq!(after_shot.new_phase, MatchPhase::Nima);
    assert_eq!(after_shot.eliminated, Some(2));
    let got: Vec<(usize, i32, Wind)> = after_shot.standings.iter().map(|s| (s.seat, s.points, s.wind)).collect();
    assert_eq!(got, vec![(1, 36000, Wind::East), (0, 24000, Wind::South)]);
}

#[test]
fn shot_queue_for_a_round() {
    let ron = RoundOutcome { winners: vec![(2, win(8, false), 16000), (3, win(1, false), 1000)], loser: Some(1), is_tsumo: false, tochuu_causer: vec![] };
    let (queue, pick) = build_shot_queue(&ron, 0);
    assert_eq!(
        queue,
        vec![Shot { shooter: 2, target: 1 }, Shot { shooter: 2, target: 1 }, Shot { shooter: 0, target: 3 }]
    );
    assert_eq!(pick, None);
    let tsumo = RoundOutcome { winners: vec![(1, win(0, true), 32000)], loser: None, is_tsumo: true, tochuu_causer: vec![] };
    let (queue, pick) = build_shot_queue(&tsumo, 0);
    assert!(queue.is_empty());
    assert_eq!(pick, Some(PendingSelection { shooter: 1, remaining_picks: 3 }));
    let abort = RoundOutcome { winners: vec![], loser: None, is_tsumo: false, tochuu_causer: vec![3] };
    let (queue, _) = build_shot_queue(&abort, 0);
    assert_eq!(queue, vec![Shot { shooter: 0, target: 3 }]);
}

#[test]
fn shots_stop_at_the_bullet() {
    let queue = vec![Shot { shooter: 0, target: 1 }, Shot { shooter: 0, target: 2 }, Shot { shooter: 0, target: 3 }];
    let mut r = Revolver { bullet: 2, chamber: 1 };
    assert_eq!(fire_shots(&queue, &mut r), Some(1));
    assert_eq!(r.chamber, 1);
    assert!(r.bullet >= 1 && r.bullet <= 6);
    let mut r = Revolver { bullet: 6, chamber: 1 };
    assert_eq!(fire_shots(&queue, &mut r), None);
    assert_eq!((r.bullet, r.chamber), (6, 4));
}

#[test]
fn revolver_fires_within_six_pulls() {
    let mut r = Revolver::new();
    assert_eq!(r.chamber, 1);
    let mut pulls = 0;
    loop {
        pulls += 1;
        if r.pull() {
            break;
        }
    }
    assert!(pulls <= 6);
}

#[test]
fn accusations() {
    let mut r = Revolver { bullet: 1, chamber: 1 };
    let (shot, next) = resolve_accusation(0, 2, true, MatchPhase::Yonma, &mut r);
    assert_eq!(shot, Shot { shooter: 0, target: 2 });
    assert_eq!(next, AfterShot::MatchTransition);
    let mut r = Revolver { bullet: 3, chamber: 1 };
    let (shot, next) = resolve_accusation(0, 2, false, MatchPhase::Nima, &mut r);
    assert_eq!(shot, Shot { shooter: 2, target: 0 });
    assert_eq!(next, AfterShot::Continue);
    let mut r = Revolver { bullet: 1, chamber: 1 };
    let (_, next) = resolve_accusation(0, 1, true, MatchPhase::Nima, &mut r);
    assert_eq!(next, AfterShot::GameOver);
}

#[test]
fn abortive_draws() {
    assert!(sanchahou(3, 4));
    assert!(!sanchahou(2, 4));
    assert!(!sanchahou(1, 2));
    let east = Tile::Honor(Honor::East);
    assert!(suufon_renda(false, &vec![vec![east]; 4]));
    assert!(!suufon_renda(true, &vec![vec![east]; 4]));
    assert!(!suufon_renda(false, &vec![vec![east], vec![east], vec![Tile::Honor(Honor::South)], vec![east]]));
    assert!(!suufon_renda(false, &vec![vec![Tile::Honor(Honor::Red)]; 4]));
    assert!(suucha_riichi(4));
    assert!(!suucha_riichi(3));
    let kan = Mentsu::Ankan([Tile::Man(1); 4]);
    let opens = vec![vec![kan, kan], vec![kan], vec![], vec![Mentsu::Koutsu([Tile::Pin(2); 3], false), kan]];
    assert_eq!(player_and_total_kan_count(&opens), (3, 4));
    assert!(suukaikan(3, 4));
    assert!(!suukaikan(1, 4));
}

#[test]
fn wall_draws_and_indicators() {
    let mut tiles = Vec::new();
    for _ in 0..4 {
        tiles.extend(all_tiles());
    }
    let mut wall = Wall { tiles, head: 0, tail: 122, dora_count: 1, rinshan_draws: 0, rinshan_max: 4, dice_roll: 7 };
    assert_eq!(wall.remaining_draws(), 122);
    assert_eq!(wall.draw(), Some(Tile::Man(1)));
    assert_eq!(wall.remaining_draws(), 121);
    assert_eq!(wall.rinshan_draw(), Some(wall.tiles[122]));
    assert_eq!(wall.remaining_draws(), 120);
    assert_eq!(wall.get_dora_indicators(), vec![wall.tiles[126]]);
    assert_eq!(wall.get_ura_indicators(), vec![wall.tiles[127]]);
    let shuffled = Wall::new(wall.tiles.clone(), MatchPhase::Sanma, 5);
    assert_eq!(shuffled.tiles.len(), 136);
    assert_eq!(shuffled.rinshan_max, 8);
    let mut sorted = shuffled.tiles.clone();
    sorted.sort();
    let mut expected = wall.tiles.clone();
    expected.sort();
    assert_eq!(sorted, expected);
}

#[test]
fn discards_and_kans() {
    let mut hand = Hand(vec![Tile::Man(3), Tile::Man(1), Tile::Pin(2)]);
    let mut kawa = Kawa(vec![]);
    let put = apply_discard(&mut hand, &mut kawa, Some(Tile::Sou(5)), Tile::Man(3), false, false, &[]);
    assert_eq!(put, Some(Tile::Man(3)));
    assert_eq!(hand.0, vec![Tile::Man(1), Tile::Pin(2), Tile::Sou(5)]);
    assert_eq!(kawa.0, vec![Tile::Man(3)]);
    let refused = apply_discard(&mut hand, &mut kawa, None, Tile::Pin(2), false, false, &[Tile::Pin(2)]);
    assert_eq!(refused, None);
    assert_eq!(kawa.0.len(), 1);
    let riichi = apply_discard(&mut hand, &mut kawa, Some(Tile::Sou(9)), Tile::Man(1), false, true, &[]);
    assert_eq!(riichi, Some(Tile::Sou(9)));
    assert_eq!(hand.0, vec![Tile::Man(1), Tile::Pin(2), Tile::Sou(5)]);

    let mut hand = Hand(vec![Tile::Man(7), Tile::Man(7), Tile::Man(7), Tile::Pin(1)]);
    let mut open = OpenMentsu(vec![]);
    assert_eq!(apply_drawn_kan(&mut hand, &mut open, Some(Tile::Man(7)), Tile::Man(7)), Some(Kantsu::Ankan));
    assert_eq!(hand.0, vec![Tile::Pin(1)]);
    assert_eq!(open.0, vec![Mentsu::Ankan([Tile::Man(7); 4])]);
    let mut hand = Hand(vec![Tile::Pin(1)]);
    let mut open = OpenMentsu(vec![Mentsu::Koutsu([Tile::Sou(4); 3], false)]);
    assert_eq!(apply_drawn_kan(&mut hand, &mut open, Some(Tile::Sou(4)), Tile::Sou(4)), Some(Kantsu::Shouminkan));
    assert_eq!(hand.0, vec![Tile::Pin(1)]);
    assert_eq!(open.0, vec![Mentsu::Shouminkan([Tile::Sou(4); 4])]);
    let mut hand = Hand(vec![Tile::Pin(1)]);
    let mut open = OpenMentsu(vec![]);
    assert_eq!(apply_drawn_kan(&mut hand, &mut open, Some(Tile::Sou(4)), Tile::Sou(4)), None);
    assert_eq!(hand.0, vec![Tile::Pin(1), Tile::Sou(4)]);
    let mut hand = Hand(vec![Tile::Honor(Honor::Red); 3]);
    let mut open = OpenMentsu(vec![]);
    assert!(apply_daiminkan(&mut hand, &mut open, Tile::Honor(Honor::Red)));
    assert!(hand.0.is_empty());
    assert_eq!(open.0, vec![Mentsu::Daiminkan([Tile::Honor(Honor::Red); 4])]);
}

#[test]
fn a_discard_moves_one_tile() {
    let before = vec![Tile::Pin(4), Tile::Man(2), Tile::Honor(Honor::East), Tile::Man(2)];
    let drawn = Tile::Sou(6);
    let mut hand = Hand(before.clone());
    let mut kawa = Kawa(vec![]);
    let put = apply_discard(&mut hand, &mut kawa, Some(drawn), Tile::Man(2), false, false, &[]).unwrap();
    let mut after = hand.0.clone();
    after.push(put);
    after.sort();
    let mut all = before.clone();
    all.push(drawn);
    all.sort();
    assert_eq!(after, all);
    assert_eq!(hand.0, vec![Tile::Man(2), Tile::Pin(4), Tile::Sou(6), Tile::Honor(Honor::East)]);
}

#[test]
fn after_a_hand_the_table_is_cleared() {
    let mut hands = vec![Hand(vec![Tile::Man(1)]), Hand(vec![])];
    let mut opens = vec![OpenMentsu(vec![Mentsu::Koutsu([Tile::Pin(2); 3], false)]), OpenMentsu(vec![])];
    let mut kawas = vec![Kawa(vec![Tile::Sou(3)]), Kawa(vec![Tile::Sou(4), Tile::Sou(5)])];
    clear_table(&mut hands, &mut opens, &mut kawas);
    assert_eq!(hands.len(), 2);
    assert_eq!(opens.len(), 2);
    assert_eq!(kawas.len(), 2);
    assert!(hands.iter().all(|h| h.0.is_empty()));
    assert!(opens.iter().all(|o| o.0.is_empty()));
    assert!(kawas.iter().all(|k| k.0.is_empty()));
}

#[test]
fn the_step_after_a_hand() {
    assert_eq!(next_step(true, true), NextStep::Execution);
    assert_eq!(next_step(false, true), NextStep::MatchTransition);
    assert_eq!(next_step(false, false), NextStep::StartNewRound);
}

#[test]
fn a_ron_round_is_the_dealers_when_the_dealer_wins() {
    let wins = vec![RonWin { seat: 2, wind: Wind::West, total_won: 1000 }, RonWin { seat: 0, wind: Wind::East, total_won: 1500 }];
    assert_eq!(ron_round_reason(&wins, 0), RoundEndReason::OyaWin);
    assert_eq!(ron_round_reason(&wins, 1), RoundEndReason::NonOyaWin);
    assert_eq!(ron_round_reason(&vec![], 1), RoundEndReason::NonOyaWin);
}
