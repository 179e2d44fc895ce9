use mahjong::exhaustive::{exhaustive_draw, nagashi_mangan, nagashi_result};
use mahjong::round::RoundEndReason;
use mahjong::table::Kawa;
use mahjong::tile::{Honor, Tile};

#[test]
fn nagashi_needs_only_terminals_and_honors() {
    assert!(nagashi_mangan(&Kawa(vec![Tile::Man(1), Tile::Honor(Honor::Red), Tile::Sou(9)])));
    assert!(!nagashi_mangan(&Kawa(vec![Tile::Man(1), Tile::Pin(5)])));
    assert!(nagashi_mangan(&Kawa(vec![])));
}

#[test]
fn nagashi_is_recorded_as_a_mangan() {
    let r = nagashi_result();
    assert_eq!(r.yaku_names, vec!["Nagashi Mangan".to_string()]);
    assert_eq!(r.total_han, 5);
    assert_eq!(r.total_fu, 20);
    assert!(!r.is_yakuman);
}

#[test]
fn plain_exhaustive_draw_moves_no_points() {
    let mut points = vec![25000, 25000, 25000, 25000];
    let (reason, outcome) = exhaustive_draw(&mut points, &vec![false; 4], 0, true);
    assert_eq!(reason, RoundEndReason::RyuukyokuOyaTenpai);
    assert!(outcome.is_none());
    assert_eq!(points, vec![25000, 25000, 25000, 25000]);
    let (reason, _) = exhaustive_draw(&mut points, &vec![false; 4], 0, false);
    assert_eq!(reason, RoundEndReason::RyuukyokuOyaNoten);
}

#[test]
fn nagashi_of_a_non_dealer() {
    let mut points = vec![25000, 25000, 25000, 25000];
    let (reason, outcome) = exhaustive_draw(&mut points, &vec![false, false, true, false], 0, true);
    assert_eq!(reason, RoundEndReason::NonOyaWin);
    assert_eq!(points, vec![21000, 23000, 33000, 23000]);
    let o = outcome.unwrap();
    assert_eq!(o.winners.len(), 1);
    assert_eq!(o.winners[0].0, 2);
    assert_eq!(o.winners[0].2, 8000);
    assert!(o.is_tsumo);
    assert_eq!(o.loser, None);
}

#[test]
fn nagashi_of_the_dealer_and_another() {
    let mut points = vec![25000, 25000, 25000, 25000];
    let (reason, outcome) = exhaustive_draw(&mut points, &vec![true, true, false, false], 0, false);
    assert_eq!(reason, RoundEndReason::OyaWin);
    assert_eq!(points, vec![25000 + 12000 - 4000, 25000 - 4000 + 8000, 25000 - 4000 - 2000, 25000 - 4000 - 2000]);
    let o = outcome.unwrap();
    assert_eq!(o.winners.iter().map(|w| (w.0, w.2)).collect::<Vec<_>>(), vec![(0, 12000), (1, 8000)]);
    assert_eq!(points.iter().sum::<i32>(), 100000);
}
