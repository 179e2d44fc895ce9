use mahjong::nuki::{apply_nukidora, nuki_options};
use mahjong::round::GameState;
use mahjong::table::Hand;
use mahjong::tile::{Honor, MatchPhase, Tile, Wind};

fn north() -> Tile {
    Tile::Honor(Honor::North)
}

#[test]
fn north_can_be_set_aside_with_three_players() {
    let hand = vec![Tile::Man(1), north(), Tile::Pin(3)];
    assert_eq!(nuki_options(&hand, Tile::Sou(2), false, MatchPhase::Sanma), vec![north()]);
    assert_eq!(nuki_options(&hand, Tile::Sou(2), false, MatchPhase::Yonma), Vec::<Tile>::new());
    assert_eq!(nuki_options(&hand, Tile::Sou(2), true, MatchPhase::Sanma), Vec::<Tile>::new());
    assert_eq!(nuki_options(&hand, north(), true, MatchPhase::Nima), vec![north()]);
    assert_eq!(nuki_options(&[Tile::Man(1)], Tile::Sou(2), false, MatchPhase::Sanma), Vec::<Tile>::new());
}

#[test]
fn setting_north_aside() {
    let mut game = GameState {
        match_phase: MatchPhase::Sanma,
        rounds: 1,
        honba: 0,
        bakaze: Wind::East,
        bullet: 1,
        calls_made: false,
        riichi_points: 0,
        pending_kan_dora: false,
        pending_rinshan: false,
    };
    let mut hand = Hand(vec![Tile::Man(1), north(), Tile::Pin(3)]);
    let mut drawn = Some(Tile::Sou(2));
    let mut nuked = vec![];
    apply_nukidora(&mut hand, &mut drawn, &mut nuked, &mut game, north());
    assert_eq!(hand.0, vec![Tile::Man(1), Tile::Pin(3), Tile::Sou(2)]);
    assert_eq!(drawn, None);
    assert_eq!(nuked, vec![north()]);
    assert!(game.pending_rinshan);

    let mut drawn = Some(north());
    apply_nukidora(&mut hand, &mut drawn, &mut nuked, &mut game, north());
    assert_eq!(hand.0, vec![Tile::Man(1), Tile::Pin(3), Tile::Sou(2)]);
    assert_eq!(nuked, vec![north(), north()]);
}
