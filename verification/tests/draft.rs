use risk::Coord;
use risk::init;

fn give(game: &mut risk::Game, c: usize, r: usize, owner: i8, troops: i16) {
    game.set_region_state(Coord { continent: c, region: r }, owner, troops);
}

#[test]
fn player_with_no_regions_drafts_zero() {
    let game = init(2);
    assert_eq!(game.num_draft_troops(0), 0);
    assert_eq!(game.num_draft_troops(1), 0);
}

#[test]
fn full_bonus_two_continent_drafts_three() {
    // Owning all 4 regions of the bonus-2 continent and nothing else
    // yields floor(2 + 4/3) = 3.
    let mut game = init(2);
    for r in 0..4 {
        give(&mut game, 1, r, 0, 1);
    }
    assert_eq!(game.num_draft_troops(0), 3);
}

#[test]
fn partial_continent_gives_no_bonus() {
    // Three owned regions and no full continent: floor(3/3) = 1.
    let mut game = init(2);
    give(&mut game, 1, 0, 0, 1);
    give(&mut game, 1, 1, 0, 1);
    give(&mut game, 1, 2, 0, 1);
    assert_eq!(game.num_draft_troops(0), 1);
}

#[test]
fn two_owned_regions_draft_zero() {
    // floor(2/3) = 0 and no full continent.
    let mut game = init(2);
    give(&mut game, 0, 0, 1, 2);
    give(&mut game, 4, 6, 1, 2);
    assert_eq!(game.num_draft_troops(1), 0);
}

#[test]
fn full_world_drafts_all_bonuses_plus_fourteen() {
    // 42 regions give floor(42/3) = 14, bonuses give 5+2+5+3+7+2 = 24.
    let mut game = init(2);
    for c in 0..6 {
        let n = game.continents[c].regions.len();
        for r in 0..n {
            give(&mut game, c, r, 0, 1);
        }
    }
    assert_eq!(game.num_draft_troops(0), 38);
    assert_eq!(game.num_draft_troops(1), 0);
}

#[test]
fn asia_full_and_one_extra_region() {
    // All 12 of the bonus-7 continent plus one region elsewhere:
    // floor(7 + 13/3) = 11.
    let mut game = init(2);
    for r in 0..12 {
        give(&mut game, 4, r, 1, 1);
    }
    give(&mut game, 0, 0, 1, 1);
    assert_eq!(game.num_draft_troops(1), 11);
}
