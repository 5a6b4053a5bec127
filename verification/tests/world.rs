use risk::Coord;
use risk::RegionId;
use risk::init;

#[test]
fn world_has_six_continents_with_documented_bonuses() {
    let game = init(4);
    assert_eq!(game.continents.len(), 6);
    let bonuses: Vec<i8> = game.continents.iter().map(|c| c.bonus).collect();
    assert_eq!(bonuses, vec![5, 2, 5, 3, 7, 2]);
}

#[test]
fn world_has_forty_two_regions() {
    let game = init(4);
    let total: usize = game.continents.iter().map(|c| c.regions.len()).sum();
    assert_eq!(total, 42);
    let sizes: Vec<usize> = game.continents.iter().map(|c| c.regions.len()).collect();
    assert_eq!(sizes, vec![9, 4, 7, 6, 12, 4]);
}

#[test]
fn adjacency_is_symmetric() {
    let game = init(2);
    for (c, continent) in game.continents.iter().enumerate() {
        for (r, region) in continent.regions.iter().enumerate() {
            for n in region.neighbors.iter() {
                assert!(n.continent < game.continents.len());
                let other = &game.continents[n.continent].regions[n.region];
                let me = Coord { continent: c, region: r };
                assert!(
                    other.neighbors.contains(&me),
                    "neighbor of ({}, {}) does not list it back",
                    c,
                    r
                );
            }
        }
    }
}

#[test]
fn all_regions_start_unowned_and_empty() {
    let game = init(3);
    for continent in game.continents.iter() {
        for region in continent.regions.iter() {
            assert_eq!(region.owner, -1);
            assert_eq!(region.num_troops, 0);
        }
    }
}

#[test]
fn init_stores_player_count_and_first_player() {
    let game = init(5);
    assert_eq!(game.num_players, 5);
    assert_eq!(game.current_player, 0);
}

#[test]
fn region_lookup_by_coordinate() {
    let game = init(2);
    let alaska = game.region(Coord { continent: 0, region: 0 });
    assert!(matches!(alaska.id, RegionId::Alaska));
    let eastern_australia = game.region(Coord { continent: 5, region: 3 });
    assert!(matches!(eastern_australia.id, RegionId::EasternAustralia));
    let madagascar = game.region(Coord { continent: 3, region: 5 });
    assert!(matches!(madagascar.id, RegionId::Madagascar));
}

#[test]
fn set_region_state_overwrites_owner_and_troops_only() {
    let mut game = init(2);
    let at = Coord { continent: 2, region: 4 };
    game.set_region_state(at, 1, 7);
    let region = game.region(at);
    assert_eq!(region.owner, 1);
    assert_eq!(region.num_troops, 7);
    assert!(matches!(region.id, RegionId::NorthernEurope));
    let neighbors = region.neighbors.clone();
    assert_eq!(neighbors.len(), 5);
    let untouched = game.region(Coord { continent: 2, region: 3 });
    assert_eq!(untouched.owner, -1);
    assert_eq!(untouched.num_troops, 0);
}
