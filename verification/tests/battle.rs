use risk::BattleError;
use risk::Coord;
use risk::Game;
use risk::init;

const ALASKA: Coord = Coord { continent: 0, region: 0 };
const NORTHWEST: Coord = Coord { continent: 0, region: 1 };

/// Alaska (player 0) poised to attack Northwest Territory (player 1).
fn border_skirmish(attacker_troops: i16, defender_troops: i16) -> Game {
    let mut game = init(2);
    game.set_region_state(ALASKA, 0, attacker_troops);
    game.set_region_state(NORTHWEST, 1, defender_troops);
    game
}

#[test]
fn tie_favors_defender() {
    let mut game = border_skirmish(5, 2);
    let outcome = game.battle_with_dice(1, 1, ALASKA, NORTHWEST, 1, &vec![3], &vec![3]);
    assert_eq!(outcome.attacker_losses, 1);
    assert_eq!(outcome.defender_losses, 0);
    assert!(!outcome.conquered);
    assert_eq!(game.region(ALASKA).num_troops, 4);
    assert_eq!(game.region(NORTHWEST).num_troops, 2);
    assert_eq!(game.region(NORTHWEST).owner, 1);
}

#[test]
fn attacker_wins_pair_on_strictly_greater_die() {
    let mut game = border_skirmish(5, 2);
    let outcome = game.battle_with_dice(1, 1, ALASKA, NORTHWEST, 1, &vec![4], &vec![3]);
    assert_eq!(outcome.attacker_losses, 0);
    assert_eq!(outcome.defender_losses, 1);
    assert!(!outcome.conquered);
    assert_eq!(game.region(ALASKA).num_troops, 5);
    assert_eq!(game.region(NORTHWEST).num_troops, 1);
}

#[test]
fn two_pairs_split_losses() {
    // Dice descending: attacker 6,2 against defender 5,2. First pair
    // goes to the attacker, second is a tie for the defender.
    let mut game = border_skirmish(5, 3);
    let outcome = game.battle_with_dice(2, 2, ALASKA, NORTHWEST, 1, &vec![6, 2], &vec![5, 2]);
    assert_eq!(outcome.attacker_losses, 1);
    assert_eq!(outcome.defender_losses, 1);
    assert!(!outcome.conquered);
    assert_eq!(game.region(ALASKA).num_troops, 4);
    assert_eq!(game.region(NORTHWEST).num_troops, 2);
}

#[test]
fn third_attacker_die_is_not_compared() {
    // Three attacker dice against one defender die: only the highest
    // pair counts, the extra dice have no effect.
    let mut game = border_skirmish(6, 3);
    let outcome = game.battle_with_dice(3, 1, ALASKA, NORTHWEST, 1, &vec![5, 4, 4], &vec![6]);
    assert_eq!(outcome.attacker_losses, 1);
    assert_eq!(outcome.defender_losses, 0);
    assert_eq!(game.region(ALASKA).num_troops, 5);
    assert_eq!(game.region(NORTHWEST).num_troops, 3);
}

#[test]
fn conquest_transfers_ownership_and_moves_troops() {
    // to.troops = 1, to.owner = 1, from.owner = 0, from.troops = 5; the
    // attacker's single die beats the defender's.
    let mut game = border_skirmish(5, 1);
    let moving = 2;
    let outcome = game.battle_with_dice(1, 1, ALASKA, NORTHWEST, moving, &vec![6], &vec![3]);
    assert!(outcome.conquered);
    assert_eq!(outcome.attacker_losses, 0);
    assert_eq!(outcome.defender_losses, 1);
    assert_eq!(game.region(NORTHWEST).owner, 0);
    assert_eq!(game.region(NORTHWEST).num_troops, moving);
    assert_eq!(game.region(ALASKA).num_troops, 5 - 0 - moving);
    assert!(game.region(NORTHWEST).num_troops >= 1);
}

#[test]
fn fixed_dice_give_identical_outcomes_twice() {
    let attack = vec![5, 3];
    let defend = vec![4, 3];
    let mut first = border_skirmish(6, 2);
    let out1 = first.battle_with_dice(2, 2, ALASKA, NORTHWEST, 1, &attack, &defend);
    let mut second = border_skirmish(6, 2);
    let out2 = second.battle_with_dice(2, 2, ALASKA, NORTHWEST, 1, &attack, &defend);
    assert_eq!(out1, out2);
    assert_eq!(first.region(ALASKA).owner, second.region(ALASKA).owner);
    assert_eq!(first.region(ALASKA).num_troops, second.region(ALASKA).num_troops);
    assert_eq!(first.region(NORTHWEST).owner, second.region(NORTHWEST).owner);
    assert_eq!(
        first.region(NORTHWEST).num_troops,
        second.region(NORTHWEST).num_troops
    );
}

fn assert_unchanged(game: &Game, attacker_troops: i16, defender_troops: i16) {
    assert_eq!(game.region(ALASKA).owner, 0);
    assert_eq!(game.region(ALASKA).num_troops, attacker_troops);
    assert_eq!(game.region(NORTHWEST).owner, 1);
    assert_eq!(game.region(NORTHWEST).num_troops, defender_troops);
}

#[test]
fn four_attackers_are_rejected_without_mutation() {
    let mut game = border_skirmish(9, 2);
    let r = game.try_battle(4, 1, ALASKA, NORTHWEST, 1);
    assert_eq!(r, Err(BattleError::BadAttackerCount));
    assert_unchanged(&game, 9, 2);
}

#[test]
fn non_adjacent_attack_is_rejected_without_mutation() {
    let mut game = border_skirmish(5, 2);
    let argentina = Coord { continent: 1, region: 3 };
    game.set_region_state(argentina, 1, 2);
    let r = game.try_battle(1, 1, ALASKA, argentina, 1);
    assert_eq!(r, Err(BattleError::NotAdjacent));
    assert_unchanged(&game, 5, 2);
    assert_eq!(game.region(argentina).num_troops, 2);
}

#[test]
fn defender_dice_beyond_troops_are_rejected_without_mutation() {
    let mut game = border_skirmish(5, 1);
    let r = game.try_battle(1, 2, ALASKA, NORTHWEST, 1);
    assert_eq!(r, Err(BattleError::TooFewDefenderTroops));
    assert_unchanged(&game, 5, 1);
}

#[test]
fn out_of_range_coordinate_is_rejected() {
    let mut game = border_skirmish(5, 2);
    let nowhere = Coord { continent: 6, region: 0 };
    let r = game.try_battle(1, 1, nowhere, NORTHWEST, 1);
    assert_eq!(r, Err(BattleError::BadCoordinate));
    assert_unchanged(&game, 5, 2);
}

#[test]
fn attacking_own_region_is_rejected() {
    let mut game = border_skirmish(5, 2);
    let r = game.try_battle(1, 1, ALASKA, ALASKA, 1);
    assert_eq!(r, Err(BattleError::SameRegion));
    assert_unchanged(&game, 5, 2);
}

#[test]
fn attacker_must_leave_one_troop_behind() {
    let mut game = border_skirmish(3, 2);
    let r = game.try_battle(3, 1, ALASKA, NORTHWEST, 1);
    assert_eq!(r, Err(BattleError::TooFewAttackerTroops));
    assert_unchanged(&game, 3, 2);
}

#[test]
fn three_defender_dice_are_rejected() {
    let mut game = border_skirmish(5, 4);
    let r = game.try_battle(1, 3, ALASKA, NORTHWEST, 1);
    assert_eq!(r, Err(BattleError::BadDefenderCount));
    assert_unchanged(&game, 5, 4);
}

#[test]
fn zero_moving_attackers_are_rejected() {
    let mut game = border_skirmish(5, 2);
    let r = game.try_battle(1, 1, ALASKA, NORTHWEST, 0);
    assert_eq!(r, Err(BattleError::BadMovingCount));
    assert_unchanged(&game, 5, 2);
}

#[test]
fn rolled_battles_respect_the_rules() {
    // Rolled dice are hidden, but every outcome must assign exactly one
    // loss per compared pair and keep every region above zero troops.
    for _ in 0..200 {
        let mut game = border_skirmish(6, 2);
        let outcome = game.try_battle(3, 2, ALASKA, NORTHWEST, 2).unwrap();
        assert_eq!(outcome.attacker_losses + outcome.defender_losses, 2);
        let alaska = game.region(ALASKA);
        let northwest = game.region(NORTHWEST);
        assert!(alaska.num_troops >= 1);
        assert!(northwest.num_troops >= 1);
        if outcome.conquered {
            assert_eq!(northwest.owner, 0);
            assert_eq!(northwest.num_troops, 2);
            assert_eq!(outcome.defender_losses, 2);
        } else {
            assert_eq!(northwest.owner, 1);
            assert_eq!(
                northwest.num_troops,
                2 - outcome.defender_losses as i16
            );
        }
        assert_eq!(
            alaska.num_troops,
            6 - outcome.attacker_losses as i16 - if outcome.conquered { 2 } else { 0 }
        );
    }
}

#[test]
fn rolled_dice_vary_the_outcome() {
    // A 1-die battle against a 1-troop defender conquers exactly when
    // the attacker's die is the strict winner; over many rounds both
    // outcomes must appear, so the roll cannot be a constant.
    let mut conquests = 0;
    let mut holds = 0;
    for _ in 0..300 {
        let mut game = border_skirmish(5, 1);
        let outcome = game.try_battle(1, 1, ALASKA, NORTHWEST, 1).unwrap();
        if outcome.conquered {
            conquests += 1;
        } else {
            holds += 1;
        }
    }
    assert!(conquests > 0);
    assert!(holds > 0);
}
