//! Combat: one dice-resolved battle round between two adjacent regions,
//! casualty assignment with ties favoring the defender, and conquest
//! (ownership transfer) when the defender is wiped out.

use crate::dice::desc_sorted;
use crate::dice::dice_in_range;
use crate::dice::roll_dice_sorted;
use crate::map::canonical_world;
use crate::map::well_formed;
use crate::world::ContinentModel;
use crate::world::Coord;
use crate::world::Game;
use crate::world::RegionModel;
use crate::world::in_range;
use crate::world::region_of;
use crate::world::set_region;
use vstd::prelude::*;

verus! {

/// What one resolved combat round reports: casualties on each side and
/// whether the defending region changed hands.
#[derive(Clone, Copy, PartialEq, Eq, Structural, Debug)]
pub struct BattleResult {
    pub attacker_losses: u8,
    pub defender_losses: u8,
    pub conquered: bool,
}

/// Why an attempted battle is an invalid move.
#[derive(Clone, Copy, PartialEq, Eq, Structural, Debug)]
pub enum BattleError {
    /// A coordinate names no region of the world.
    BadCoordinate,
    /// Attacking and defending region are the same.
    SameRegion,
    /// The number of attacking dice is not 1, 2 or 3.
    BadAttackerCount,
    /// The attacking region cannot leave one troop behind.
    TooFewAttackerTroops,
    /// The number of defending dice is not 1 or 2.
    BadDefenderCount,
    /// The defending region holds fewer troops than defending dice.
    TooFewDefenderTroops,
    /// The defending region is not adjacent to the attacking one.
    NotAdjacent,
    /// The troops to move on conquest must be at least 1 and leave the
    /// attacking region at least one troop after its possible losses.
    BadMovingCount,
}

/// How many dice pairs are compared: one per die of the smaller side.
pub open spec fn pairs_compared(a: Seq<u8>, d: Seq<u8>) -> int {
    if a.len() <= d.len() {
        a.len() as int
    } else {
        d.len() as int
    }
}

/// Defender casualties among the first `i` compared pairs: one for each
/// pair whose attacker die is strictly greater. Ties favor the defender.
pub open spec fn defender_losses_upto(a: Seq<u8>, d: Seq<u8>, i: int) -> int
    decreases i,
{
    if i <= 0 {
        0
    } else {
        defender_losses_upto(a, d, i - 1) + if a[i - 1] > d[i - 1] {
            1int
        } else {
            0int
        }
    }
}

/// Defender casualties of the round, the dice of each side ordered
/// highest first.
pub open spec fn defender_losses(a: Seq<u8>, d: Seq<u8>) -> int {
    defender_losses_upto(a, d, pairs_compared(a, d))
}

/// Attacker casualties: every compared pair not lost by the defender is
/// lost by the attacker.
pub open spec fn attacker_losses(a: Seq<u8>, d: Seq<u8>) -> int {
    pairs_compared(a, d) - defender_losses(a, d)
}

/// Defender casualties lie between 0 and the number of compared pairs.
pub proof fn lemma_defender_losses_upto_bounds(a: Seq<u8>, d: Seq<u8>, i: int)
    requires
        0 <= i,
    ensures
        0 <= defender_losses_upto(a, d, i) <= i,
    decreases i,
{
    if i > 0 {
        lemma_defender_losses_upto_bounds(a, d, i - 1);
    }
}

/// A legal battle: both coordinates name distinct existing regions, the
/// dice counts are legal and covered by troops (the attacker must leave
/// one troop behind), the regions are adjacent, and the troops to move
/// on conquest leave the attacker at least one troop.
pub open spec fn valid_battle(
    w: Seq<ContinentModel>,
    from: Coord,
    to: Coord,
    num_attackers: int,
    num_defenders: int,
    num_moving_attackers: int,
) -> bool {
    &&& in_range(w, from)
    &&& in_range(w, to)
    &&& from != to
    &&& 1 <= num_attackers <= 3
    &&& num_attackers <= region_of(w, from).troops - 1
    &&& 1 <= num_defenders <= 2
    &&& num_defenders <= region_of(w, to).troops
    &&& region_of(w, from).neighbors.contains(to)
    &&& 1 <= num_moving_attackers
    &&& num_moving_attackers + num_attackers <= region_of(w, from).troops
}

/// The world after one battle round at `from` against `to` with the
/// given descending dice: both sides lose one troop per lost pair; if
/// the defender reaches zero troops, `to` passes to the owner of `from`
/// with `num_moving_attackers` troops, which leave `from`.
pub open spec fn battle_next(
    w: Seq<ContinentModel>,
    from: Coord,
    to: Coord,
    a: Seq<u8>,
    d: Seq<u8>,
    num_moving_attackers: int,
) -> Seq<ContinentModel> {
    let dl = defender_losses(a, d);
    let al = attacker_losses(a, d);
    let atk = region_of(w, from);
    let def = region_of(w, to);
    if def.troops - dl == 0 {
        set_region(
            set_region(
                w,
                from,
                RegionModel {
                    id: atk.id,
                    owner: atk.owner,
                    troops: atk.troops - al - num_moving_attackers,
                    neighbors: atk.neighbors,
                },
            ),
            to,
            RegionModel {
                id: def.id,
                owner: atk.owner,
                troops: num_moving_attackers,
                neighbors: def.neighbors,
            },
        )
    } else {
        set_region(
            set_region(
                w,
                from,
                RegionModel {
                    id: atk.id,
                    owner: atk.owner,
                    troops: atk.troops - al,
                    neighbors: atk.neighbors,
                },
            ),
            to,
            RegionModel {
                id: def.id,
                owner: def.owner,
                troops: def.troops - dl,
                neighbors: def.neighbors,
            },
        )
    }
}

/// What the round reports, as a function of the starting world and the
/// descending dice.
pub open spec fn battle_outcome(
    w: Seq<ContinentModel>,
    to: Coord,
    a: Seq<u8>,
    d: Seq<u8>,
) -> BattleResult {
    BattleResult {
        attacker_losses: attacker_losses(a, d) as u8,
        defender_losses: defender_losses(a, d) as u8,
        conquered: region_of(w, to).troops == defender_losses(a, d),
    }
}

/// The first reason, if any, for which the attempted battle is an
/// invalid move, in the order the checks are made.
pub open spec fn battle_check(
    w: Seq<ContinentModel>,
    from: Coord,
    to: Coord,
    num_attackers: int,
    num_defenders: int,
    num_moving_attackers: int,
) -> Option<BattleError> {
    if !(in_range(w, from) && in_range(w, to)) {
        Some(BattleError::BadCoordinate)
    } else if from == to {
        Some(BattleError::SameRegion)
    } else if !(1 <= num_attackers <= 3) {
        Some(BattleError::BadAttackerCount)
    } else if !(num_attackers <= region_of(w, from).troops - 1) {
        Some(BattleError::TooFewAttackerTroops)
    } else if !(1 <= num_defenders <= 2) {
        Some(BattleError::BadDefenderCount)
    } else if !(num_defenders <= region_of(w, to).troops) {
        Some(BattleError::TooFewDefenderTroops)
    } else if !region_of(w, from).neighbors.contains(to) {
        Some(BattleError::NotAdjacent)
    } else if !(1 <= num_moving_attackers && num_moving_attackers + num_attackers <= region_of(
        w,
        from,
    ).troops) {
        Some(BattleError::BadMovingCount)
    } else {
        None
    }
}

fn contains_coord(v: &Vec<Coord>, x: Coord) -> (found: bool)
    ensures
        found == v@.contains(x),
{
    let mut i: usize = 0;
    while i < v.len()
        invariant
            i <= v@.len(),
            forall|j: int| 0 <= j < i ==> v@[j] != x,
        decreases v@.len() - i,
    {
        if v[i] == x {
            proof {
                assert(v@[i as int] == x);
            }
            return true;
        }
        i += 1;
    }
    false
}

impl Game {
    /// Resolve one battle round with the dice already rolled and ordered
    /// highest first: the injectable, deterministic core of combat.
    pub fn battle_with_dice(
        &mut self,
        num_attackers: i16,
        num_defenders: i16,
        from: Coord,
        to: Coord,
        num_moving_attackers: i16,
        attack_dice: &Vec<u8>,
        defend_dice: &Vec<u8>,
    ) -> (outcome: BattleResult)
        requires
            valid_battle(
                old(self)@.continents,
                from,
                to,
                num_attackers as int,
                num_defenders as int,
                num_moving_attackers as int,
            ),
            attack_dice@.len() == num_attackers as int,
            defend_dice@.len() == num_defenders as int,
            desc_sorted(attack_dice@),
            desc_sorted(defend_dice@),
        ensures
            final(self)@.continents == battle_next(
                old(self)@.continents,
                from,
                to,
                attack_dice@,
                defend_dice@,
                num_moving_attackers as int,
            ),
            final(self)@.current_player == old(self)@.current_player,
            final(self)@.num_players == old(self)@.num_players,
            outcome == battle_outcome(old(self)@.continents, to, attack_dice@, defend_dice@),
    {
        let ghost w0 = self@.continents;
        let ghost a = attack_dice@;
        let ghost d = defend_dice@;
        let fc = from.continent;
        let fr = from.region;
        let tc = to.continent;
        let tr = to.region;
        proof {
            assert(w0[fc as int] == self.continents@[fc as int]@);
            assert(w0[tc as int] == self.continents@[tc as int]@);
            assert(region_of(w0, from) == self.continents@[fc as int].regions@[fr as int]@);
            assert(region_of(w0, to) == self.continents@[tc as int].regions@[tr as int]@);
        }
        let pairs: i16 = if num_attackers <= num_defenders {
            num_attackers
        } else {
            num_defenders
        };
        let mut dl: i16 = 0;
        if attack_dice[0] > defend_dice[0] {
            dl += 1;
        }
        if pairs >= 2 {
            if attack_dice[1] > defend_dice[1] {
                dl += 1;
            }
        }
        let al: i16 = pairs - dl;
        proof {
            assert(pairs as int == pairs_compared(a, d));
            assert(dl as int == defender_losses(a, d)) by {
                reveal_with_fuel(defender_losses_upto, 3);
            }
            assert(al as int == attacker_losses(a, d));
            lemma_defender_losses_upto_bounds(a, d, pairs_compared(a, d));
        }
        let from_troops = self.continents[fc].regions[fr].num_troops;
        self.continents[fc].regions[fr].num_troops = from_troops - al;
        let to_troops = self.continents[tc].regions[tr].num_troops;
        self.continents[tc].regions[tr].num_troops = to_troops - dl;
        let conquered = to_troops - dl == 0;
        if conquered {
            let new_owner = self.continents[fc].regions[fr].owner;
            self.continents[tc].regions[tr].owner = new_owner;
            self.continents[tc].regions[tr].num_troops = num_moving_attackers;
            let remaining = self.continents[fc].regions[fr].num_troops;
            self.continents[fc].regions[fr].num_troops = remaining - num_moving_attackers;
        }
        proof {
            assert(self@.continents =~~= battle_next(
                w0,
                from,
                to,
                a,
                d,
                num_moving_attackers as int,
            ));
        }
        BattleResult { attacker_losses: al as u8, defender_losses: dl as u8, conquered: conquered }
    }

    /// Resolve one battle round, rolling the dice. What holds of every
    /// outcome: there are descending dice in [1, 6], one per attacker
    /// and defender die asked for, whose resolution the new state and
    /// the report are.
    pub fn battle(
        &mut self,
        num_attackers: i16,
        num_defenders: i16,
        from: Coord,
        to: Coord,
        num_moving_attackers: i16,
    ) -> (outcome: BattleResult)
        requires
            valid_battle(
                old(self)@.continents,
                from,
                to,
                num_attackers as int,
                num_defenders as int,
                num_moving_attackers as int,
            ),
        ensures
            final(self)@.current_player == old(self)@.current_player,
            final(self)@.num_players == old(self)@.num_players,
            exists|a: Seq<u8>, d: Seq<u8>|
                {
                    &&& a.len() == num_attackers as int
                    &&& d.len() == num_defenders as int
                    &&& dice_in_range(a)
                    &&& dice_in_range(d)
                    &&& desc_sorted(a)
                    &&& desc_sorted(d)
                    &&& final(self)@.continents == battle_next(
                        old(self)@.continents,
                        from,
                        to,
                        a,
                        d,
                        num_moving_attackers as int,
                    )
                    &&& outcome == battle_outcome(old(self)@.continents, to, a, d)
                },
    {
        let attack_dice = roll_dice_sorted(num_attackers as usize);
        let defend_dice = roll_dice_sorted(num_defenders as usize);
        let outcome = self.battle_with_dice(
            num_attackers,
            num_defenders,
            from,
            to,
            num_moving_attackers,
            &attack_dice,
            &defend_dice,
        );
        outcome
    }

    /// Resolve one battle round after validating the move: an illegal
    /// move is reported as an error and leaves the match untouched.
    pub fn try_battle(
        &mut self,
        num_attackers: i16,
        num_defenders: i16,
        from: Coord,
        to: Coord,
        num_moving_attackers: i16,
    ) -> (r: Result<BattleResult, BattleError>)
        ensures
            ({
                let chk = battle_check(
                    old(self)@.continents,
                    from,
                    to,
                    num_attackers as int,
                    num_defenders as int,
                    num_moving_attackers as int,
                );
                &&& (chk matches Some(e) ==> r == Err::<BattleResult, BattleError>(e)
                    && final(self)@ == old(self)@)
                &&& (chk is None ==> {
                    &&& final(self)@.current_player == old(self)@.current_player
                    &&& final(self)@.num_players == old(self)@.num_players
                    &&& exists|a: Seq<u8>, d: Seq<u8>|
                        {
                            &&& a.len() == num_attackers as int
                            &&& d.len() == num_defenders as int
                            &&& dice_in_range(a)
                            &&& dice_in_range(d)
                            &&& desc_sorted(a)
                            &&& desc_sorted(d)
                            &&& final(self)@.continents == battle_next(
                                old(self)@.continents,
                                from,
                                to,
                                a,
                                d,
                                num_moving_attackers as int,
                            )
                            &&& r == Ok::<BattleResult, BattleError>(
                                battle_outcome(old(self)@.continents, to, a, d),
                            )
                        }
                })
            }),
    {
        let ghost w0 = self@.continents;
        let n = self.continents.len();
        let in_from = from.continent < n && from.region < self.continents[from.continent].regions.len();
        let in_to = to.continent < n && to.region < self.continents[to.continent].regions.len();
        proof {
            if from.continent < n {
                assert(w0[from.continent as int] == self.continents@[from.continent as int]@);
            }
            if to.continent < n {
                assert(w0[to.continent as int] == self.continents@[to.continent as int]@);
            }
            assert(in_from == in_range(w0, from));
            assert(in_to == in_range(w0, to));
        }
        if !(in_from && in_to) {
            return Err(BattleError::BadCoordinate);
        }
        if from.continent == to.continent && from.region == to.region {
            return Err(BattleError::SameRegion);
        }
        if !(1 <= num_attackers && num_attackers <= 3) {
            return Err(BattleError::BadAttackerCount);
        }
        proof {
            assert(region_of(w0, from) == self.continents@[from.continent as int].regions@[from.region as int]@);
            assert(region_of(w0, to) == self.continents@[to.continent as int].regions@[to.region as int]@);
        }
        let from_troops = self.continents[from.continent].regions[from.region].num_troops;
        if !(num_attackers < from_troops) {
            return Err(BattleError::TooFewAttackerTroops);
        }
        if !(1 <= num_defenders && num_defenders <= 2) {
            return Err(BattleError::BadDefenderCount);
        }
        let to_troops = self.continents[to.continent].regions[to.region].num_troops;
        if !(num_defenders <= to_troops) {
            return Err(BattleError::TooFewDefenderTroops);
        }
        let adjacent = contains_coord(&self.continents[from.continent].regions[from.region].neighbors, to);
        if !adjacent {
            return Err(BattleError::NotAdjacent);
        }
        if !(1 <= num_moving_attackers && (num_moving_attackers as i32) + (num_attackers as i32)
            <= (from_troops as i32)) {
            return Err(BattleError::BadMovingCount);
        }
        Ok(self.battle(num_attackers, num_defenders, from, to, num_moving_attackers))
    }
}

/// Every region holds a non-negative troop count, and every owned
/// region holds at least one troop.
pub open spec fn troops_positive(w: Seq<ContinentModel>) -> bool {
    forall|at: Coord|
        in_range(w, at) ==> (#[trigger] region_of(w, at)).troops >= (if region_of(w, at).owner
            == -1 {
            0int
        } else {
            1int
        })
}

/// A battle round never leaves a region at zero troops under an owner:
/// the attacker keeps at least one troop behind, a surviving defender
/// keeps at least one troop, and a conquered region receives the moved
/// troops, at least one.
pub proof fn lemma_battle_preserves_troops_positive(
    w: Seq<ContinentModel>,
    from: Coord,
    to: Coord,
    a: Seq<u8>,
    d: Seq<u8>,
    num_moving_attackers: int,
)
    requires
        troops_positive(w),
        valid_battle(w, from, to, a.len() as int, d.len() as int, num_moving_attackers),
    ensures
        troops_positive(battle_next(w, from, to, a, d, num_moving_attackers)),
{
    let w1 = battle_next(w, from, to, a, d, num_moving_attackers);
    let dl = defender_losses(a, d);
    let al = attacker_losses(a, d);
    lemma_defender_losses_upto_bounds(a, d, pairs_compared(a, d));
    assert forall|at: Coord| in_range(w1, at) implies (#[trigger] region_of(w1, at)).troops >= (
    if region_of(w1, at).owner == -1 {
        0int
    } else {
        1int
    }) by {
        assert(in_range(w, at));
        if at == from {
            assert(region_of(w1, from).troops >= 1);
        } else if at == to {
            if region_of(w, to).troops - dl == 0 {
                assert(dl >= 1);
                assert(region_of(w1, to).troops == num_moving_attackers >= 1);
            } else {
                assert(region_of(w1, to).troops == region_of(w, to).troops - dl >= 1);
            }
        } else {
            assert(region_of(w1, at) == region_of(w, at));
        }
    }
}

/// A battle round changes only ownership and troop counts: the world
/// keeps its continents, bonuses, region identities and adjacency.
pub proof fn lemma_battle_preserves_well_formed(
    w: Seq<ContinentModel>,
    from: Coord,
    to: Coord,
    a: Seq<u8>,
    d: Seq<u8>,
    num_moving_attackers: int,
)
    requires
        well_formed(w),
        in_range(w, from),
        in_range(w, to),
    ensures
        well_formed(battle_next(w, from, to, a, d, num_moving_attackers)),
{
    let w1 = battle_next(w, from, to, a, d, num_moving_attackers);
    let v = canonical_world();
    assert(w1.len() == v.len());
    assert forall|c: int| 0 <= c < w1.len() implies (#[trigger] w1[c]).bonus == v[c].bonus
        && w1[c].regions.len() == v[c].regions.len() by {
        assert(w[c].bonus == v[c].bonus && w[c].regions.len() == v[c].regions.len());
    }
    assert forall|c: int, r: int|
        0 <= c < w1.len() && 0 <= r < w1[c].regions.len() implies (
    #[trigger] w1[c].regions[r]).id == v[c].regions[r].id && w1[c].regions[r].neighbors
        == v[c].regions[r].neighbors by {
        assert(w[c].regions[r].id == v[c].regions[r].id && w[c].regions[r].neighbors
            == v[c].regions[r].neighbors);
    }
}

/// Combat is deterministic: the same world, coordinates and dice give
/// the same next world and the same report, so a driver that injects a
/// fixed dice sequence and resets the state reproduces the outcome
/// exactly.
pub proof fn lemma_battle_deterministic(
    w1: Seq<ContinentModel>,
    w2: Seq<ContinentModel>,
    from: Coord,
    to: Coord,
    a: Seq<u8>,
    d: Seq<u8>,
    num_moving_attackers: int,
)
    requires
        w1 == w2,
    ensures
        battle_next(w1, from, to, a, d, num_moving_attackers) == battle_next(
            w2,
            from,
            to,
            a,
            d,
            num_moving_attackers,
        ),
        battle_outcome(w1, to, a, d) == battle_outcome(w2, to, a, d),
{
}

/// The checks pass exactly on legal battles.
pub proof fn lemma_battle_check_none(
    w: Seq<ContinentModel>,
    from: Coord,
    to: Coord,
    num_attackers: int,
    num_defenders: int,
    num_moving_attackers: int,
)
    ensures
        battle_check(w, from, to, num_attackers, num_defenders, num_moving_attackers) is None
            <==> valid_battle(w, from, to, num_attackers, num_defenders, num_moving_attackers),
{
}

} // verus!
