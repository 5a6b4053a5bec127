//! The reinforcement (draft) calculation: a third of a troop for every
//! owned region, the full bonus of every continent owned whole, floored
//! to a whole number of troops.

use crate::map::canonical_world;
use crate::map::lemma_region_count_same_structure;
use crate::map::lemma_world_shape;
use crate::map::region_count;
use crate::map::region_count_upto;
use crate::map::well_formed;
use crate::world::ContinentModel;
use crate::world::Game;
use crate::world::RegionModel;
use vstd::prelude::*;

verus! {

/// The number of regions among the first `r` of `regions` that `p` owns.
pub open spec fn owned_in_prefix(regions: Seq<RegionModel>, p: int, r: int) -> int
    decreases r,
{
    if r <= 0 {
        0
    } else {
        owned_in_prefix(regions, p, r - 1) + if regions[r - 1].owner == p {
            1int
        } else {
            0int
        }
    }
}

/// The number of regions of one continent that `p` owns.
pub open spec fn owned_in_continent(regions: Seq<RegionModel>, p: int) -> int {
    owned_in_prefix(regions, p, regions.len() as int)
}

/// Whether `p` owns every region of the continent.
pub open spec fn owns_all(regions: Seq<RegionModel>, p: int) -> bool {
    forall|r: int| 0 <= r < regions.len() ==> (#[trigger] regions[r]).owner == p
}

/// The number of regions among the first `c` continents that `p` owns.
pub open spec fn owned_count_upto(w: Seq<ContinentModel>, p: int, c: int) -> int
    decreases c,
{
    if c <= 0 {
        0
    } else {
        owned_count_upto(w, p, c - 1) + owned_in_continent(w[c - 1].regions, p)
    }
}

/// The number of regions of the world that `p` owns.
pub open spec fn owned_count(w: Seq<ContinentModel>, p: int) -> int {
    owned_count_upto(w, p, w.len() as int)
}

/// The sum of the bonuses of the first `c` continents that `p` owns
/// whole.
pub open spec fn bonus_total_upto(w: Seq<ContinentModel>, p: int, c: int) -> int
    decreases c,
{
    if c <= 0 {
        0
    } else {
        bonus_total_upto(w, p, c - 1) + if owns_all(w[c - 1].regions, p) {
            w[c - 1].bonus
        } else {
            0int
        }
    }
}

/// The sum of the bonuses of every continent that `p` owns whole.
pub open spec fn bonus_total(w: Seq<ContinentModel>, p: int) -> int {
    bonus_total_upto(w, p, w.len() as int)
}

/// The draft award: a third of a troop per owned region accumulated with
/// the whole bonus of each fully owned continent, floored.
pub open spec fn draft_troops(w: Seq<ContinentModel>, p: int) -> int {
    bonus_total(w, p) + owned_count(w, p) / 3
}

proof fn lemma_owned_in_prefix_bounds(regions: Seq<RegionModel>, p: int, r: int)
    requires
        0 <= r,
    ensures
        0 <= owned_in_prefix(regions, p, r) <= r,
    decreases r,
{
    if r > 0 {
        lemma_owned_in_prefix_bounds(regions, p, r - 1);
    }
}

proof fn lemma_owned_count_upto_le(w: Seq<ContinentModel>, p: int, c: int)
    requires
        0 <= c <= w.len(),
    ensures
        0 <= owned_count_upto(w, p, c) <= region_count_upto(w, c),
    decreases c,
{
    if c > 0 {
        lemma_owned_count_upto_le(w, p, c - 1);
        lemma_owned_in_prefix_bounds(w[c - 1].regions, p, w[c - 1].regions.len() as int);
    }
}

/// In a well-formed world a player owns between 0 and 42 regions.
pub proof fn lemma_owned_count_bounds(w: Seq<ContinentModel>, p: int)
    requires
        well_formed(w),
    ensures
        0 <= owned_count(w, p) <= 42,
{
    lemma_world_shape();
    lemma_region_count_same_structure(w, canonical_world());
    lemma_owned_count_upto_le(w, p, w.len() as int);
}

/// In a well-formed world the bonus total lies between 0 and 24, the sum
/// of all six bonuses.
pub proof fn lemma_bonus_total_bounds(w: Seq<ContinentModel>, p: int)
    requires
        well_formed(w),
    ensures
        0 <= bonus_total(w, p) <= 24,
{
    lemma_world_shape();
    assert(w.len() == 6);
    assert(w[0].bonus == 5 && w[1].bonus == 2 && w[2].bonus == 5 && w[3].bonus == 3 && w[4].bonus
        == 7 && w[5].bonus == 2);
    assert(0 <= bonus_total_upto(w, p, 6) <= 24) by {
        reveal_with_fuel(bonus_total_upto, 7);
    }
}

impl Game {
    /// How many troops `player_id` receives on a reinforcement step: a
    /// third of a troop for each owned region, the full bonus of each
    /// continent owned whole, floored. Pure; never fails; never negative.
    pub fn num_draft_troops(&self, player_id: i8) -> (troops: i16)
        requires
            well_formed(self@.continents),
        ensures
            troops as int == draft_troops(self@.continents, player_id as int),
            troops >= 0,
    {
        let ghost w = self@.continents;
        let ghost p = player_id as int;
        proof {
            lemma_world_shape();
            lemma_region_count_same_structure(w, canonical_world());
        }
        let n = self.continents.len();
        let mut owned: u16 = 0;
        let mut bonus: i32 = 0;
        let mut c: usize = 0;
        while c < n
            invariant
                well_formed(w),
                w == self@.continents,
                n == w.len(),
                region_count(w) == 42,
                c <= n,
                p == player_id as int,
                owned as int == owned_count_upto(w, p, c as int),
                bonus as int == bonus_total_upto(w, p, c as int),
                -128 * (c as int) <= bonus as int <= 127 * (c as int),
            decreases n - c,
        {
            proof {
                assert(w[c as int] == self.continents@[c as int]@);
            }
            let m = self.continents[c].regions.len();
            let mut r: usize = 0;
            let mut cnt: u16 = 0;
            let mut all: bool = true;
            proof {
                assert(m <= 12);
            }
            while r < m
                invariant
                    w == self@.continents,
                    c < w.len(),
                    m == w[c as int].regions.len(),
                    m <= 12,
                    r <= m,
                    p == player_id as int,
                    cnt as int == owned_in_prefix(w[c as int].regions, p, r as int),
                    cnt <= r,
                    all <==> (forall|j: int|
                        0 <= j < r ==> (#[trigger] w[c as int].regions[j]).owner == p),
                decreases m - r,
            {
                proof {
                    assert(w[c as int] == self.continents@[c as int]@);
                    assert(w[c as int].regions[r as int] == self.continents@[
                        c as int
                    ].regions@[r as int]@);
                }
                if self.continents[c].regions[r].owner == player_id {
                    cnt += 1;
                } else {
                    all = false;
                }
                r += 1;
            }
            proof {
                assert(cnt as int == owned_in_continent(w[c as int].regions, p));
                assert(all <==> owns_all(w[c as int].regions, p));
                lemma_owned_count_upto_le(w, p, c as int + 1);
                assert(region_count_upto(w, c as int + 1) <= region_count(w)) by {
                    lemma_region_count_upto_mono(w, c as int + 1, w.len() as int);
                }
            }
            owned += cnt;
            if all {
                bonus += self.continents[c].bonus as i32;
            }
            c += 1;
        }
        proof {
            lemma_bonus_total_bounds(w, p);
            lemma_owned_count_bounds(w, p);
        }
        let total: i32 = bonus + (owned / 3) as i32;
        total as i16
    }
}

proof fn lemma_owned_in_prefix_none(regions: Seq<RegionModel>, p: int, r: int)
    requires
        0 <= r <= regions.len(),
        forall|j: int| 0 <= j < regions.len() ==> (#[trigger] regions[j]).owner != p,
    ensures
        owned_in_prefix(regions, p, r) == 0,
    decreases r,
{
    if r > 0 {
        lemma_owned_in_prefix_none(regions, p, r - 1);
    }
}

proof fn lemma_owned_in_prefix_all(regions: Seq<RegionModel>, p: int, r: int)
    requires
        0 <= r <= regions.len(),
        forall|j: int| 0 <= j < regions.len() ==> (#[trigger] regions[j]).owner == p,
    ensures
        owned_in_prefix(regions, p, r) == r,
    decreases r,
{
    if r > 0 {
        lemma_owned_in_prefix_all(regions, p, r - 1);
    }
}

proof fn lemma_continents_nonempty(w: Seq<ContinentModel>, c: int)
    requires
        well_formed(w),
        0 <= c < w.len(),
    ensures
        w[c].regions.len() > 0,
{
    lemma_world_shape();
}

proof fn lemma_draft_none_upto(w: Seq<ContinentModel>, p: int, c: int)
    requires
        well_formed(w),
        0 <= c <= w.len(),
        forall|cc: int, r: int|
            0 <= cc < w.len() && 0 <= r < w[cc].regions.len()
                ==> (#[trigger] w[cc].regions[r]).owner != p,
    ensures
        owned_count_upto(w, p, c) == 0,
        bonus_total_upto(w, p, c) == 0,
    decreases c,
{
    if c > 0 {
        lemma_draft_none_upto(w, p, c - 1);
        lemma_owned_in_prefix_none(w[c - 1].regions, p, w[c - 1].regions.len() as int);
        lemma_continents_nonempty(w, c - 1);
        assert(w[c - 1].regions[0].owner != p);
        assert(!owns_all(w[c - 1].regions, p));
    }
}

/// A player that owns no region receives no draft troops.
pub proof fn lemma_draft_no_regions(w: Seq<ContinentModel>, p: int)
    requires
        well_formed(w),
        forall|cc: int, r: int|
            0 <= cc < w.len() && 0 <= r < w[cc].regions.len()
                ==> (#[trigger] w[cc].regions[r]).owner != p,
    ensures
        draft_troops(w, p) == 0,
{
    lemma_draft_none_upto(w, p, w.len() as int);
}

proof fn lemma_draft_single_upto(w: Seq<ContinentModel>, p: int, k: int, c: int)
    requires
        well_formed(w),
        0 <= k < w.len(),
        0 <= c <= w.len(),
        forall|r: int| 0 <= r < w[k].regions.len() ==> (#[trigger] w[k].regions[r]).owner == p,
        forall|cc: int, r: int|
            0 <= cc < w.len() && cc != k && 0 <= r < w[cc].regions.len()
                ==> (#[trigger] w[cc].regions[r]).owner != p,
    ensures
        owned_count_upto(w, p, c) == if c > k {
            w[k].regions.len() as int
        } else {
            0int
        },
        bonus_total_upto(w, p, c) == if c > k {
            w[k].bonus
        } else {
            0int
        },
    decreases c,
{
    if c > 0 {
        lemma_draft_single_upto(w, p, k, c - 1);
        lemma_continents_nonempty(w, c - 1);
        if c - 1 == k {
            lemma_owned_in_prefix_all(w[k].regions, p, w[k].regions.len() as int);
            assert(owns_all(w[k].regions, p));
        } else {
            lemma_owned_in_prefix_none(w[c - 1].regions, p, w[c - 1].regions.len() as int);
            assert(w[c - 1].regions[0].owner != p);
            assert(!owns_all(w[c - 1].regions, p));
        }
    }
}

/// A player that owns every region of continent `k` and nothing else
/// receives exactly that continent's bonus plus a third of a troop per
/// owned region, floored.
pub proof fn lemma_draft_single_continent(w: Seq<ContinentModel>, p: int, k: int)
    requires
        well_formed(w),
        0 <= k < w.len(),
        forall|r: int| 0 <= r < w[k].regions.len() ==> (#[trigger] w[k].regions[r]).owner == p,
        forall|cc: int, r: int|
            0 <= cc < w.len() && cc != k && 0 <= r < w[cc].regions.len()
                ==> (#[trigger] w[cc].regions[r]).owner != p,
    ensures
        draft_troops(w, p) == w[k].bonus + w[k].regions.len() as int / 3,
{
    lemma_draft_single_upto(w, p, k, w.len() as int);
}

proof fn lemma_region_count_upto_mono(w: Seq<ContinentModel>, c: int, d: int)
    requires
        0 <= c <= d <= w.len(),
    ensures
        region_count_upto(w, c) <= region_count_upto(w, d),
    decreases d,
{
    if c < d {
        lemma_region_count_upto_mono(w, c, d - 1);
    }
}

} // verus!
