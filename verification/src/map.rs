//! The canonical world map: 42 territories in 6 continents with their
//! bonuses and symmetric adjacency lists, the `init` constructor that
//! builds it, and the proof that its adjacency relation is symmetric.

use crate::world::Continent;
use crate::world::ContinentModel;
use crate::world::Coord;
use crate::world::Game;
use crate::world::Region;
use crate::world::RegionId;
use crate::world::RegionModel;
use crate::world::in_range;
use crate::world::region_of;
use crate::world::set_region;
use vstd::prelude::*;

verus! {

/// The coordinate of region `r` of continent `c`.
pub open spec fn loc(c: usize, r: usize) -> Coord {
    Coord { continent: c, region: r }
}

/// A region as it stands at the start of a match: unowned, empty, with
/// its fixed identity and adjacency list.
pub open spec fn region_start(id: RegionId, neighbors: Seq<Coord>) -> RegionModel {
    RegionModel { id: id, owner: -1, troops: 0, neighbors: neighbors }
}

/// North America: 9 regions, bonus 5.
pub open spec fn north_america() -> ContinentModel {
    ContinentModel {
        regions: seq![
            region_start(RegionId::Alaska, seq![loc(0, 1), loc(0, 3), loc(4, 3)]),
            region_start(
                RegionId::NorthwestTerritory,
                seq![loc(0, 0), loc(0, 2), loc(0, 3), loc(0, 4)],
            ),
            region_start(RegionId::Greenland, seq![loc(0, 1), loc(0, 4), loc(0, 5), loc(2, 0)]),
            region_start(RegionId::Alberta, seq![loc(0, 0), loc(0, 1), loc(0, 4), loc(0, 6)]),
            region_start(
                RegionId::Ontario,
                seq![loc(0, 1), loc(0, 2), loc(0, 3), loc(0, 5), loc(0, 6), loc(0, 7)],
            ),
            region_start(RegionId::Quebec, seq![loc(0, 2), loc(0, 4), loc(0, 7)]),
            region_start(
                RegionId::WesternUnitedStates,
                seq![loc(0, 3), loc(0, 4), loc(0, 7), loc(0, 8)],
            ),
            region_start(
                RegionId::EasternUnitedStates,
                seq![loc(0, 4), loc(0, 5), loc(0, 6), loc(0, 8)],
            ),
            region_start(RegionId::CentralAmerica, seq![loc(0, 6), loc(0, 7), loc(1, 0)]),
        ],
        bonus: 5,
    }
}

/// South America: 4 regions, bonus 2.
pub open spec fn south_america() -> ContinentModel {
    ContinentModel {
        regions: seq![
            region_start(RegionId::Venezuela, seq![loc(0, 8), loc(1, 1), loc(1, 2)]),
            region_start(RegionId::Peru, seq![loc(1, 0), loc(1, 2), loc(1, 3)]),
            region_start(RegionId::Brazil, seq![loc(1, 0), loc(1, 1), loc(1, 3), loc(3, 0)]),
            region_start(RegionId::Argentina, seq![loc(1, 1), loc(1, 2)]),
        ],
        bonus: 2,
    }
}

/// Europe: 7 regions, bonus 5.
pub open spec fn europe() -> ContinentModel {
    ContinentModel {
        regions: seq![
            region_start(RegionId::Iceland, seq![loc(0, 2), loc(2, 1), loc(2, 3)]),
            region_start(RegionId::Scandinavia, seq![loc(2, 0), loc(2, 2), loc(2, 3), loc(2, 4)]),
            region_start(
                RegionId::Russia,
                seq![loc(2, 1), loc(2, 4), loc(2, 6), loc(4, 0), loc(4, 7), loc(4, 9)],
            ),
            region_start(RegionId::GreatBritain, seq![loc(2, 0), loc(2, 1), loc(2, 4), loc(2, 5)]),
            region_start(
                RegionId::NorthernEurope,
                seq![loc(2, 1), loc(2, 2), loc(2, 3), loc(2, 5), loc(2, 6)],
            ),
            region_start(RegionId::WesternEurope, seq![loc(2, 3), loc(2, 4), loc(2, 6), loc(3, 0)]),
            region_start(
                RegionId::SouthernEurope,
                seq![loc(2, 2), loc(2, 4), loc(2, 5), loc(3, 0), loc(3, 1), loc(4, 9)],
            ),
        ],
        bonus: 5,
    }
}

/// Africa: 6 regions, bonus 3.
pub open spec fn africa() -> ContinentModel {
    ContinentModel {
        regions: seq![
            region_start(
                RegionId::NorthAfrica,
                seq![loc(1, 2), loc(2, 5), loc(2, 6), loc(3, 1), loc(3, 2), loc(3, 3)],
            ),
            region_start(RegionId::Egypt, seq![loc(2, 6), loc(3, 0), loc(3, 2), loc(4, 9)]),
            region_start(
                RegionId::EastAfrica,
                seq![loc(3, 0), loc(3, 1), loc(3, 3), loc(3, 4), loc(3, 5), loc(4, 9)],
            ),
            region_start(RegionId::CentralAfrica, seq![loc(3, 0), loc(3, 2), loc(3, 4)]),
            region_start(RegionId::SouthAfrica, seq![loc(3, 2), loc(3, 3), loc(3, 5)]),
            region_start(RegionId::Madagascar, seq![loc(3, 2), loc(3, 4)]),
        ],
        bonus: 3,
    }
}

/// Asia: 12 regions, bonus 7.
pub open spec fn asia() -> ContinentModel {
    ContinentModel {
        regions: seq![
            region_start(RegionId::Ural, seq![loc(2, 2), loc(4, 1), loc(4, 7), loc(4, 8)]),
            region_start(
                RegionId::Siberia,
                seq![loc(4, 0), loc(4, 2), loc(4, 4), loc(4, 5), loc(4, 8)],
            ),
            region_start(RegionId::Yakutsk, seq![loc(4, 1), loc(4, 3), loc(4, 4)]),
            region_start(
                RegionId::Kamchatka,
                seq![loc(0, 0), loc(4, 2), loc(4, 4), loc(4, 5), loc(4, 6)],
            ),
            region_start(RegionId::Irkutsk, seq![loc(4, 1), loc(4, 2), loc(4, 3), loc(4, 5)]),
            region_start(
                RegionId::Mongolia,
                seq![loc(4, 1), loc(4, 3), loc(4, 4), loc(4, 6), loc(4, 8)],
            ),
            region_start(RegionId::Japan, seq![loc(4, 3), loc(4, 5)]),
            region_start(
                RegionId::Afghanistan,
                seq![loc(2, 2), loc(4, 0), loc(4, 8), loc(4, 9), loc(4, 10)],
            ),
            region_start(
                RegionId::China,
                seq![loc(4, 0), loc(4, 1), loc(4, 5), loc(4, 7), loc(4, 10), loc(4, 11)],
            ),
            region_start(
                RegionId::MiddleEast,
                seq![loc(2, 2), loc(2, 6), loc(3, 1), loc(3, 2), loc(4, 7), loc(4, 10)],
            ),
            region_start(RegionId::India, seq![loc(4, 7), loc(4, 8), loc(4, 9), loc(4, 11)]),
            region_start(RegionId::SoutheastAsia, seq![loc(4, 8), loc(4, 10), loc(5, 0)]),
        ],
        bonus: 7,
    }
}

/// Australia: 4 regions, bonus 2.
pub open spec fn australia() -> ContinentModel {
    ContinentModel {
        regions: seq![
            region_start(RegionId::Indonesia, seq![loc(4, 11), loc(5, 1), loc(5, 2)]),
            region_start(RegionId::NewGuinea, seq![loc(5, 0), loc(5, 2), loc(5, 3)]),
            region_start(RegionId::WesternAustralia, seq![loc(5, 0), loc(5, 1), loc(5, 3)]),
            region_start(RegionId::EasternAustralia, seq![loc(5, 1), loc(5, 2)]),
        ],
        bonus: 2,
    }
}

/// The whole world at the start of a match.
pub open spec fn canonical_world() -> Seq<ContinentModel> {
    seq![north_america(), south_america(), europe(), africa(), asia(), australia()]
}

/// `w` and `v` agree on everything but ownership and troop counts:
/// same continents, bonuses, region identities and adjacency lists.
pub open spec fn same_structure(w: Seq<ContinentModel>, v: Seq<ContinentModel>) -> bool {
    &&& w.len() == v.len()
    &&& forall|c: int|
        0 <= c < w.len() ==> {
            &&& (#[trigger] w[c]).bonus == v[c].bonus
            &&& w[c].regions.len() == v[c].regions.len()
        }
    &&& forall|c: int, r: int|
        0 <= c < w.len() && 0 <= r < w[c].regions.len() ==> {
            &&& (#[trigger] w[c].regions[r]).id == v[c].regions[r].id
            &&& w[c].regions[r].neighbors == v[c].regions[r].neighbors
        }
}

/// A well-formed world: structurally the canonical map — only ownership
/// and troop counts may differ from the freshly built world.
pub open spec fn well_formed(w: Seq<ContinentModel>) -> bool {
    same_structure(w, canonical_world())
}

/// The number of regions of the whole world.
pub open spec fn region_count(w: Seq<ContinentModel>) -> int {
    region_count_upto(w, w.len() as int)
}

/// Whether `x` occurs among the first `i` elements of `s`, by a scan
/// from the front.
pub open spec fn found_before(s: Seq<Coord>, x: Coord, i: int) -> bool
    decreases i,
{
    i > 0 && (s[i - 1] == x || found_before(s, x, i - 1))
}

/// Whether `x` occurs in `s`.
pub open spec fn has_coord(s: Seq<Coord>, x: Coord) -> bool {
    found_before(s, x, s.len() as int)
}

proof fn lemma_found_before(s: Seq<Coord>, x: Coord, i: int)
    requires
        0 <= i <= s.len(),
    ensures
        found_before(s, x, i) <==> exists|j: int| 0 <= j < i && s[j] == x,
    decreases i,
{
    if i > 0 {
        lemma_found_before(s, x, i - 1);
    }
}

/// The scan finds exactly the members of the sequence.
pub proof fn lemma_has_coord_is_contains(s: Seq<Coord>, x: Coord)
    ensures
        has_coord(s, x) <==> s.contains(x),
{
    lemma_found_before(s, x, s.len() as int);
}

/// Neighbor `i` of the region at `a` names a region that exists and that
/// lists `a` back.
pub open spec fn neighbor_reciprocated(w: Seq<ContinentModel>, a: Coord, i: int) -> bool {
    let b = region_of(w, a).neighbors[i];
    in_range(w, b) && region_of(w, b).neighbors.contains(a)
}

/// The scan form of `neighbor_reciprocated`, for evaluation by
/// unfolding.
pub open spec fn neighbor_scanned(w: Seq<ContinentModel>, a: Coord, i: int) -> bool {
    let b = region_of(w, a).neighbors[i];
    in_range(w, b) && has_coord(region_of(w, b).neighbors, a)
}

/// Adjacency is symmetric: every neighbor of every region exists and
/// lists that region back.
pub open spec fn adjacency_symmetric(w: Seq<ContinentModel>) -> bool {
    forall|a: Coord, i: int|
        in_range(w, a) && 0 <= i < region_of(w, a).neighbors.len()
            ==> #[trigger] neighbor_reciprocated(w, a, i)
}

/// The coordinate with continent index `c` and region index `r`, given
/// as mathematical integers.
pub open spec fn coord_at(c: int, r: int) -> Coord {
    Coord { continent: c as usize, region: r as usize }
}

/// All neighbors before position `i` of the region at `a` are
/// reciprocated.
pub open spec fn region_checked(w: Seq<ContinentModel>, a: Coord, i: int) -> bool
    decreases i,
{
    i <= 0 || (region_checked(w, a, i - 1) && neighbor_scanned(w, a, i - 1))
}

/// All regions before index `r` of continent `c` have every neighbor
/// reciprocated.
pub open spec fn continent_checked(w: Seq<ContinentModel>, c: int, r: int) -> bool
    decreases r,
{
    r <= 0 || (continent_checked(w, c, r - 1) && region_checked(
        w,
        coord_at(c, r - 1),
        region_of(w, coord_at(c, r - 1)).neighbors.len() as int,
    ))
}

/// All continents before index `c` have every neighbor of every region
/// reciprocated.
pub open spec fn world_checked(w: Seq<ContinentModel>, c: int) -> bool
    decreases c,
{
    c <= 0 || (world_checked(w, c - 1) && continent_checked(
        w,
        c - 1,
        w[c - 1].regions.len() as int,
    ))
}

proof fn lemma_region_checked(w: Seq<ContinentModel>, a: Coord, i: int)
    requires
        region_checked(w, a, i),
    ensures
        forall|j: int| 0 <= j < i ==> #[trigger] neighbor_scanned(w, a, j),
    decreases i,
{
    if i > 0 {
        lemma_region_checked(w, a, i - 1);
    }
}

proof fn lemma_continent_checked(w: Seq<ContinentModel>, c: int, r: int)
    requires
        continent_checked(w, c, r),
    ensures
        forall|rr: int, j: int|
            0 <= rr < r && 0 <= j < region_of(w, coord_at(c, rr)).neighbors.len()
                ==> #[trigger] neighbor_scanned(w, coord_at(c, rr), j),
    decreases r,
{
    if r > 0 {
        lemma_continent_checked(w, c, r - 1);
        lemma_region_checked(
            w,
            coord_at(c, r - 1),
            region_of(w, coord_at(c, r - 1)).neighbors.len() as int,
        );
    }
}

proof fn lemma_world_checked(w: Seq<ContinentModel>, c: int)
    requires
        world_checked(w, c),
    ensures
        forall|cc: int, rr: int, j: int|
            0 <= cc < c && 0 <= rr < w[cc].regions.len() && 0 <= j < region_of(
                w,
                coord_at(cc, rr),
            ).neighbors.len() ==> #[trigger] neighbor_scanned(w, coord_at(cc, rr), j),
    decreases c,
{
    if c > 0 {
        lemma_world_checked(w, c - 1);
        lemma_continent_checked(w, c - 1, w[c - 1].regions.len() as int);
    }
}

#[verifier::rlimit(100)]
#[verifier::spinoff_prover]
proof fn lemma_checked_upto_2()
    ensures
        world_checked(canonical_world(), 2),
{
    assert(world_checked(canonical_world(), 2)) by {
        reveal_with_fuel(world_checked, 3);
        reveal_with_fuel(continent_checked, 10);
        reveal_with_fuel(region_checked, 8);
        reveal_with_fuel(found_before, 8);
    }
}

#[verifier::rlimit(100)]
#[verifier::spinoff_prover]
proof fn lemma_checked_upto_4()
    ensures
        world_checked(canonical_world(), 4),
{
    lemma_checked_upto_2();
    assert(world_checked(canonical_world(), 4)) by {
        reveal_with_fuel(world_checked, 3);
        reveal_with_fuel(continent_checked, 8);
        reveal_with_fuel(region_checked, 8);
        reveal_with_fuel(found_before, 8);
        assert(world_checked(canonical_world(), 2));
    }
}

#[verifier::rlimit(100)]
#[verifier::spinoff_prover]
proof fn lemma_checked_upto_6()
    ensures
        world_checked(canonical_world(), 6),
{
    lemma_checked_upto_4();
    assert(world_checked(canonical_world(), 6)) by {
        reveal_with_fuel(world_checked, 3);
        reveal_with_fuel(continent_checked, 13);
        reveal_with_fuel(region_checked, 8);
        reveal_with_fuel(found_before, 8);
        assert(world_checked(canonical_world(), 4));
    }
}

/// Adjacency symmetry: for every region of the canonical world and every
/// neighbor in its list, that neighbor\'s own list names the region back.
pub proof fn lemma_canonical_symmetric()
    ensures
        adjacency_symmetric(canonical_world()),
{
    let w = canonical_world();
    lemma_checked_upto_6();
    lemma_world_checked(w, 6);
    assert(w.len() == 6);
    assert forall|a: Coord, i: int|
        in_range(w, a) && 0 <= i < region_of(w, a).neighbors.len()
            implies #[trigger] neighbor_reciprocated(w, a, i) by {
        assert(coord_at(a.continent as int, a.region as int) == a);
        assert(neighbor_reciprocated(w, coord_at(a.continent as int, a.region as int), i));
    }
}

/// The canonical world is well formed: sameness of structure with itself.
pub proof fn lemma_canonical_well_formed()
    ensures
        well_formed(canonical_world()),
{
}

/// The shape of the world: 6 continents, 42 regions in groups of
/// 9, 4, 7, 6, 12 and 4, with bonuses 5, 2, 5, 3, 7 and 2.
pub proof fn lemma_world_shape()
    ensures
        canonical_world().len() == 6,
        region_count(canonical_world()) == 42,
        canonical_world()[0].regions.len() == 9,
        canonical_world()[1].regions.len() == 4,
        canonical_world()[2].regions.len() == 7,
        canonical_world()[3].regions.len() == 6,
        canonical_world()[4].regions.len() == 12,
        canonical_world()[5].regions.len() == 4,
        canonical_world()[0].bonus == 5,
        canonical_world()[1].bonus == 2,
        canonical_world()[2].bonus == 5,
        canonical_world()[3].bonus == 3,
        canonical_world()[4].bonus == 7,
        canonical_world()[5].bonus == 2,
{
    assert(region_count(canonical_world()) == 42) by {
        reveal_with_fuel(region_count_upto, 7);
    }
}

/// The number of regions among the first `c` continents.
pub open spec fn region_count_upto(w: Seq<ContinentModel>, c: int) -> int
    decreases c,
{
    if c <= 0 {
        0
    } else {
        region_count_upto(w, c - 1) + w[c - 1].regions.len()
    }
}

proof fn lemma_region_count_upto_same(w: Seq<ContinentModel>, v: Seq<ContinentModel>, c: int)
    requires
        forall|i: int| 0 <= i < c ==> (#[trigger] w[i]).regions.len() == v[i].regions.len(),
    ensures
        region_count_upto(w, c) == region_count_upto(v, c),
    decreases c,
{
    if c > 0 {
        lemma_region_count_upto_same(w, v, c - 1);
    }
}

/// Two worlds of the same structure hold the same number of regions.
pub proof fn lemma_region_count_same_structure(w: Seq<ContinentModel>, v: Seq<ContinentModel>)
    requires
        w.len() == v.len(),
        forall|c: int| 0 <= c < w.len() ==> (#[trigger] w[c]).regions.len() == v[c].regions.len(),
    ensures
        region_count(w) == region_count(v),
{
    lemma_region_count_upto_same(w, v, w.len() as int);
}

/// The setup step keeps the world well formed: replacing a region with
/// one of the same identity and adjacency touches no structure.
pub proof fn lemma_set_region_preserves_well_formed(
    w: Seq<ContinentModel>,
    at: Coord,
    reg: RegionModel,
)
    requires
        well_formed(w),
        in_range(w, at),
        reg.id == region_of(w, at).id,
        reg.neighbors == region_of(w, at).neighbors,
    ensures
        well_formed(set_region(w, at, reg)),
{
    let w1 = set_region(w, at, reg);
    let v = canonical_world();
    assert forall|c: int| 0 <= c < w1.len() implies (#[trigger] w1[c]).bonus == v[c].bonus
        && w1[c].regions.len() == v[c].regions.len() by {
        assert(w[c].bonus == v[c].bonus && w[c].regions.len() == v[c].regions.len());
    }
    assert forall|c: int, r: int|
        0 <= c < w1.len() && 0 <= r < w1[c].regions.len() implies (
    #[trigger] w1[c].regions[r]).id == v[c].regions[r].id && w1[c].regions[r].neighbors
        == v[c].regions[r].neighbors by {
        assert(w[c].regions[r].id == v[c].regions[r].id && w[c].regions[r].neighbors
            == v[c].regions[r].neighbors);
    }
}

fn coord(c: usize, r: usize) -> (z: Coord)
    ensures
        z == loc(c, r),
{
    Coord { continent: c, region: r }
}

fn nbrs2(a: Coord, b: Coord) -> (v: Vec<Coord>)
    ensures
        v@ == seq![a, b],
{
    let mut v: Vec<Coord> = Vec::new();
    v.push(a);
    v.push(b);
    v
}

fn nbrs3(a: Coord, b: Coord, c: Coord) -> (v: Vec<Coord>)
    ensures
        v@ == seq![a, b, c],
{
    let mut v = nbrs2(a, b);
    v.push(c);
    v
}

fn nbrs4(a: Coord, b: Coord, c: Coord, d: Coord) -> (v: Vec<Coord>)
    ensures
        v@ == seq![a, b, c, d],
{
    let mut v = nbrs3(a, b, c);
    v.push(d);
    v
}

fn nbrs5(a: Coord, b: Coord, c: Coord, d: Coord, e: Coord) -> (v: Vec<Coord>)
    ensures
        v@ == seq![a, b, c, d, e],
{
    let mut v = nbrs4(a, b, c, d);
    v.push(e);
    v
}

fn nbrs6(a: Coord, b: Coord, c: Coord, d: Coord, e: Coord, f: Coord) -> (v: Vec<Coord>)
    ensures
        v@ == seq![a, b, c, d, e, f],
{
    let mut v = nbrs5(a, b, c, d, e);
    v.push(f);
    v
}

fn start_region(id: RegionId, neighbors: Vec<Coord>) -> (r: Region)
    ensures
        r@ == region_start(id, neighbors@),
{
    Region { id: id, owner: -1, num_troops: 0, neighbors: neighbors }
}

fn build_north_america() -> (c: Continent)
    ensures
        c@ == north_america(),
{
    let mut regions: Vec<Region> = Vec::new();
    regions.push(start_region(RegionId::Alaska, nbrs3(coord(0, 1), coord(0, 3), coord(4, 3))));
    regions.push(
        start_region(
            RegionId::NorthwestTerritory,
            nbrs4(coord(0, 0), coord(0, 2), coord(0, 3), coord(0, 4)),
        ),
    );
    regions.push(
        start_region(RegionId::Greenland, nbrs4(coord(0, 1), coord(0, 4), coord(0, 5), coord(2, 0))),
    );
    regions.push(
        start_region(RegionId::Alberta, nbrs4(coord(0, 0), coord(0, 1), coord(0, 4), coord(0, 6))),
    );
    regions.push(
        start_region(
            RegionId::Ontario,
            nbrs6(coord(0, 1), coord(0, 2), coord(0, 3), coord(0, 5), coord(0, 6), coord(0, 7)),
        ),
    );
    regions.push(start_region(RegionId::Quebec, nbrs3(coord(0, 2), coord(0, 4), coord(0, 7))));
    regions.push(
        start_region(
            RegionId::WesternUnitedStates,
            nbrs4(coord(0, 3), coord(0, 4), coord(0, 7), coord(0, 8)),
        ),
    );
    regions.push(
        start_region(
            RegionId::EasternUnitedStates,
            nbrs4(coord(0, 4), coord(0, 5), coord(0, 6), coord(0, 8)),
        ),
    );
    regions.push(
        start_region(RegionId::CentralAmerica, nbrs3(coord(0, 6), coord(0, 7), coord(1, 0))),
    );
    let c = Continent { regions: regions, bonus: 5 };
    proof {
        assert(c@ =~~= north_america());
    }
    c
}

fn build_south_america() -> (c: Continent)
    ensures
        c@ == south_america(),
{
    let mut regions: Vec<Region> = Vec::new();
    regions.push(start_region(RegionId::Venezuela, nbrs3(coord(0, 8), coord(1, 1), coord(1, 2))));
    regions.push(start_region(RegionId::Peru, nbrs3(coord(1, 0), coord(1, 2), coord(1, 3))));
    regions.push(
        start_region(RegionId::Brazil, nbrs4(coord(1, 0), coord(1, 1), coord(1, 3), coord(3, 0))),
    );
    regions.push(start_region(RegionId::Argentina, nbrs2(coord(1, 1), coord(1, 2))));
    let c = Continent { regions: regions, bonus: 2 };
    proof {
        assert(c@ =~~= south_america());
    }
    c
}

fn build_europe() -> (c: Continent)
    ensures
        c@ == europe(),
{
    let mut regions: Vec<Region> = Vec::new();
    regions.push(start_region(RegionId::Iceland, nbrs3(coord(0, 2), coord(2, 1), coord(2, 3))));
    regions.push(
        start_region(RegionId::Scandinavia, nbrs4(coord(2, 0), coord(2, 2), coord(2, 3), coord(2, 4))),
    );
    regions.push(
        start_region(
            RegionId::Russia,
            nbrs6(coord(2, 1), coord(2, 4), coord(2, 6), coord(4, 0), coord(4, 7), coord(4, 9)),
        ),
    );
    regions.push(
        start_region(RegionId::GreatBritain, nbrs4(coord(2, 0), coord(2, 1), coord(2, 4), coord(2, 5))),
    );
    regions.push(
        start_region(
            RegionId::NorthernEurope,
            nbrs5(coord(2, 1), coord(2, 2), coord(2, 3), coord(2, 5), coord(2, 6)),
        ),
    );
    regions.push(
        start_region(RegionId::WesternEurope, nbrs4(coord(2, 3), coord(2, 4), coord(2, 6), coord(3, 0))),
    );
    regions.push(
        start_region(
            RegionId::SouthernEurope,
            nbrs6(coord(2, 2), coord(2, 4), coord(2, 5), coord(3, 0), coord(3, 1), coord(4, 9)),
        ),
    );
    let c = Continent { regions: regions, bonus: 5 };
    proof {
        assert(c@ =~~= europe());
    }
    c
}

fn build_africa() -> (c: Continent)
    ensures
        c@ == africa(),
{
    let mut regions: Vec<Region> = Vec::new();
    regions.push(
        start_region(
            RegionId::NorthAfrica,
            nbrs6(coord(1, 2), coord(2, 5), coord(2, 6), coord(3, 1), coord(3, 2), coord(3, 3)),
        ),
    );
    regions.push(
        start_region(RegionId::Egypt, nbrs4(coord(2, 6), coord(3, 0), coord(3, 2), coord(4, 9))),
    );
    regions.push(
        start_region(
            RegionId::EastAfrica,
            nbrs6(coord(3, 0), coord(3, 1), coord(3, 3), coord(3, 4), coord(3, 5), coord(4, 9)),
        ),
    );
    regions.push(
        start_region(RegionId::CentralAfrica, nbrs3(coord(3, 0), coord(3, 2), coord(3, 4))),
    );
    regions.push(start_region(RegionId::SouthAfrica, nbrs3(coord(3, 2), coord(3, 3), coord(3, 5))));
    regions.push(start_region(RegionId::Madagascar, nbrs2(coord(3, 2), coord(3, 4))));
    let c = Continent { regions: regions, bonus: 3 };
    proof {
        assert(c@ =~~= africa());
    }
    c
}

fn build_asia() -> (c: Continent)
    ensures
        c@ == asia(),
{
    let mut regions: Vec<Region> = Vec::new();
    regions.push(
        start_region(RegionId::Ural, nbrs4(coord(2, 2), coord(4, 1), coord(4, 7), coord(4, 8))),
    );
    regions.push(
        start_region(
            RegionId::Siberia,
            nbrs5(coord(4, 0), coord(4, 2), coord(4, 4), coord(4, 5), coord(4, 8)),
        ),
    );
    regions.push(start_region(RegionId::Yakutsk, nbrs3(coord(4, 1), coord(4, 3), coord(4, 4))));
    regions.push(
        start_region(
            RegionId::Kamchatka,
            nbrs5(coord(0, 0), coord(4, 2), coord(4, 4), coord(4, 5), coord(4, 6)),
        ),
    );
    regions.push(
        start_region(RegionId::Irkutsk, nbrs4(coord(4, 1), coord(4, 2), coord(4, 3), coord(4, 5))),
    );
    regions.push(
        start_region(
            RegionId::Mongolia,
            nbrs5(coord(4, 1), coord(4, 3), coord(4, 4), coord(4, 6), coord(4, 8)),
        ),
    );
    regions.push(start_region(RegionId::Japan, nbrs2(coord(4, 3), coord(4, 5))));
    regions.push(
        start_region(
            RegionId::Afghanistan,
            nbrs5(coord(2, 2), coord(4, 0), coord(4, 8), coord(4, 9), coord(4, 10)),
        ),
    );
    regions.push(
        start_region(
            RegionId::China,
            nbrs6(coord(4, 0), coord(4, 1), coord(4, 5), coord(4, 7), coord(4, 10), coord(4, 11)),
        ),
    );
    regions.push(
        start_region(
            RegionId::MiddleEast,
            nbrs6(coord(2, 2), coord(2, 6), coord(3, 1), coord(3, 2), coord(4, 7), coord(4, 10)),
        ),
    );
    regions.push(
        start_region(RegionId::India, nbrs4(coord(4, 7), coord(4, 8), coord(4, 9), coord(4, 11))),
    );
    regions.push(
        start_region(RegionId::SoutheastAsia, nbrs3(coord(4, 8), coord(4, 10), coord(5, 0))),
    );
    let c = Continent { regions: regions, bonus: 7 };
    proof {
        assert(c@ =~~= asia());
    }
    c
}

fn build_australia() -> (c: Continent)
    ensures
        c@ == australia(),
{
    let mut regions: Vec<Region> = Vec::new();
    regions.push(start_region(RegionId::Indonesia, nbrs3(coord(4, 11), coord(5, 1), coord(5, 2))));
    regions.push(start_region(RegionId::NewGuinea, nbrs3(coord(5, 0), coord(5, 2), coord(5, 3))));
    regions.push(
        start_region(RegionId::WesternAustralia, nbrs3(coord(5, 0), coord(5, 1), coord(5, 3))),
    );
    regions.push(start_region(RegionId::EasternAustralia, nbrs2(coord(5, 1), coord(5, 2))));
    let c = Continent { regions: regions, bonus: 2 };
    proof {
        assert(c@ =~~= australia());
    }
    c
}

/// Build the fixed world: 6 continents, 42 regions, every region unowned
/// with no troops, and the canonical symmetric adjacency lists. The
/// player count is stored, not validated.
pub fn init(num_players: i8) -> (g: Game)
    ensures
        g@.continents == canonical_world(),
        well_formed(g@.continents),
        g@.current_player == 0,
        g@.num_players == num_players as int,
{
    let mut continents: Vec<Continent> = Vec::new();
    continents.push(build_north_america());
    continents.push(build_south_america());
    continents.push(build_europe());
    continents.push(build_africa());
    continents.push(build_asia());
    continents.push(build_australia());
    let g = Game { continents: continents, current_player: 0, num_players: num_players };
    proof {
        assert(g@.continents =~~= canonical_world());
    }
    g
}

} // verus!
