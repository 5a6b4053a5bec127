//! The world model: territories (regions) grouped into continents, with
//! per-region ownership and troop state, and coordinate-based access.

use vstd::prelude::*;

verus! {

/// The identity of one of the 42 territories of the world map.
#[derive(Clone, Copy, PartialEq, Eq, Structural, Debug)]
pub enum RegionId {
    // North America
    Alaska,
    NorthwestTerritory,
    Greenland,
    Alberta,
    Ontario,
    Quebec,
    WesternUnitedStates,
    EasternUnitedStates,
    CentralAmerica,
    // South America
    Venezuela,
    Peru,
    Brazil,
    Argentina,
    // Europe
    Iceland,
    Scandinavia,
    Russia,
    GreatBritain,
    NorthernEurope,
    WesternEurope,
    SouthernEurope,
    // Africa
    NorthAfrica,
    Egypt,
    EastAfrica,
    CentralAfrica,
    SouthAfrica,
    Madagascar,
    // Asia
    Ural,
    Siberia,
    Yakutsk,
    Kamchatka,
    Irkutsk,
    Mongolia,
    Japan,
    Afghanistan,
    China,
    MiddleEast,
    India,
    SoutheastAsia,
    // Australia
    Indonesia,
    NewGuinea,
    WesternAustralia,
    EasternAustralia,
}

/// A coordinate locating one region: the index of its continent in the
/// world, and the index of the region inside that continent. It is a
/// non-owning locator, never a pointer.
#[derive(Clone, Copy, PartialEq, Eq, Structural, Debug)]
pub struct Coord {
    pub continent: usize,
    pub region: usize,
}

/// One territory: its identity, the player that owns it (`-1` while it is
/// unowned), the troops standing on it, and the coordinates of the
/// territories adjacent to it.
pub struct Region {
    pub id: RegionId,
    pub owner: i8,
    pub num_troops: i16,
    pub neighbors: Vec<Coord>,
}

/// A fixed group of regions together with the troop bonus awarded to a
/// player that owns every region of the group.
pub struct Continent {
    pub regions: Vec<Region>,
    pub bonus: i8,
}

/// The aggregate match state: all continents (and through them all
/// regions), the player whose turn it is, and the number of players.
pub struct Game {
    pub continents: Vec<Continent>,
    pub current_player: i8,
    pub num_players: i8,
}

/// The mathematical model of one region.
#[verifier::ext_equal]
pub struct RegionModel {
    pub id: RegionId,
    pub owner: int,
    pub troops: int,
    pub neighbors: Seq<Coord>,
}

/// The mathematical model of one continent.
#[verifier::ext_equal]
pub struct ContinentModel {
    pub regions: Seq<RegionModel>,
    pub bonus: int,
}

/// The mathematical model of a match: the world is a sequence of
/// continent models.
#[verifier::ext_equal]
pub struct GameModel {
    pub continents: Seq<ContinentModel>,
    pub current_player: int,
    pub num_players: int,
}

impl View for Region {
    type V = RegionModel;

    open spec fn view(&self) -> RegionModel {
        RegionModel {
            id: self.id,
            owner: self.owner as int,
            troops: self.num_troops as int,
            neighbors: self.neighbors@,
        }
    }
}

impl View for Continent {
    type V = ContinentModel;

    open spec fn view(&self) -> ContinentModel {
        ContinentModel {
            regions: self.regions@.map_values(|r: Region| r@),
            bonus: self.bonus as int,
        }
    }
}

impl View for Game {
    type V = GameModel;

    open spec fn view(&self) -> GameModel {
        GameModel {
            continents: self.continents@.map_values(|c: Continent| c@),
            current_player: self.current_player as int,
            num_players: self.num_players as int,
        }
    }
}

/// Whether `at` names a region that exists in the world `w`.
pub open spec fn in_range(w: Seq<ContinentModel>, at: Coord) -> bool {
    (at.continent as int) < w.len() && (at.region as int) < w[at.continent as int].regions.len()
}

/// The region of `w` at coordinate `at`.
pub open spec fn region_of(w: Seq<ContinentModel>, at: Coord) -> RegionModel {
    w[at.continent as int].regions[at.region as int]
}

/// The world `w` with the region at `at` replaced by `reg`; everything
/// else, continent bonuses included, is unchanged.
pub open spec fn set_region(w: Seq<ContinentModel>, at: Coord, reg: RegionModel) -> Seq<
    ContinentModel,
> {
    w.update(
        at.continent as int,
        ContinentModel {
            regions: w[at.continent as int].regions.update(at.region as int, reg),
            bonus: w[at.continent as int].bonus,
        },
    )
}

impl Game {
    /// Coordinate-based lookup of a region, for a driver that needs to
    /// render or inspect state.
    pub fn region(&self, at: Coord) -> (r: &Region)
        requires
            in_range(self@.continents, at),
        ensures
            r@ == region_of(self@.continents, at),
    {
        &self.continents[at.continent].regions[at.region]
    }

    /// The explicit setup step: overwrite the owner and the troop count of
    /// the region at `at`. The world's structure (identities, adjacency,
    /// bonuses) is untouched.
    pub fn set_region_state(&mut self, at: Coord, owner: i8, troops: i16)
        requires
            in_range(old(self)@.continents, at),
        ensures
            final(self)@.continents == set_region(
                old(self)@.continents,
                at,
                RegionModel {
                    id: region_of(old(self)@.continents, at).id,
                    owner: owner as int,
                    troops: troops as int,
                    neighbors: region_of(old(self)@.continents, at).neighbors,
                },
            ),
            final(self)@.current_player == old(self)@.current_player,
            final(self)@.num_players == old(self)@.num_players,
    {
        let c = at.continent;
        let r = at.region;
        self.continents[c].regions[r].owner = owner;
        self.continents[c].regions[r].num_troops = troops;
        proof {
            assert(self@.continents =~~= set_region(
                old(self)@.continents,
                at,
                RegionModel {
                    id: region_of(old(self)@.continents, at).id,
                    owner: owner as int,
                    troops: troops as int,
                    neighbors: region_of(old(self)@.continents, at).neighbors,
                },
            ));
        }
    }
}

} // verus!
