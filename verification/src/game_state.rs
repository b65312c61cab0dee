//! The world: the board and the units that live on it.
use vstd::prelude::*;
use std::collections::HashMap;
use crate::types::{MapPos, PlayerId, Size2, UnitId, ZInt};
use crate::map::{on_board, HexGrid, Terrain};
use crate::object_types::{ObjectTypes, UnitTypeId, UnitTypeView};
use crate::event::{CoreEvent, CoreEventView};

verus! {

broadcast use vstd::std_specs::hash::group_hash_axioms;

/// A unit on the board.
#[derive(Clone, Copy, Debug, PartialEq, Eq, Structural)]
pub struct Unit {
    pub id: UnitId,
    pub pos: MapPos,
    pub player_id: PlayerId,
    pub type_id: UnitTypeId,
    pub move_points: ZInt,
    pub attacked: bool,
}

/// Whether the event `event` can be applied to a world with the units
/// `units` on a board of size `board`, given the unit types `types`.
///
/// A move needs its unit and a path that ends on the board; a new unit needs
/// an id that no live unit has, a cell of the board and a known type; an
/// attack needs both of its units.
pub open spec fn applicable(
    units: Map<ZInt, Unit>,
    board: Size2,
    types: Seq<UnitTypeView>,
    event: CoreEventView,
) -> bool {
    match event {
        CoreEventView::Move { unit_id, path } => {
            &&& units.contains_key(unit_id.id)
            &&& path.len() >= 1
            &&& on_board(board, path.last()@)
        },
        CoreEventView::EndTurn { old_id, new_id } => true,
        CoreEventView::CreateUnit { unit_id, pos, type_id, player_id } => {
            &&& !units.contains_key(unit_id.id)
            &&& on_board(board, pos@)
            &&& 0 <= type_id.id < types.len()
        },
        CoreEventView::AttackUnit { attacker_id, defender_id, killed } => {
            &&& units.contains_key(attacker_id.id)
            &&& units.contains_key(defender_id.id)
        },
    }
}

/// The units of the world after the event `event`.
///
/// A move puts its unit on the last cell of the path. A new unit starts with
/// the move points of its type and has not attacked. An attack that kills
/// takes the defender off the board. The end of a turn moves nothing.
pub open spec fn units_after(
    units: Map<ZInt, Unit>,
    types: Seq<UnitTypeView>,
    event: CoreEventView,
) -> Map<ZInt, Unit> {
    match event {
        CoreEventView::Move { unit_id, path } => units.insert(
            unit_id.id,
            Unit { pos: path.last(), ..units[unit_id.id] },
        ),
        CoreEventView::EndTurn { old_id, new_id } => units,
        CoreEventView::CreateUnit { unit_id, pos, type_id, player_id } => units.insert(
            unit_id.id,
            Unit {
                id: unit_id,
                pos: pos,
                player_id: player_id,
                type_id: type_id,
                move_points: types[type_id.id as int].move_points as ZInt,
                attacked: false,
            },
        ),
        CoreEventView::AttackUnit { attacker_id, defender_id, killed } => if killed {
            units.remove(defender_id.id)
        } else {
            units
        },
    }
}

/// The board and the live units, each under its id.
#[derive(Debug)]
pub struct GameState {
    units: HashMap<ZInt, Unit>,
    map: HexGrid<Terrain>,
}

impl GameState {
    /// The live units, each under the number of its id.
    pub closed spec fn units(self) -> Map<ZInt, Unit> {
        self.units@
    }

    /// Size of the board.
    pub closed spec fn board(self) -> Size2 {
        self.map.spec_size()
    }

    /// The terrain of the board, row by row.
    pub closed spec fn terrain(self) -> Seq<Terrain> {
        self.map@
    }

    /// Every cell has its terrain, and every unit is stored under its own id
    /// and stands on the board.
    pub open spec fn wf(self) -> bool {
        &&& self.board().is_valid()
        &&& self.terrain().len() == self.board().area()
        &&& self.units().dom().finite()
        &&& forall|id: ZInt| #[trigger]
            self.units().contains_key(id) ==> self.units()[id].id.id == id && on_board(
                self.board(),
                self.units()[id].pos@,
            )
    }

    /// A world without units on a board of size `map_size`, all of it plain.
    pub fn new(map_size: Size2) -> (state: GameState)
        requires
            map_size.is_valid(),
        ensures
            state.wf(),
            state.board() == map_size,
            state.units() == Map::<ZInt, Unit>::empty(),
            state.terrain() == Seq::new(map_size.area() as nat, |i: int| Terrain::Plain),
    {
        let map: HexGrid<Terrain> = HexGrid::new(map_size);
        let state = GameState { units: HashMap::new(), map: map };
        assert(state.terrain() =~= Seq::new(map_size.area() as nat, |i: int| Terrain::Plain));
        state
    }

    /// The board.
    pub fn map(&self) -> (map: &HexGrid<Terrain>)
        ensures
            map.spec_size() == self.board(),
            map@ == self.terrain(),
    {
        &self.map
    }

    /// Number of live units.
    pub fn unit_count(&self) -> (count: usize)
        ensures
            count == self.units().len(),
    {
        self.units.len()
    }

    /// The live unit with the id `id`, if there is one.
    pub fn unit(&self, id: &UnitId) -> (unit: Option<&Unit>)
        ensures
            match unit {
                Some(unit) => self.units().contains_key(id.id) && *unit == self.units()[id.id],
                None => !self.units().contains_key(id.id),
            },
    {
        self.units.get(&id.id)
    }

    /// The largest number that a live unit has as its id, if there is a unit.
    pub fn max_unit_id(&self) -> (max: Option<ZInt>)
        ensures
            match max {
                Some(max) => self.units().contains_key(max) && forall|id: ZInt|
                    self.units().contains_key(id) ==> id <= max,
                None => forall|id: ZInt| !self.units().contains_key(id),
            },
    {
        let mut max: Option<ZInt> = None;
        for key in iter: self.units.keys()
            invariant
                iter.seq().unref().to_set() == self.units@.dom(),
                match max {
                    Some(max) => self.units@.contains_key(max) && forall|i: int|
                        0 <= i < iter.index() ==> *iter.seq()[i] <= max,
                    None => iter.index() == 0,
                },
                iter.index() == iter.seq().len() ==> forall|id: ZInt| #[trigger]
                    iter.seq().unref().to_set().contains(id) ==> max.is_some() && id
                        <= max.unwrap(),
        {
            let larger: bool = match max {
                Some(m) => *key > m,
                None => true,
            };
            if larger {
                max = Some(*key);
            }
            proof {
                let seen = iter.seq().unref();
                assert forall|id: ZInt| #[trigger] seen.to_set().contains(id) implies max.is_some()
                    && (iter.index() + 1 == seen.len() ==> id <= max.unwrap()) by {
                    let i = choose|i: int| 0 <= i < seen.len() && seen[i] == id;
                    assert(*iter.seq()[i] == id);
                }
            }
        }
        max
    }

    /// Whether the type of every live unit is in the catalogue
    /// `object_types`.
    pub fn knows_unit_types(&self, object_types: &ObjectTypes) -> (known: bool)
        ensures
            known == forall|id: ZInt| #[trigger]
                self.units().contains_key(id) ==> object_types.has_unit_type(
                    self.units()[id].type_id,
                ),
    {
        let mut known: bool = true;
        for unit in iter: self.units.values()
            invariant
                iter.seq().unref().to_set() == self.units@.values(),
                known == forall|i: int|
                    0 <= i < iter.index() ==> object_types.has_unit_type(
                        (#[trigger] iter.seq()[i]).type_id,
                    ),
                iter.index() == iter.seq().len() ==> known == forall|unit: Unit| #[trigger]
                    iter.seq().unref().to_set().contains(unit) ==> object_types.has_unit_type(
                        unit.type_id,
                    ),
        {
            if !object_types.is_unit_type(&unit.type_id) {
                known = false;
            }
            assert(iter.index() + 1 == iter.seq().len() && known ==> forall|unit: Unit| #[trigger]
                iter.seq().unref().to_set().contains(unit) ==> object_types.has_unit_type(
                    unit.type_id,
                )) by {
                let seen = iter.seq().unref();
                assert forall|unit: Unit|
                    iter.index() + 1 == iter.seq().len() && known
                        && #[trigger] seen.to_set().contains(
                        unit,
                    ) implies object_types.has_unit_type(unit.type_id) by {
                    let i = choose|i: int| 0 <= i < seen.len() && seen[i] == unit;
                    assert(*iter.seq()[i] == unit);
                }
            }
            assert(iter.index() + 1 == iter.seq().len() && !known ==> exists|unit: Unit| #[trigger]
                iter.seq().unref().to_set().contains(unit) && !object_types.has_unit_type(
                    unit.type_id,
                )) by {
                let seen = iter.seq().unref();
                if !known {
                    let i = choose|i: int|
                        0 <= i < iter.index() + 1 && !object_types.has_unit_type(
                            (#[trigger] iter.seq()[i]).type_id,
                        );
                    assert(seen.to_set().contains(seen[i]));
                }
            }
        }
        proof {
            if known {
                assert forall|id: ZInt| #[trigger]
                    self.units().contains_key(id) implies object_types.has_unit_type(
                    self.units()[id].type_id,
                ) by {
                    assert(self.units@.values().contains(self.units@[id]));
                }
            } else {
                let unit = choose|unit: Unit|
                    self.units@.values().contains(unit) && !object_types.has_unit_type(
                        unit.type_id,
                    );
                let id = choose|id: ZInt| self.units@.contains_key(id) && self.units@[id] == unit;
                assert(self.units().contains_key(id));
            }
        }
        known
    }

    /// Whether `pos` lies on the board.
    pub fn is_inboard(&self, pos: MapPos) -> (inboard: bool)
        ensures
            inboard == on_board(self.board(), pos@),
    {
        self.map.is_inboard(pos)
    }

    /// Whether `event` can be applied to this world, given the catalogue
    /// `object_types`.
    pub fn can_apply(&self, object_types: &ObjectTypes, event: &CoreEvent) -> (can: bool)
        ensures
            can == applicable(self.units(), self.board(), object_types.unit_types(), event@),
    {
        match event {
            CoreEvent::Move { unit_id, path } => {
                self.units.get(&unit_id.id).is_some() && path.len() >= 1 && self.map.is_inboard(
                    path[path.len() - 1],
                )
            },
            CoreEvent::EndTurn { old_id, new_id } => true,
            CoreEvent::CreateUnit { unit_id, pos, type_id, player_id } => {
                self.units.get(&unit_id.id).is_none() && self.map.is_inboard(*pos)
                    && object_types.is_unit_type(type_id)
            },
            CoreEvent::AttackUnit { attacker_id, defender_id, killed } => {
                self.units.get(&attacker_id.id).is_some() && self.units.get(
                    &defender_id.id,
                ).is_some()
            },
        }
    }

    /// Changes the world as `event` says.
    pub fn apply_event(&mut self, object_types: &ObjectTypes, event: &CoreEvent)
        requires
            old(self).wf(),
            applicable(old(self).units(), old(self).board(), object_types.unit_types(), event@),
        ensures
            final(self).wf(),
            final(self).board() == old(self).board(),
            final(self).terrain() == old(self).terrain(),
            final(self).units() == units_after(
                old(self).units(),
                object_types.unit_types(),
                event@,
            ),
    {
        match event {
            CoreEvent::Move { unit_id, path } => {
                let pos: MapPos = path[path.len() - 1];
                let moved: Option<Unit> = match self.units.get(&unit_id.id) {
                    Some(unit) => Some(Unit { pos: pos, ..*unit }),
                    None => None,
                };
                if let Some(unit) = moved {
                    self.units.insert(unit_id.id, unit);
                }
            },
            CoreEvent::EndTurn { old_id, new_id } => {},
            CoreEvent::CreateUnit { unit_id, pos, type_id, player_id } => {
                let move_points: ZInt = object_types.get_unit_type(type_id).move_points;
                self.units.insert(
                    unit_id.id,
                    Unit {
                        id: *unit_id,
                        pos: *pos,
                        player_id: *player_id,
                        type_id: *type_id,
                        move_points: move_points,
                        attacked: false,
                    },
                );
            },
            CoreEvent::AttackUnit { attacker_id, defender_id, killed } => {
                if *killed {
                    self.units.remove(&defender_id.id);
                }
            },
        }
    }
}

} // verus!
