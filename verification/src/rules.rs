//! The game as mathematics: the state of a game, the event that a command
//! leads to, and the state after an event.
use vstd::prelude::*;
use crate::types::{MapPos, PlayerId, Size2, UnitId, ZInt};
use crate::map::{on_board, spec_distance, Terrain};
use crate::object_types::{ObjectTypes, UnitTypeId, WeaponTypeView};
use crate::combat::{resolves, spec_thresholds, ThresholdsView};
use crate::dice::Dice;
use crate::event::{CommandView, CoreEventView};
use crate::game_state::{applicable, units_after, Unit};

verus! {

/// Why the engine does not take a command.
#[derive(Clone, Copy, Debug, PartialEq, Eq, Structural)]
pub enum CommandError {
    /// The command names a unit that does not live.
    NoSuchUnit { unit_id: UnitId },
    /// The path of a move has no cell.
    EmptyPath,
    /// The cell that a unit is to stand on is off the board.
    OffBoard { pos: MapPos },
    /// The catalogue has no unit type of the recruits' name.
    NoRecruitType,
    /// The largest number is taken, so no number is left for a new unit.
    NoFreeUnitId,
}

/// The state of a game.
pub struct World {
    /// The live units, each under the number of its id.
    pub units: Map<ZInt, Unit>,
    /// Size of the board.
    pub board: Size2,
    /// What covers each cell of the board, row by row. No event changes it.
    pub terrain: Seq<Terrain>,
    /// Number of players; the players are numbered from 0.
    pub players: int,
    /// The player whose turn it is.
    pub current: PlayerId,
    /// For each player the events that wait to be fetched, oldest first.
    pub queues: Map<ZInt, Seq<CoreEventView>>,
}

/// The player whose turn comes after that of `current`, among `players`
/// players: the next number, and 0 after the last.
pub open spec fn next_player(current: PlayerId, players: int) -> PlayerId {
    if current.id + 1 == players {
        PlayerId { id: 0 }
    } else {
        PlayerId { id: (current.id + 1) as ZInt }
    }
}

/// Whether `id` is the number that a new unit gets: 0 in a world without
/// units, else one more than the largest number of a live unit.
pub open spec fn is_new_unit_id(units: Map<ZInt, Unit>, id: int) -> bool {
    &&& forall|k: ZInt| units.contains_key(k) ==> k < id
    &&& if exists|k: ZInt| units.contains_key(k) {
        i32::MIN < id <= i32::MAX + 1 && units.contains_key((id - 1) as ZInt)
    } else {
        id == 0
    }
}

/// The number that a new unit gets.
pub open spec fn new_unit_id(units: Map<ZInt, Unit>) -> int {
    choose|id: int| is_new_unit_id(units, id)
}

/// The weapon that the unit `attacker_id` attacks with.
pub open spec fn weapon_of(
    units: Map<ZInt, Unit>,
    types: ObjectTypes,
    attacker_id: UnitId,
) -> WeaponTypeView {
    let unit_type = types.unit_types()[units[attacker_id.id].type_id.id as int];
    types.weapon_types()[unit_type.weapon_type_id]
}

/// Whether the unit `defender_id` is within reach of the weapon of the unit
/// `attacker_id`.
pub open spec fn in_range(
    units: Map<ZInt, Unit>,
    types: ObjectTypes,
    attacker_id: UnitId,
    defender_id: UnitId,
) -> bool {
    spec_distance(units[attacker_id.id].pos@, units[defender_id.id].pos@) <= weapon_of(
        units,
        types,
        attacker_id,
    ).max_distance
}

/// The thresholds of an attack of the unit `attacker_id` on the unit
/// `defender_id`.
pub open spec fn attack_thresholds(
    units: Map<ZInt, Unit>,
    types: ObjectTypes,
    attacker_id: UnitId,
    defender_id: UnitId,
) -> ThresholdsView {
    spec_thresholds(
        types.unit_types()[units[attacker_id.id].type_id.id as int],
        types.unit_types()[units[defender_id.id].type_id.id as int],
        weapon_of(units, types, attacker_id),
    )
}

/// The terrain of a board of size `board` that is plain all over.
pub open spec fn plain_terrain(board: Size2) -> Seq<Terrain> {
    Seq::new(board.area() as nat, |i: int| Terrain::Plain)
}

/// Name of the unit type that a `CreateUnit` command creates.
pub open spec fn recruit_name() -> Seq<char> {
    "soldier"@
}

impl World {
    /// A world with the units `units` on a board of size `board` covered by
    /// `terrain`, with `players` players and no events; it is the turn of
    /// player 0.
    pub open spec fn start(
        units: Map<ZInt, Unit>,
        board: Size2,
        terrain: Seq<Terrain>,
        players: int,
    ) -> World {
        World {
            units: units,
            board: board,
            terrain: terrain,
            players: players,
            current: PlayerId { id: 0 },
            queues: Map::new(|p: ZInt| 0 <= p < players, |p: ZInt| Seq::empty()),
        }
    }

    /// A world without units on a board of size `board`, all of it plain,
    /// with `players` players and no events; it is the turn of player 0.
    pub open spec fn empty(board: Size2, players: int) -> World {
        World::start(Map::empty(), board, plain_terrain(board), players)
    }

    /// The catalogue and the board are valid, every cell has its terrain,
    /// there is a player, the current player is one of the players, each
    /// player has a queue, and every unit is stored under its id, stands on
    /// the board and has a type of the catalogue.
    pub open spec fn wf(self, types: ObjectTypes) -> bool {
        &&& types.valid()
        &&& self.board.is_valid()
        &&& self.terrain.len() == self.board.area()
        &&& 1 <= self.players <= i32::MAX
        &&& 0 <= self.current.id < self.players
        &&& forall|p: ZInt| self.queues.contains_key(p) <==> 0 <= p < self.players
        &&& self.units.dom().finite()
        &&& forall|id: ZInt| #[trigger]
            self.units.contains_key(id) ==> {
                &&& self.units[id].id.id == id
                &&& on_board(self.board, self.units[id].pos@)
                &&& types.has_unit_type(self.units[id].type_id)
            }
    }

    /// Whether the engine takes the command: a command that it does not take
    /// would stop it.
    ///
    /// A move names a live unit and a path that ends on the board. A new unit
    /// needs a cell of the board, a unit type of the recruits' name in the
    /// catalogue and a free number. An attack names two live units.
    pub open spec fn accepts(self, types: ObjectTypes, command: CommandView) -> bool {
        match command {
            CommandView::Move { unit_id, path } => {
                &&& self.units.contains_key(unit_id.id)
                &&& path.len() >= 1
                &&& on_board(self.board, path.last()@)
            },
            CommandView::EndTurn => true,
            CommandView::CreateUnit { pos } => {
                &&& on_board(self.board, pos@)
                &&& types.unit_type_names().contains(recruit_name())
                &&& !self.units.contains_key(i32::MAX)
            },
            CommandView::AttackUnit { attacker_id, defender_id } => {
                &&& self.units.contains_key(attacker_id.id)
                &&& self.units.contains_key(defender_id.id)
            },
        }
    }

    /// The event that the command leads to, if any. `killed` is the outcome
    /// of the attack, where the command is an attack within range.
    ///
    /// The end of a turn hands the turn to the next player. A new unit gets
    /// the next free number and the recruits' type and belongs to the current
    /// player. A move is passed on as it is. An attack out of range leads to
    /// nothing.
    pub open spec fn event_for(
        self,
        types: ObjectTypes,
        command: CommandView,
        killed: bool,
    ) -> Option<CoreEventView> {
        match command {
            CommandView::EndTurn => Some(
                CoreEventView::EndTurn {
                    old_id: self.current,
                    new_id: next_player(self.current, self.players),
                },
            ),
            CommandView::CreateUnit { pos } => Some(
                CoreEventView::CreateUnit {
                    unit_id: UnitId { id: new_unit_id(self.units) as ZInt },
                    pos: pos,
                    type_id: UnitTypeId { id: types.unit_type_id_of(recruit_name()) as ZInt },
                    player_id: self.current,
                },
            ),
            CommandView::Move { unit_id, path } => Some(
                CoreEventView::Move { unit_id: unit_id, path: path },
            ),
            CommandView::AttackUnit { attacker_id, defender_id } => if in_range(
                self.units,
                types,
                attacker_id,
                defender_id,
            ) {
                Some(
                    CoreEventView::AttackUnit {
                        attacker_id: attacker_id,
                        defender_id: defender_id,
                        killed: killed,
                    },
                )
            } else {
                None
            },
        }
    }

    /// Whether the command is an attack that rolls are made for.
    pub open spec fn rolls_for(self, types: ObjectTypes, command: CommandView) -> bool {
        match command {
            CommandView::AttackUnit { attacker_id, defender_id } => in_range(
                self.units,
                types,
                attacker_id,
                defender_id,
            ),
            _ => false,
        }
    }

    /// The player whose turn it is after the event: the end of a turn hands
    /// the turn to its new player, provided that it is the turn of its old
    /// player and that the new one is on the roster.
    pub open spec fn current_after(self, event: CoreEventView) -> PlayerId {
        match event {
            CoreEventView::EndTurn { old_id, new_id } => if 0 <= new_id.id < self.players
                && self.current == old_id {
                new_id
            } else {
                self.current
            },
            _ => self.current,
        }
    }

    /// The world after the event: the units change as the event says, the
    /// turn may pass on, and every player's queue gets the event at its end.
    /// The board and its terrain stay as they are.
    pub open spec fn after_event(self, types: ObjectTypes, event: CoreEventView) -> World {
        World {
            units: units_after(self.units, types.unit_types(), event),
            board: self.board,
            terrain: self.terrain,
            players: self.players,
            current: self.current_after(event),
            queues: Map::new(
                |p: ZInt| self.queues.contains_key(p),
                |p: ZInt| self.queues[p].push(event),
            ),
        }
    }

    /// Whether the events of the list can be applied one after the other,
    /// the first to this world and each later one to the world that the ones
    /// before it have left.
    pub open spec fn takes_all(self, types: ObjectTypes, events: Seq<CoreEventView>) -> bool
        decreases events.len(),
    {
        if events.len() == 0 {
            true
        } else {
            &&& applicable(self.units, self.board, types.unit_types(), events.first())
            &&& self.after_event(types, events.first()).takes_all(types, events.drop_first())
        }
    }

    /// The world after the events of the list, the first of the list first:
    /// each event is applied to the world that the ones before it have left,
    /// so every queue ends with the events in the order of the list.
    pub open spec fn after_all(self, types: ObjectTypes, events: Seq<CoreEventView>) -> World
        decreases events.len(),
    {
        if events.len() == 0 {
            self
        } else {
            self.after_event(types, events.first()).after_all(types, events.drop_first())
        }
    }

    /// The world after what a command led to: unchanged where it led to
    /// nothing.
    pub open spec fn after(self, types: ObjectTypes, event: Option<CoreEventView>) -> World {
        match event {
            Some(event) => self.after_event(types, event),
            None => self,
        }
    }

    /// The world after the current player has fetched the oldest event of
    /// their queue.
    pub open spec fn after_fetch(self) -> World {
        World {
            queues: self.queues.insert(
                self.current.id,
                self.queues[self.current.id].drop_first(),
            ),
            ..self
        }
    }

    /// What a command does to the source of rolls. `killed` is the outcome
    /// of the attack.
    ///
    /// Where the command is an attack within range, the source of rolls
    /// resolves it; every other command leaves the source alone.
    pub open spec fn rolls(
        self,
        types: ObjectTypes,
        command: CommandView,
        dice: Dice,
        killed: bool,
        later_dice: Dice,
    ) -> bool {
        match command {
            CommandView::AttackUnit { attacker_id, defender_id } => if in_range(
                self.units,
                types,
                attacker_id,
                defender_id,
            ) {
                resolves(
                    attack_thresholds(self.units, types, attacker_id, defender_id),
                    dice,
                    killed,
                    later_dice,
                )
            } else {
                later_dice == dice
            },
            _ => later_dice == dice,
        }
    }

    /// What a command does to the world and to the source of rolls: the
    /// rolls decide `killed`, and the world changes by the event that the
    /// command leads to.
    pub open spec fn steps_to(
        self,
        types: ObjectTypes,
        command: CommandView,
        dice: Dice,
        killed: bool,
        later: World,
        later_dice: Dice,
    ) -> bool {
        &&& later == self.after(types, self.event_for(types, command, killed))
        &&& self.rolls(types, command, dice, killed, later_dice)
    }

    /// The world after a new unit of type `type_id` was put on the cell `pos`
    /// for the player `player_id`.
    pub open spec fn with_new_unit(
        self,
        types: ObjectTypes,
        pos: MapPos,
        type_id: UnitTypeId,
        player_id: PlayerId,
    ) -> World {
        self.after_event(
            types,
            CoreEventView::CreateUnit {
                unit_id: UnitId { id: new_unit_id(self.units) as ZInt },
                pos: pos,
                type_id: type_id,
                player_id: player_id,
            },
        )
    }

    /// The world at the start of the reference scenario: two players, and for
    /// each of them a tank and a squad of soldiers.
    pub open spec fn reference(board: Size2, types: ObjectTypes) -> World {
        World::empty(board, 2).with_new_unit(
            types,
            MapPos { x: 0, y: 0 },
            UnitTypeId { id: 0 },
            PlayerId { id: 0 },
        ).with_new_unit(
            types,
            MapPos { x: 0, y: 1 },
            UnitTypeId { id: 1 },
            PlayerId { id: 0 },
        ).with_new_unit(
            types,
            MapPos { x: 2, y: 0 },
            UnitTypeId { id: 0 },
            PlayerId { id: 1 },
        ).with_new_unit(types, MapPos { x: 2, y: 2 }, UnitTypeId { id: 1 }, PlayerId { id: 1 })
    }

    /// Why the engine does not take the command, if it does not.
    pub open spec fn refusal(self, types: ObjectTypes, command: CommandView) -> Option<
        CommandError,
    > {
        match command {
            CommandView::Move { unit_id, path } => if !self.units.contains_key(unit_id.id) {
                Some(CommandError::NoSuchUnit { unit_id: unit_id })
            } else if path.len() == 0 {
                Some(CommandError::EmptyPath)
            } else if !on_board(self.board, path.last()@) {
                Some(CommandError::OffBoard { pos: path.last() })
            } else {
                None
            },
            CommandView::EndTurn => None,
            CommandView::CreateUnit { pos } => if !on_board(self.board, pos@) {
                Some(CommandError::OffBoard { pos: pos })
            } else if !types.unit_type_names().contains(recruit_name()) {
                Some(CommandError::NoRecruitType)
            } else if self.units.contains_key(i32::MAX) {
                Some(CommandError::NoFreeUnitId)
            } else {
                None
            },
            CommandView::AttackUnit { attacker_id, defender_id } => if !self.units.contains_key(
                attacker_id.id,
            ) {
                Some(CommandError::NoSuchUnit { unit_id: attacker_id })
            } else if !self.units.contains_key(defender_id.id) {
                Some(CommandError::NoSuchUnit { unit_id: defender_id })
            } else {
                None
            },
        }
    }
}

/// The engine takes the commands that it has no reason to refuse.
pub proof fn lemma_refusal(world: World, types: ObjectTypes, command: CommandView)
    ensures
        world.refusal(types, command).is_none() <==> world.accepts(types, command),
{
}

/// A command that the engine takes leads to an event that can be applied.
pub proof fn lemma_event_applicable(
    world: World,
    types: ObjectTypes,
    command: CommandView,
    killed: bool,
)
    requires
        world.wf(types),
        world.accepts(types, command),
    ensures
        match world.event_for(types, command, killed) {
            Some(event) => applicable(world.units, world.board, types.unit_types(), event),
            None => true,
        },
        world.after(types, world.event_for(types, command, killed)).wf(types),
{
    match command {
        CommandView::CreateUnit { pos } => {
            lemma_new_unit_id_exists(world.units);
            let id = new_unit_id(world.units);
            lemma_new_unit_id_is_fresh(world.units, id);
            let names = types.unit_type_names();
            let i = choose|i: int| 0 <= i < names.len() && names[i] == recruit_name();
            lemma_first_named_exists(names, recruit_name(), i);
        },
        _ => {},
    }
    match world.event_for(types, command, killed) {
        Some(event) => {
            lemma_after_event_wf(world, types, event);
        },
        None => {},
    }
}

/// A name that occurs in a list of names has a first place there.
pub proof fn lemma_first_named_exists(names: Seq<Seq<char>>, name: Seq<char>, i: int)
    requires
        0 <= i < names.len(),
        names[i] == name,
    ensures
        exists|j: int| crate::object_types::first_named(names, name, j),
    decreases i,
{
    if exists|j: int| 0 <= j < i && names[j] == name {
        let j = choose|j: int| 0 <= j < i && names[j] == name;
        lemma_first_named_exists(names, name, j);
    } else {
        assert(crate::object_types::first_named(names, name, i));
    }
}

/// In a world with finitely many units, none of them with the largest
/// number, there is a number for a new unit.
pub proof fn lemma_new_unit_id_exists(units: Map<ZInt, Unit>)
    requires
        units.dom().finite(),
        !units.contains_key(i32::MAX),
    ensures
        is_new_unit_id(units, new_unit_id(units)),
        0 <= new_unit_id(units) || exists|k: ZInt| units.contains_key(k),
        i32::MIN <= new_unit_id(units) <= i32::MAX,
{
    if exists|k: ZInt| units.contains_key(k) {
        let k = choose|k: ZInt| units.contains_key(k);
        lemma_largest_key(units.dom(), k);
        let m = choose|m: ZInt|
            units.dom().contains(m) && forall|j: ZInt| units.dom().contains(j) ==> j <= m;
        assert(is_new_unit_id(units, m + 1));
    } else {
        assert(is_new_unit_id(units, 0));
    }
}

/// A finite set of numbers that is not empty has a largest member.
pub proof fn lemma_largest_key(keys: Set<ZInt>, k: ZInt)
    requires
        keys.finite(),
        keys.contains(k),
    ensures
        exists|m: ZInt| keys.contains(m) && forall|j: ZInt| keys.contains(j) ==> j <= m,
    decreases keys.len(),
{
    let rest = keys.remove(k);
    if exists|j: ZInt| rest.contains(j) {
        let j = choose|j: ZInt| rest.contains(j);
        lemma_largest_key(rest, j);
        let m = choose|m: ZInt| rest.contains(m) && forall|j: ZInt| rest.contains(j) ==> j <= m;
        let top = if m >= k {
            m
        } else {
            k
        };
        assert(keys.contains(top) && forall|j: ZInt| keys.contains(j) ==> j <= top);
    } else {
        assert(forall|j: ZInt| keys.contains(j) ==> j <= k);
    }
}

/// There is at most one number for a new unit.
pub proof fn lemma_new_unit_id_unique(units: Map<ZInt, Unit>, a: int, b: int)
    requires
        is_new_unit_id(units, a),
        is_new_unit_id(units, b),
    ensures
        a == b,
{
}

/// The number of a new unit is 0 in a world without units. In any world it
/// lies above the number of every live unit, so no live unit has it.
pub proof fn lemma_new_unit_id_is_fresh(units: Map<ZInt, Unit>, id: int)
    requires
        is_new_unit_id(units, id),
    ensures
        new_unit_id(units) == id,
        units =~= Map::<ZInt, Unit>::empty() ==> id == 0,
        forall|k: ZInt| units.contains_key(k) ==> k < id,
        i32::MIN <= id <= i32::MAX ==> !units.contains_key(id as ZInt),
{
    lemma_new_unit_id_unique(units, id, new_unit_id(units));
}

/// After a unit was created, the next new unit gets the number after its
/// number: the numbers of units created in a row go up one by one.
pub proof fn lemma_new_unit_ids_increase(units: Map<ZInt, Unit>, id: int, unit: Unit)
    requires
        is_new_unit_id(units, id),
        i32::MIN <= id < i32::MAX,
    ensures
        is_new_unit_id(units.insert(id as ZInt, unit), id + 1),
        new_unit_id(units.insert(id as ZInt, unit)) == id + 1,
{
    let later = units.insert(id as ZInt, unit);
    lemma_new_unit_id_unique(later, id + 1, new_unit_id(later));
}

/// A `CreateUnit` command that the engine takes leads to a unit whose number
/// is 0 in a world without units and lies above the number of every live
/// unit in any world, so that no live unit has it. The unit stands on the
/// cell of the command, belongs to the current player and is the only
/// change of the units. The next new unit gets the number after its number.
pub proof fn lemma_create_unit(world: World, types: ObjectTypes, pos: MapPos, killed: bool)
    requires
        world.wf(types),
        world.accepts(types, CommandView::CreateUnit { pos: pos }),
    ensures
        match world.event_for(types, CommandView::CreateUnit { pos: pos }, killed) {
            Some(CoreEventView::CreateUnit { unit_id, pos: cell, type_id, player_id }) => {
                let later = world.after(
                    types,
                    world.event_for(types, CommandView::CreateUnit { pos: pos }, killed),
                );
                &&& unit_id.id == new_unit_id(world.units)
                &&& world.units =~= Map::<ZInt, Unit>::empty() ==> unit_id.id == 0
                &&& forall|k: ZInt| world.units.contains_key(k) ==> k < unit_id.id
                &&& !world.units.contains_key(unit_id.id)
                &&& cell == pos
                &&& player_id == world.current
                &&& types.has_unit_type(type_id)
                &&& types.unit_types()[type_id.id as int].name == recruit_name()
                &&& later.units.dom() =~= world.units.dom().insert(unit_id.id)
                &&& later.units[unit_id.id].id == unit_id
                &&& later.units[unit_id.id].pos == pos
                &&& forall|k: ZInt| world.units.contains_key(k) ==> later.units[k] == world.units[k]
                &&& unit_id.id < i32::MAX ==> new_unit_id(later.units) == unit_id.id + 1
            },
            _ => false,
        },
{
    lemma_new_unit_id_exists(world.units);
    let id = new_unit_id(world.units);
    lemma_new_unit_id_is_fresh(world.units, id);
    let names = types.unit_type_names();
    let i = choose|i: int| 0 <= i < names.len() && names[i] == recruit_name();
    lemma_first_named_exists(names, recruit_name(), i);
    let later = world.after(
        types,
        world.event_for(types, CommandView::CreateUnit { pos: pos }, killed),
    );
    if id < i32::MAX {
        lemma_new_unit_ids_increase(world.units, id, later.units[id as ZInt]);
    }
}

/// An attack on a unit out of reach of the attacker's weapon leads to no
/// event and leaves the world and the source of rolls as they are.
pub proof fn lemma_attack_out_of_range(
    world: World,
    types: ObjectTypes,
    attacker_id: UnitId,
    defender_id: UnitId,
    dice: Dice,
    killed: bool,
    later: World,
    later_dice: Dice,
)
    requires
        !in_range(world.units, types, attacker_id, defender_id),
        world.steps_to(
            types,
            CommandView::AttackUnit { attacker_id: attacker_id, defender_id: defender_id },
            dice,
            killed,
            later,
            later_dice,
        ),
    ensures
        world.event_for(
            types,
            CommandView::AttackUnit { attacker_id: attacker_id, defender_id: defender_id },
            killed,
        ).is_none(),
        later == world,
        later_dice == dice,
{
}

/// The end of a turn hands the turn to the next player of the roster, and
/// after the last player to the first.
pub proof fn lemma_end_turn(world: World, types: ObjectTypes, killed: bool)
    requires
        world.wf(types),
    ensures
        world.event_for(types, CommandView::EndTurn, killed) == Some(
            CoreEventView::EndTurn {
                old_id: world.current,
                new_id: next_player(world.current, world.players),
            },
        ),
        world.after(types, world.event_for(types, CommandView::EndTurn, killed)).current
            == next_player(world.current, world.players),
        next_player(world.current, world.players).id == (world.current.id + 1) % world.players,
        world.after(types, world.event_for(types, CommandView::EndTurn, killed)).units
            == world.units,
{
    let n = world.players;
    let c = world.current.id as int;
    if c + 1 == n {
        vstd::arithmetic::div_mod::lemma_mod_self_0(n);
    } else {
        vstd::arithmetic::div_mod::lemma_small_mod((c + 1) as nat, n as nat);
    }
}

/// With two players, two ends of turn in a row give the turn back to the
/// player who had it.
pub proof fn lemma_two_players_alternate(current: PlayerId)
    requires
        0 <= current.id < 2,
    ensures
        next_player(current, 2).id == 1 - current.id,
        next_player(next_player(current, 2), 2) == current,
{
}

/// First in, first out: after a list of events that can be applied one
/// after the other, the world is well formed and every queue holds what it
/// held before, followed by the events in the order of the list.
pub proof fn lemma_after_all(world: World, types: ObjectTypes, events: Seq<CoreEventView>)
    requires
        world.wf(types),
        world.takes_all(types, events),
    ensures
        world.after_all(types, events).wf(types),
        world.after_all(types, events).board == world.board,
        world.after_all(types, events).terrain == world.terrain,
        world.after_all(types, events).players == world.players,
        forall|p: ZInt|
            world.queues.contains_key(p) ==> #[trigger] world.after_all(types, events).queues[p]
                == world.queues[p] + events,
    decreases events.len(),
{
    if events.len() == 0 {
        assert forall|p: ZInt| world.queues.contains_key(p) implies #[trigger] world.after_all(
            types,
            events,
        ).queues[p] == world.queues[p] + events by {
            assert(world.queues[p] + events =~= world.queues[p]);
        }
    } else {
        let next = world.after_event(types, events.first());
        lemma_after_event_wf(world, types, events.first());
        lemma_after_all(next, types, events.drop_first());
        assert forall|p: ZInt| world.queues.contains_key(p) implies #[trigger] world.after_all(
            types,
            events,
        ).queues[p] == world.queues[p] + events by {
            assert(next.queues.contains_key(p));
            assert(world.queues[p].push(events.first()) + events.drop_first() =~= world.queues[p]
                + events);
        }
    }
}

/// An event that can be applied to a well-formed world leaves it well
/// formed.
pub proof fn lemma_after_event_wf(world: World, types: ObjectTypes, event: CoreEventView)
    requires
        world.wf(types),
        applicable(world.units, world.board, types.unit_types(), event),
    ensures
        world.after_event(types, event).wf(types),
{
    let later = world.after_event(types, event);
    match event {
        CoreEventView::Move { unit_id, path } => {
            assert(later.units.dom() =~= world.units.dom().insert(unit_id.id));
        },
        _ => {},
    }
}

} // verus!
