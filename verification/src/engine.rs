//! The engine: takes the commands of the players, turns each into an event,
//! applies the event to the world and queues it for every player.
use vstd::prelude::*;
use std::collections::HashMap;
use crate::types::{MapPos, PlayerId, Size2, UnitId, ZInt};
use crate::map::{distance, lemma_distance_on_board, on_board};
use crate::object_types::{ObjectTypes, UnitTypeId, WeaponType, WeaponTypeId};
use crate::combat::{resolve_attack, resolves, thresholds};
use crate::dice::Dice;
use crate::event::{Command, CommandView, CoreEvent, CoreEventView};
use crate::game_state::{applicable, GameState, Unit};
use crate::rules::{
    attack_thresholds, in_range, is_new_unit_id, lemma_after_event_wf,
    lemma_new_unit_id_is_fresh, lemma_new_unit_id_unique, lemma_new_unit_ids_increase,
    lemma_refusal, lemma_event_applicable, new_unit_id, recruit_name, CommandError, World,
};

verus! {

broadcast use vstd::std_specs::hash::group_hash_axioms;

/// Width of the board of the reference scenario.
pub const MAP_WIDTH: ZInt = 10;

/// Height of the board of the reference scenario.
pub const MAP_HEIGHT: ZInt = 12;

/// A player of the game.
#[derive(Clone, Copy, Debug, PartialEq, Eq, Structural)]
pub struct Player {
    pub id: PlayerId,
}

/// The events of a list as mathematical values.
pub open spec fn events_view(events: Seq<CoreEvent>) -> Seq<CoreEventView> {
    events.map_values(|e: CoreEvent| e@)
}

/// An event or none as a mathematical value.
pub open spec fn event_view(event: Option<CoreEvent>) -> Option<CoreEventView> {
    match event {
        Some(event) => Some(event@),
        None => None,
    }
}

/// Outcome of the attack that an event reports; `false` for any other event
/// and for no event.
pub open spec fn killed_of(event: Option<CoreEventView>) -> bool {
    match event {
        Some(CoreEventView::AttackUnit { attacker_id, defender_id, killed }) => killed,
        _ => false,
    }
}

/// The engine of a game: the world, the roster, the turn, the queues of
/// events and the source of rolls.
#[derive(Debug)]
pub struct Core {
    game_state: GameState,
    players: Vec<Player>,
    current_player_id: PlayerId,
    core_event_list: Vec<CoreEvent>,
    event_lists: HashMap<ZInt, Vec<CoreEvent>>,
    object_types: ObjectTypes,
    dice: Dice,
}

fn get_event_lists() -> (lists: HashMap<ZInt, Vec<CoreEvent>>)
    ensures
        forall|p: ZInt| lists@.contains_key(p) <==> 0 <= p < 2,
        lists@[0]@.len() == 0,
        lists@[1]@.len() == 0,
{
    let mut map: HashMap<ZInt, Vec<CoreEvent>> = HashMap::new();
    map.insert(0, Vec::new());
    map.insert(1, Vec::new());
    map
}

fn get_players_list() -> (players: Vec<Player>)
    ensures
        players@.len() == 2,
        players@[0].id.id == 0,
        players@[1].id.id == 1,
{
    let mut players: Vec<Player> = Vec::new();
    players.push(Player { id: PlayerId { id: 0 } });
    players.push(Player { id: PlayerId { id: 1 } });
    players
}

/// Puts `event` at the end of the list that `lists` holds for `player`.
fn push_event(lists: &mut HashMap<ZInt, Vec<CoreEvent>>, player: ZInt, event: CoreEvent)
    requires
        old(lists)@.contains_key(player),
    ensures
        forall|p: ZInt| final(lists)@.contains_key(p) <==> old(lists)@.contains_key(p),
        final(lists)@[player]@ == old(lists)@[player]@.push(event),
        forall|p: ZInt|
            p != player && old(lists)@.contains_key(p) ==> final(lists)@[p] == old(lists)@[p],
{
    let taken: Option<Vec<CoreEvent>> = lists.remove(&player);
    if let Some(list) = taken {
        let mut list: Vec<CoreEvent> = list;
        list.push(event);
        lists.insert(player, list);
    }
}

impl View for Core {
    type V = World;

    /// The state of the game.
    closed spec fn view(&self) -> World {
        World {
            units: self.game_state.units(),
            board: self.game_state.board(),
            terrain: self.game_state.terrain(),
            players: self.players@.len() as int,
            current: self.current_player_id,
            queues: Map::new(
                |p: ZInt| self.event_lists@.contains_key(p),
                |p: ZInt| events_view(self.event_lists@[p]@),
            ),
        }
    }
}

impl Core {
    /// The catalogue of types.
    pub closed spec fn types(self) -> ObjectTypes {
        self.object_types
    }

    /// The source of rolls.
    pub closed spec fn dice(self) -> Dice {
        self.dice
    }

    /// All that holds of an engine between two steps of its work, but that
    /// no event waits to be worked on.
    pub closed spec fn inv(self) -> bool {
        &&& self.game_state.wf()
        &&& self@.wf(self.object_types)
        &&& forall|i: int| 0 <= i < self.players@.len() ==> (#[trigger] self.players@[i]).id.id == i
    }

    /// The engine is at rest: its state is well formed and no event waits to
    /// be worked on.
    pub closed spec fn wf(self) -> bool {
        &&& self.inv()
        &&& self.core_event_list@.len() == 0
    }

    /// The state of an engine at rest is well formed.
    pub proof fn lemma_wf(self)
        requires
            self.wf(),
        ensures
            self@.wf(self.types()),
    {
    }

    /// An engine for two players on a board of size `map_size`, without
    /// units and without events, that takes its rolls from `dice`. The
    /// catalogue is that of the reference scenario.
    pub fn new_empty(map_size: Size2, dice: Dice) -> (core: Core)
        requires
            map_size.is_valid(),
        ensures
            core.wf(),
            core@ == World::empty(map_size, 2),
            core.dice() == dice,
            core.types().unit_types() == crate::object_types::reference_unit_types(),
            core.types().weapon_types() == crate::object_types::reference_weapon_types(),
    {
        let made = Core::from_parts(GameState::new(map_size), ObjectTypes::new(), dice);
        made.unwrap()
    }

    /// An engine for two players on the world `game_state`, with the
    /// catalogue `object_types` and the source of rolls `dice`; no events
    /// wait, and it is the turn of player 0. There is no such engine where
    /// the type of a unit is not in the catalogue.
    pub fn from_parts(game_state: GameState, object_types: ObjectTypes, dice: Dice) -> (core:
        Option<Core>)
        requires
            game_state.wf(),
            object_types.valid(),
        ensures
            match core {
                Some(core) => {
                    &&& core.wf()
                    &&& core@ == World::start(
                        game_state.units(),
                        game_state.board(),
                        game_state.terrain(),
                        2,
                    )
                    &&& core.types() == object_types
                    &&& core.dice() == dice
                },
                None => exists|id: ZInt| #[trigger]
                    game_state.units().contains_key(id) && !object_types.has_unit_type(
                        game_state.units()[id].type_id,
                    ),
            },
    {
        if !game_state.knows_unit_types(&object_types) {
            return None;
        }
        let core = Core {
            game_state: game_state,
            players: get_players_list(),
            current_player_id: PlayerId { id: 0 },
            core_event_list: Vec::new(),
            event_lists: get_event_lists(),
            object_types: object_types,
            dice: dice,
        };
        proof {
            let start = World::start(
                game_state.units(),
                game_state.board(),
                game_state.terrain(),
                2,
            );
            assert(core@.queues =~= start.queues) by {
                assert forall|p: ZInt| core@.queues.contains_key(p) implies core@.queues[p]
                    == Seq::<CoreEventView>::empty() by {
                    assert(events_view(core.event_lists@[p]@) =~= Seq::<CoreEventView>::empty());
                }
            }
        }
        Some(core)
    }

    /// The catalogue of types.
    pub fn object_types(&self) -> (object_types: &ObjectTypes)
        ensures
            *object_types == self.types(),
    {
        &self.object_types
    }

    /// The world: the board and its units.
    pub fn game_state(&self) -> (game_state: &GameState)
        ensures
            game_state.units() == self@.units,
            game_state.board() == self@.board,
            game_state.terrain() == self@.terrain,
            self.wf() ==> game_state.wf(),
    {
        &self.game_state
    }

    /// The source of rolls.
    pub fn dice_source(&self) -> (dice: &Dice)
        ensures
            *dice == self.dice(),
    {
        &self.dice
    }

    /// Number of players.
    pub fn player_count(&self) -> (count: usize)
        ensures
            count == self@.players,
    {
        self.players.len()
    }

    /// The number that a new unit gets: 0 in a world without units, else one
    /// more than the largest number of a live unit. The largest number of
    /// all must be free.
    pub fn get_new_unit_id(&self) -> (id: UnitId)
        requires
            self.wf(),
            !self@.units.contains_key(i32::MAX),
        ensures
            is_new_unit_id(self@.units, id.id as int),
            id.id == new_unit_id(self@.units),
            (forall|k: ZInt| !self@.units.contains_key(k)) ==> id.id == 0,
            (exists|k: ZInt| self@.units.contains_key(k)) ==> self@.units.contains_key(
                (id.id - 1) as ZInt,
            ),
            forall|k: ZInt| self@.units.contains_key(k) ==> k < id.id,
            !self@.units.contains_key(id.id),
    {
        let id: ZInt = match self.game_state.max_unit_id() {
            Some(n) => n + 1,
            None => 0,
        };
        proof {
            lemma_new_unit_id_unique(self@.units, id as int, new_unit_id(self@.units));
        }
        UnitId { id: id }
    }

    /// The live unit with the id `id`.
    pub fn get_unit<'a>(&'a self, id: &UnitId) -> (unit: &'a Unit)
        requires
            self@.units.contains_key(id.id),
        ensures
            *unit == self@.units[id.id],
    {
        self.game_state.unit(id).unwrap()
    }

    /// The weapon type at the place `weapon_type_id` of the catalogue.
    pub fn get_weapon_type(&self, weapon_type_id: &WeaponTypeId) -> (weapon_type: &WeaponType)
        requires
            self.types().has_weapon_type(*weapon_type_id),
        ensures
            weapon_type@ == self.types().weapon_types()[weapon_type_id.id as int],
    {
        self.object_types.get_weapon_type(weapon_type_id)
    }

    /// The player whose turn it is.
    pub fn player_id(&self) -> (id: &PlayerId)
        ensures
            *id == self@.current,
    {
        &self.current_player_id
    }

    /// An engine for the reference scenario that takes its rolls from the
    /// random source.
    pub fn new() -> (core: Core)
        ensures
            core.wf(),
            core.dice().is_random(),
            core@ == World::reference(Size2 { w: MAP_WIDTH, h: MAP_HEIGHT }, core.types()),
            core.types().unit_types() == crate::object_types::reference_unit_types(),
            core.types().weapon_types() == crate::object_types::reference_weapon_types(),
    {
        Core::with_dice(Dice::random())
    }

    /// An engine for the reference scenario that takes its rolls from
    /// `dice`.
    pub fn with_dice(dice: Dice) -> (core: Core)
        ensures
            core.wf(),
            core.dice() == dice,
            core@ == World::reference(Size2 { w: MAP_WIDTH, h: MAP_HEIGHT }, core.types()),
            core.types().unit_types() == crate::object_types::reference_unit_types(),
            core.types().weapon_types() == crate::object_types::reference_weapon_types(),
    {
        let mut core = Core::new_empty(Size2 { w: MAP_WIDTH, h: MAP_HEIGHT }, dice);
        core.get_units();
        core
    }

    /// Puts the units of the reference scenario on the board.
    fn get_units(&mut self)
        requires
            old(self).wf(),
            old(self)@ == World::empty(old(self)@.board, 2),
            old(self)@.board.w >= 3,
            old(self)@.board.h >= 3,
            old(self).types().unit_types() == crate::object_types::reference_unit_types(),
        ensures
            final(self).wf(),
            final(self)@ == World::reference(old(self)@.board, old(self).types()),
            final(self).types() == old(self).types(),
            final(self).dice() == old(self).dice(),
    {
        proof {
            crate::object_types::lemma_reference_names();
            let names = self.object_types.unit_type_names();
            assert(names[0] == "tank"@);
            assert(names[1] == "soldier"@);
        }
        let tank_id = self.object_types.get_unit_type_id("tank");
        let soldier_id = self.object_types.get_unit_type_id("soldier");
        let p_id_0 = PlayerId { id: 0 };
        let p_id_1 = PlayerId { id: 1 };
        let ghost w0 = self@;
        proof {
            lemma_new_unit_id_is_fresh(w0.units, 0);
        }
        self.add_unit(&MapPos { x: 0, y: 0 }, &tank_id, &p_id_0);
        let ghost w1 = self@;
        proof {
            lemma_new_unit_ids_increase(w0.units, 0, w1.units[0]);
        }
        self.add_unit(&MapPos { x: 0, y: 1 }, &soldier_id, &p_id_0);
        let ghost w2 = self@;
        proof {
            lemma_new_unit_ids_increase(w1.units, 1, w2.units[1]);
        }
        self.add_unit(&MapPos { x: 2, y: 0 }, &tank_id, &p_id_1);
        let ghost w3 = self@;
        proof {
            lemma_new_unit_ids_increase(w2.units, 2, w3.units[2]);
        }
        self.add_unit(&MapPos { x: 2, y: 2 }, &soldier_id, &p_id_1);
    }

    /// Creates a unit of type `type_id` on the cell `pos` for the player
    /// `player_id`, and tells every player.
    fn add_unit(&mut self, pos: &MapPos, type_id: &UnitTypeId, player_id: &PlayerId)
        requires
            old(self).wf(),
            on_board(old(self)@.board, pos@),
            old(self).types().has_unit_type(*type_id),
            !old(self)@.units.contains_key(i32::MAX),
        ensures
            final(self).wf(),
            final(self)@ == old(self)@.with_new_unit(old(self).types(), *pos, *type_id, *player_id),
            final(self).types() == old(self).types(),
            final(self).dice() == old(self).dice(),
    {
        let unit_id = self.get_new_unit_id();
        proof {
            lemma_new_unit_id_is_fresh(self@.units, unit_id.id as int);
        }
        let event = CoreEvent::CreateUnit {
            unit_id: unit_id,
            pos: *pos,
            type_id: *type_id,
            player_id: *player_id,
        };
        self.do_core_event(event);
    }

    /// Decides an attack of the unit `attacker_id` on the unit
    /// `defender_id`: no kill out of range, else what the three tests give.
    fn hit_test(&mut self, attacker_id: &UnitId, defender_id: &UnitId) -> (killed: bool)
        requires
            old(self).wf(),
            old(self)@.units.contains_key(attacker_id.id),
            old(self)@.units.contains_key(defender_id.id),
        ensures
            final(self).wf(),
            final(self)@ == old(self)@,
            final(self).types() == old(self).types(),
            if in_range(old(self)@.units, old(self).types(), *attacker_id, *defender_id) {
                resolves(
                    attack_thresholds(
                        old(self)@.units,
                        old(self).types(),
                        *attacker_id,
                        *defender_id,
                    ),
                    old(self).dice(),
                    killed,
                    final(self).dice(),
                )
            } else {
                !killed && final(self).dice() == old(self).dice()
            },
    {
        let attacker: Unit = *self.get_unit(attacker_id);
        let defender: Unit = *self.get_unit(defender_id);
        proof {
            lemma_distance_on_board(self@.board, attacker.pos@, defender.pos@);
        }
        let attacker_type = self.object_types.get_unit_type(&attacker.type_id);
        let defender_type = self.object_types.get_unit_type(&defender.type_id);
        let weapon_type = self.object_types.get_weapon_type(&attacker_type.weapon_type_id);
        if distance(attacker.pos, defender.pos).n > weapon_type.max_distance {
            return false;
        }
        let needed = thresholds(attacker_type, defender_type, weapon_type);
        resolve_attack(&needed, &mut self.dice)
    }

    /// The oldest event that waits for the player whose turn it is, taken
    /// off their queue; `None` where nothing waits, and the engine is then
    /// left as it was.
    pub fn get_event(&mut self) -> (event: Option<CoreEvent>)
        requires
            old(self).wf(),
        ensures
            final(self).wf(),
            final(self).types() == old(self).types(),
            final(self).dice() == old(self).dice(),
            old(self)@.queues.contains_key(old(self)@.current.id),
            match event {
                Some(event) => {
                    &&& old(self)@.queues[old(self)@.current.id].len() > 0
                    &&& event@ == old(self)@.queues[old(self)@.current.id].first()
                    &&& final(self)@ == old(self)@.after_fetch()
                },
                None => {
                    &&& old(self)@.queues[old(self)@.current.id].len() == 0
                    &&& final(self)@ == old(self)@
                },
            },
    {
        let player: ZInt = self.current_player_id.id;
        let ghost before = *self;
        proof {
            assert(self@.queues.contains_key(player));
        }
        let taken: Option<Vec<CoreEvent>> = self.event_lists.remove(&player);
        let mut list: Vec<CoreEvent> = taken.unwrap();
        let event: Option<CoreEvent> = if list.len() == 0 {
            None
        } else {
            Some(list.remove(0))
        };
        let ghost left = list@;
        self.event_lists.insert(player, list);
        proof {
            let first = before.event_lists@[player]@;
            if event.is_some() {
                assert(events_view(left) =~= events_view(first).drop_first());
                assert(self@.queues =~= before@.after_fetch().queues);
            } else {
                assert(self@.queues =~= before@.queues);
            }
        }
        event
    }

    /// The event that an attack of the unit `attacker_id` on the unit
    /// `defender_id` leads to: none out of range, and no roll is made for
    /// none.
    pub fn command_attack_unit_to_event(
        &mut self,
        attacker_id: UnitId,
        defender_id: UnitId,
    ) -> (event: Option<CoreEvent>)
        requires
            old(self).wf(),
            old(self)@.units.contains_key(attacker_id.id),
            old(self)@.units.contains_key(defender_id.id),
        ensures
            final(self).wf(),
            final(self)@ == old(self)@,
            final(self).types() == old(self).types(),
            event_view(event) == old(self)@.event_for(
                old(self).types(),
                CommandView::AttackUnit { attacker_id: attacker_id, defender_id: defender_id },
                killed_of(event_view(event)),
            ),
            old(self)@.rolls(
                old(self).types(),
                CommandView::AttackUnit { attacker_id: attacker_id, defender_id: defender_id },
                old(self).dice(),
                killed_of(event_view(event)),
                final(self).dice(),
            ),
    {
        let attacker: Unit = *self.get_unit(&attacker_id);
        let defender: Unit = *self.get_unit(&defender_id);
        proof {
            lemma_distance_on_board(self@.board, attacker.pos@, defender.pos@);
        }
        let attacker_type = self.object_types.get_unit_type(&attacker.type_id);
        let weapon_type = self.object_types.get_weapon_type(&attacker_type.weapon_type_id);
        if distance(attacker.pos, defender.pos).n <= weapon_type.max_distance {
            let hit: bool = self.hit_test(&attacker_id, &defender_id);
            Some(
                CoreEvent::AttackUnit {
                    attacker_id: attacker_id,
                    defender_id: defender_id,
                    killed: hit,
                },
            )
        } else {
            None
        }
    }

    /// The event that `command` leads to, if any. The world is left as it
    /// is; only an attack within range takes rolls.
    ///
    /// Nothing is asked of a move, and nothing of the cell of a new unit:
    /// whether the event can be applied is not looked at here. A new unit
    /// needs the recruits' type and a free number, an attack its two units.
    pub fn command_to_event(&mut self, command: Command) -> (event: Option<CoreEvent>)
        requires
            old(self).wf(),
            match command@ {
                CommandView::CreateUnit { pos } => {
                    &&& old(self).types().unit_type_names().contains(recruit_name())
                    &&& !old(self)@.units.contains_key(i32::MAX)
                },
                CommandView::AttackUnit { attacker_id, defender_id } => {
                    &&& old(self)@.units.contains_key(attacker_id.id)
                    &&& old(self)@.units.contains_key(defender_id.id)
                },
                _ => true,
            },
        ensures
            final(self).wf(),
            final(self)@ == old(self)@,
            final(self).types() == old(self).types(),
            event_view(event) == old(self)@.event_for(
                old(self).types(),
                command@,
                killed_of(event_view(event)),
            ),
            old(self)@.rolls(
                old(self).types(),
                command@,
                old(self).dice(),
                killed_of(event_view(event)),
                final(self).dice(),
            ),
    {
        match command {
            Command::EndTurn => {
                let old_id: ZInt = self.current_player_id.id;
                let max_id: usize = self.players.len();
                let new_id: ZInt = if old_id as usize + 1 == max_id {
                    0
                } else {
                    old_id + 1
                };
                Some(
                    CoreEvent::EndTurn {
                        old_id: PlayerId { id: old_id },
                        new_id: PlayerId { id: new_id },
                    },
                )
            },
            Command::CreateUnit { pos } => {
                let unit_id = self.get_new_unit_id();
                let type_id = self.object_types.get_unit_type_id("soldier");
                Some(
                    CoreEvent::CreateUnit {
                        unit_id: unit_id,
                        pos: pos,
                        type_id: type_id,
                        player_id: self.current_player_id,
                    },
                )
            },
            Command::Move { unit_id, path } => {
                Some(CoreEvent::Move { unit_id: unit_id, path: path })
            },
            Command::AttackUnit { attacker_id, defender_id } => {
                self.command_attack_unit_to_event(attacker_id, defender_id)
            },
        }
    }

    /// Why the engine does not take `command`, if it does not.
    pub fn check_command(&self, command: &Command) -> (checked: Result<(), CommandError>)
        requires
            self.wf(),
        ensures
            checked.is_ok() <==> self@.accepts(self.types(), command@),
            match checked {
                Ok(_) => self@.refusal(self.types(), command@).is_none(),
                Err(error) => self@.refusal(self.types(), command@) == Some(error),
            },
    {
        proof {
            lemma_refusal(self@, self.types(), command@);
        }
        match command {
            Command::Move { unit_id, path } => {
                if self.game_state.unit(unit_id).is_none() {
                    Err(CommandError::NoSuchUnit { unit_id: *unit_id })
                } else if path.len() == 0 {
                    Err(CommandError::EmptyPath)
                } else if !self.game_state.is_inboard(path[path.len() - 1]) {
                    Err(CommandError::OffBoard { pos: path[path.len() - 1] })
                } else {
                    Ok(())
                }
            },
            Command::EndTurn => Ok(()),
            Command::CreateUnit { pos } => {
                if !self.game_state.is_inboard(*pos) {
                    Err(CommandError::OffBoard { pos: *pos })
                } else if self.object_types.get_unit_type_id_opt("soldier").is_none() {
                    Err(CommandError::NoRecruitType)
                } else if self.game_state.unit(&UnitId { id: i32::MAX }).is_some() {
                    Err(CommandError::NoFreeUnitId)
                } else {
                    Ok(())
                }
            },
            Command::AttackUnit { attacker_id, defender_id } => {
                if self.game_state.unit(attacker_id).is_none() {
                    Err(CommandError::NoSuchUnit { unit_id: *attacker_id })
                } else if self.game_state.unit(defender_id).is_none() {
                    Err(CommandError::NoSuchUnit { unit_id: *defender_id })
                } else {
                    Ok(())
                }
            },
        }
    }

    /// Carries out `command`: works out the event that it leads to, applies
    /// the event to the world and queues it for every player. A command that
    /// leads to no event changes nothing.
    pub fn do_command(&mut self, command: Command)
        requires
            old(self).wf(),
            old(self)@.accepts(old(self).types(), command@),
        ensures
            final(self).wf(),
            final(self).types() == old(self).types(),
            exists|killed: bool| #[trigger]
                old(self)@.steps_to(
                    old(self).types(),
                    command@,
                    old(self).dice(),
                    killed,
                    final(self)@,
                    final(self).dice(),
                ),
    {
        let ghost before = *self;
        let ghost asked = command@;
        let made = self.command_to_event(command);
        let ghost killed = killed_of(event_view(made));
        proof {
            lemma_event_applicable(before@, before.types(), asked, killed);
        }
        if let Some(event) = made {
            self.do_core_event(event);
        }
        proof {
            assert(before@.steps_to(
                before.types(),
                asked,
                before.dice(),
                killed,
                self@,
                self.dice(),
            ));
        }
    }

    /// Carries out `command` if the engine takes it; else says why not and
    /// changes nothing.
    pub fn try_command(&mut self, command: Command) -> (done: Result<(), CommandError>)
        requires
            old(self).wf(),
        ensures
            final(self).wf(),
            final(self).types() == old(self).types(),
            match done {
                Ok(_) => {
                    &&& old(self)@.accepts(old(self).types(), command@)
                    &&& exists|killed: bool| #[trigger]
                        old(self)@.steps_to(
                            old(self).types(),
                            command@,
                            old(self).dice(),
                            killed,
                            final(self)@,
                            final(self).dice(),
                        )
                },
                Err(error) => old(self)@.refusal(old(self).types(), command@) == Some(error)
                    && *final(self) == *old(self),
            },
    {
        match self.check_command(&command) {
            Ok(_) => {
                self.do_command(command);
                Ok(())
            },
            Err(error) => Err(error),
        }
    }

    /// Takes in the events of `core_events` and works them off, the first of
    /// the list first: each changes the world that the ones before it have
    /// left, and every player is told of them in the order of the list.
    pub fn do_core_events(&mut self, core_events: Vec<CoreEvent>)
        requires
            old(self).wf(),
            old(self)@.takes_all(old(self).types(), events_view(core_events@)),
        ensures
            final(self).wf(),
            final(self)@ == old(self)@.after_all(old(self).types(), events_view(core_events@)),
            final(self).types() == old(self).types(),
            final(self).dice() == old(self).dice(),
    {
        let ghost before = self@;
        self.core_event_list = core_events;
        proof {
            assert(self@ == before);
        }
        self.make_events();
    }

    /// Takes in `core_event` and works it off: the world changes by it, and
    /// every player is told.
    pub fn do_core_event(&mut self, core_event: CoreEvent)
        requires
            old(self).wf(),
            applicable(
                old(self)@.units,
                old(self)@.board,
                old(self).types().unit_types(),
                core_event@,
            ),
        ensures
            final(self).wf(),
            final(self)@ == old(self)@.after_event(old(self).types(), core_event@),
            final(self).types() == old(self).types(),
            final(self).dice() == old(self).dice(),
    {
        let ghost before = self@;
        let ghost event = core_event@;
        self.core_event_list.push(core_event);
        proof {
            let waiting = events_view(self.core_event_list@);
            assert(waiting =~= seq![event]);
            assert(waiting.drop_first() =~= Seq::<CoreEventView>::empty());
            assert(self@ == before);
            assert(before.after_event(self.types(), event).takes_all(
                self.types(),
                waiting.drop_first(),
            ));
            assert(before.after_event(self.types(), event).after_all(
                self.types(),
                waiting.drop_first(),
            ) == before.after_event(self.types(), event));
        }
        self.make_events();
    }

    /// Passes the turn on where `event` is the end of a turn.
    fn apply_event(&mut self, event: &CoreEvent)
        requires
            old(self).inv(),
        ensures
            final(self).inv(),
            final(self).current_player_id == old(self)@.current_after(event@),
            final(self).game_state == old(self).game_state,
            final(self).players == old(self).players,
            final(self).core_event_list == old(self).core_event_list,
            final(self).event_lists == old(self).event_lists,
            final(self).object_types == old(self).object_types,
            final(self).dice == old(self).dice,
    {
        match event {
            CoreEvent::EndTurn { old_id, new_id } => {
                let mut i: usize = 0;
                while i < self.players.len()
                    invariant
                        *self == *old(self),
                        *event == (CoreEvent::EndTurn { old_id: *old_id, new_id: *new_id }),
                        self.inv(),
                        0 <= i <= self.players@.len(),
                        forall|j: int| 0 <= j < i ==> self.players@[j].id != *new_id,
                    decreases self.players@.len() - i,
                {
                    let player: Player = self.players[i];
                    if player.id == *new_id {
                        if self.current_player_id == *old_id {
                            self.current_player_id = player.id;
                        }
                        proof {
                            assert forall|p: ZInt| self@.queues.contains_key(p) <==> 0 <= p
                                < self@.players by {
                                assert(old(self)@.queues.contains_key(p) <==> 0 <= p < old(
                                    self,
                                )@.players);
                            }
                        }
                        return ;
                    }
                    i = i + 1;
                }
                proof {
                    if 0 <= new_id.id < self.players@.len() {
                        assert(self.players@[new_id.id as int].id != *new_id);
                    }
                }
            },
            _ => {},
        }
    }

    /// Works off the events that wait, the oldest first: each is applied to
    /// the turn and to the world that the ones before it have left, and
    /// queued for every player.
    fn make_events(&mut self)
        requires
            old(self).inv(),
            old(self)@.takes_all(old(self).types(), events_view(old(self).core_event_list@)),
        ensures
            final(self).wf(),
            final(self)@ == old(self)@.after_all(
                old(self).types(),
                events_view(old(self).core_event_list@),
            ),
            final(self).types() == old(self).types(),
            final(self).dice() == old(self).dice(),
    {
        let ghost start = *self;
        let ghost target = start@.after_all(start.types(), events_view(start.core_event_list@));
        while self.core_event_list.len() != 0
            invariant
                self.inv(),
                self.object_types == start.object_types,
                self.dice == start.dice,
                self@.takes_all(self.types(), events_view(self.core_event_list@)),
                self@.after_all(self.types(), events_view(self.core_event_list@)) == target,
            decreases self.core_event_list@.len(),
        {
            let ghost prev = *self;
            let ghost waiting = events_view(self.core_event_list@);
            let event: CoreEvent = self.core_event_list.remove(0);
            let ghost first = event@;
            proof {
                assert(first == waiting.first());
                assert(events_view(self.core_event_list@) =~= waiting.drop_first());
            }
            self.apply_event(&event);
            self.game_state.apply_event(&self.object_types, &event);
            let ghost applied = *self;
            proof {
                lemma_after_event_wf(prev@, prev.types(), first);
                assert forall|p: ZInt| applied.event_lists@.contains_key(p) <==> 0 <= p
                    < self.players@.len() by {
                    assert(prev@.queues.contains_key(p) <==> 0 <= p < prev@.players);
                }
            }
            let mut i: usize = 0;
            while i < self.players.len()
                invariant
                    0 <= i <= self.players@.len(),
                    event@ == first,
                    prev.inv(),
                    applied.players@.len() == prev.players@.len(),
                    self.game_state == applied.game_state,
                    self.players == applied.players,
                    self.current_player_id == applied.current_player_id,
                    self.core_event_list == applied.core_event_list,
                    self.object_types == applied.object_types,
                    self.dice == applied.dice,
                    forall|j: int|
                        0 <= j < self.players@.len() ==> (#[trigger] self.players@[j]).id.id == j,
                    forall|p: ZInt|
                        self.event_lists@.contains_key(p) <==> 0 <= p < self.players@.len(),
                    forall|p: ZInt|
                        applied.event_lists@.contains_key(p) <==> 0 <= p < self.players@.len(),
                    forall|p: ZInt|
                        0 <= p < i ==> events_view(#[trigger] self.event_lists@[p]@) == events_view(
                            applied.event_lists@[p]@,
                        ).push(first),
                    forall|p: ZInt|
                        i <= p < self.players@.len() ==> #[trigger] self.event_lists@[p]
                            == applied.event_lists@[p],
                decreases self.players@.len() - i,
            {
                let player: ZInt = self.players[i].id.id;
                let ghost lists = self.event_lists@;
                push_event(&mut self.event_lists, player, event.clone());
                proof {
                    assert(events_view(self.event_lists@[player]@) =~= events_view(
                        lists[player]@,
                    ).push(first));
                }
                i = i + 1;
            }
            proof {
                let next = prev@.after_event(prev.types(), first);
                assert(self@.queues =~= next.queues);
                assert(self@ == next);
            }
        }
    }
}

} // verus!
