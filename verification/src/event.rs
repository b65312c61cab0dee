//! What players ask for and what comes of it.
use vstd::prelude::*;
use crate::types::{MapPath, MapPos, PlayerId, UnitId};
use crate::object_types::UnitTypeId;

verus! {

/// What a player asks the engine to do.
#[derive(Debug, PartialEq, Eq)]
pub enum Command {
    Move { unit_id: UnitId, path: MapPath },
    EndTurn,
    CreateUnit { pos: MapPos },
    AttackUnit { attacker_id: UnitId, defender_id: UnitId },
}

/// A command as a mathematical value.
pub enum CommandView {
    Move { unit_id: UnitId, path: Seq<MapPos> },
    EndTurn,
    CreateUnit { pos: MapPos },
    AttackUnit { attacker_id: UnitId, defender_id: UnitId },
}

impl View for Command {
    type V = CommandView;

    open spec fn view(&self) -> CommandView {
        match *self {
            Command::Move { unit_id, path } => CommandView::Move { unit_id: unit_id, path: path@ },
            Command::EndTurn => CommandView::EndTurn,
            Command::CreateUnit { pos } => CommandView::CreateUnit { pos: pos },
            Command::AttackUnit { attacker_id, defender_id } => CommandView::AttackUnit {
                attacker_id: attacker_id,
                defender_id: defender_id,
            },
        }
    }
}

/// A change of the world that the engine has decided on.
#[derive(Debug, PartialEq, Eq)]
pub enum CoreEvent {
    Move { unit_id: UnitId, path: MapPath },
    EndTurn { old_id: PlayerId, new_id: PlayerId },
    CreateUnit { unit_id: UnitId, pos: MapPos, type_id: UnitTypeId, player_id: PlayerId },
    AttackUnit { attacker_id: UnitId, defender_id: UnitId, killed: bool },
}

/// An event as a mathematical value.
pub enum CoreEventView {
    Move { unit_id: UnitId, path: Seq<MapPos> },
    EndTurn { old_id: PlayerId, new_id: PlayerId },
    CreateUnit { unit_id: UnitId, pos: MapPos, type_id: UnitTypeId, player_id: PlayerId },
    AttackUnit { attacker_id: UnitId, defender_id: UnitId, killed: bool },
}

impl View for CoreEvent {
    type V = CoreEventView;

    open spec fn view(&self) -> CoreEventView {
        match *self {
            CoreEvent::Move { unit_id, path } => CoreEventView::Move {
                unit_id: unit_id,
                path: path@,
            },
            CoreEvent::EndTurn { old_id, new_id } => CoreEventView::EndTurn {
                old_id: old_id,
                new_id: new_id,
            },
            CoreEvent::CreateUnit { unit_id, pos, type_id, player_id } => {
                CoreEventView::CreateUnit {
                    unit_id: unit_id,
                    pos: pos,
                    type_id: type_id,
                    player_id: player_id,
                }
            },
            CoreEvent::AttackUnit { attacker_id, defender_id, killed } => {
                CoreEventView::AttackUnit {
                    attacker_id: attacker_id,
                    defender_id: defender_id,
                    killed: killed,
                }
            },
        }
    }
}

/// A copy of `path` with the same cells in the same order.
pub fn clone_path(path: &MapPath) -> (copy: MapPath)
    ensures
        copy@ == path@,
{
    let mut copy: MapPath = Vec::with_capacity(path.len());
    let mut i: usize = 0;
    while i < path.len()
        invariant
            0 <= i <= path@.len(),
            copy@ == path@.subrange(0, i as int),
        decreases path@.len() - i,
    {
        copy.push(path[i]);
        i = i + 1;
    }
    copy
}

impl Clone for Command {
    fn clone(&self) -> (copy: Command)
        ensures
            copy@ == self@,
    {
        match self {
            Command::Move { unit_id, path } => Command::Move {
                unit_id: *unit_id,
                path: clone_path(path),
            },
            Command::EndTurn => Command::EndTurn,
            Command::CreateUnit { pos } => Command::CreateUnit { pos: *pos },
            Command::AttackUnit { attacker_id, defender_id } => Command::AttackUnit {
                attacker_id: *attacker_id,
                defender_id: *defender_id,
            },
        }
    }
}

impl Clone for CoreEvent {
    fn clone(&self) -> (copy: CoreEvent)
        ensures
            copy@ == self@,
    {
        match self {
            CoreEvent::Move { unit_id, path } => CoreEvent::Move {
                unit_id: *unit_id,
                path: clone_path(path),
            },
            CoreEvent::EndTurn { old_id, new_id } => CoreEvent::EndTurn {
                old_id: *old_id,
                new_id: *new_id,
            },
            CoreEvent::CreateUnit { unit_id, pos, type_id, player_id } => CoreEvent::CreateUnit {
                unit_id: *unit_id,
                pos: *pos,
                type_id: *type_id,
                player_id: *player_id,
            },
            CoreEvent::AttackUnit { attacker_id, defender_id, killed } => CoreEvent::AttackUnit {
                attacker_id: *attacker_id,
                defender_id: *defender_id,
                killed: *killed,
            },
        }
    }
}

} // verus!
