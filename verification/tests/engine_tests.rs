use hex_tactics::combat::{resolve_attack, roll_test, thresholds, Thresholds};
use hex_tactics::dice::{Dice, ROLL_HIGH, ROLL_LOW};
use hex_tactics::engine::{Core, MAP_HEIGHT, MAP_WIDTH};
use hex_tactics::event::{Command, CoreEvent};
use hex_tactics::game_state::{GameState, Unit};
use hex_tactics::map::Terrain;
use hex_tactics::object_types::{
    ObjectTypes, UnitClass, UnitType, UnitTypeId, WeaponType, WeaponTypeId,
};
use hex_tactics::rules::CommandError;
use hex_tactics::types::{MapPos, PlayerId, Size2, UnitId};

fn board() -> Size2 {
    Size2 { w: 10, h: 12 }
}

fn drain(core: &mut Core) -> Vec<CoreEvent> {
    let mut events = Vec::new();
    while let Some(event) = core.get_event() {
        events.push(event);
    }
    events
}

#[test]
fn catalogue_of_the_reference_scenario() {
    let types = ObjectTypes::new();
    let tank = types.get_unit_type(&UnitTypeId { id: 0 });
    assert_eq!(tank.name, "tank");
    assert_eq!(tank.class, UnitClass::Vehicle);
    assert_eq!(
        (tank.size, tank.count, tank.armor, tank.toughness, tank.weapon_skill, tank.move_points),
        (6, 1, 11, 9, 5, 5)
    );
    assert_eq!(tank.weapon_type_id, WeaponTypeId { id: 0 });
    let soldier = types.get_unit_type(&UnitTypeId { id: 1 });
    assert_eq!(soldier.name, "soldier");
    assert_eq!(soldier.class, UnitClass::Infantry);
    assert_eq!(
        (
            soldier.size,
            soldier.count,
            soldier.armor,
            soldier.toughness,
            soldier.weapon_skill,
            soldier.move_points
        ),
        (4, 4, 1, 2, 5, 3)
    );
    assert_eq!(soldier.weapon_type_id, WeaponTypeId { id: 1 });
    let cannon = types.get_weapon_type(&WeaponTypeId { id: 0 });
    assert_eq!(cannon.name, "cannon");
    assert_eq!((cannon.damage, cannon.ap, cannon.accuracy, cannon.max_distance), (9, 9, 5, 5));
    let rifle = types.get_weapon_type(&WeaponTypeId { id: 1 });
    assert_eq!(rifle.name, "rifle");
    assert_eq!((rifle.damage, rifle.ap, rifle.accuracy, rifle.max_distance), (2, 1, 5, 3));
}

#[test]
fn catalogue_lookup_by_name() {
    let types = ObjectTypes::new();
    assert_eq!(types.get_unit_type_id("tank"), UnitTypeId { id: 0 });
    assert_eq!(types.get_unit_type_id("soldier"), UnitTypeId { id: 1 });
    assert_eq!(types.get_weapon_type_id("cannon"), WeaponTypeId { id: 0 });
    assert_eq!(types.get_weapon_type_id("rifle"), WeaponTypeId { id: 1 });
    assert_eq!(types.get_unit_type_id_opt("soldier"), Some(UnitTypeId { id: 1 }));
    assert_eq!(types.get_unit_type_id_opt("sailor"), None);
    assert_eq!(types.get_unit_type_id_opt(""), None);
    assert_eq!(types.get_weapon_type_id_opt("rifle"), Some(WeaponTypeId { id: 1 }));
    assert_eq!(types.get_weapon_type_id_opt("sling"), None);
    assert!(types.is_unit_type(&UnitTypeId { id: 1 }));
    assert!(!types.is_unit_type(&UnitTypeId { id: 2 }));
    assert!(!types.is_unit_type(&UnitTypeId { id: -1 }));
    assert!(types.is_weapon_type(&WeaponTypeId { id: 0 }));
    assert!(!types.is_weapon_type(&WeaponTypeId { id: 2 }));
}

#[test]
fn thresholds_of_the_reference_types() {
    let types = ObjectTypes::new();
    let tank = types.get_unit_type(&UnitTypeId { id: 0 });
    let soldier = types.get_unit_type(&UnitTypeId { id: 1 });
    let cannon = types.get_weapon_type(&WeaponTypeId { id: 0 });
    let rifle = types.get_weapon_type(&WeaponTypeId { id: 1 });
    assert_eq!(
        thresholds(tank, soldier, cannon),
        Thresholds { hit: -1, pierce: 13, wound: 7 }
    );
    assert_eq!(
        thresholds(soldier, tank, rifle),
        Thresholds { hit: 1, pierce: -5, wound: -7 }
    );
    assert_eq!(
        thresholds(soldier, soldier, rifle),
        Thresholds { hit: -1, pierce: 5, wound: 0 }
    );
    assert_eq!(thresholds(tank, tank, cannon), Thresholds { hit: 1, pierce: 3, wound: 0 });
}

#[test]
fn thresholds_do_not_overflow() {
    let types = ObjectTypes::new();
    let mut big = types.get_unit_type(&UnitTypeId { id: 0 }).clone();
    big.size = i32::MAX;
    big.weapon_skill = i32::MAX;
    big.armor = i32::MIN;
    big.toughness = i32::MIN;
    let mut gun = types.get_weapon_type(&WeaponTypeId { id: 0 }).clone();
    gun.accuracy = i32::MAX;
    gun.ap = i32::MAX;
    gun.damage = i32::MAX;
    let t = thresholds(&big, &big, &gun);
    let max = i32::MAX as i64;
    assert_eq!(t.hit, -15 + 3 * max);
    assert_eq!(t.pierce, 5 + (max + 1) + max);
    assert_eq!(t.wound, (max + 1) + max);
}

#[test]
fn scripted_dice_go_round() {
    let mut dice = Dice::scripted(vec![3, -2, 7]).unwrap();
    assert_eq!(dice.script_len(), 3);
    assert_eq!(dice.position(), 0);
    assert_eq!(dice.roll(), 3);
    assert_eq!(dice.position(), 1);
    assert_eq!(dice.roll(), -2);
    assert_eq!(dice.roll(), 7);
    assert_eq!(dice.position(), 0);
    assert_eq!(dice.roll(), 3);
}

#[test]
fn random_dice_stay_in_range() {
    let mut dice = Dice::random();
    assert_eq!(dice.script_len(), 0);
    let mut seen = Vec::new();
    for _ in 0..400 {
        let roll = dice.roll();
        assert!(ROLL_LOW <= roll && roll < ROLL_HIGH);
        assert!(-5 <= roll && roll < 5);
        if !seen.contains(&roll) {
            seen.push(roll);
        }
        assert_eq!(dice.position(), 0);
    }
    assert!(seen.len() > 1);
}

#[test]
fn one_test_takes_one_roll() {
    let mut dice = Dice::scripted(vec![0, 1, -1]).unwrap();
    assert!(!roll_test(0, &mut dice));
    assert!(!roll_test(1, &mut dice));
    assert!(roll_test(0, &mut dice));
    assert_eq!(dice.position(), 0);
    assert!(roll_test(1, &mut dice));
    assert_eq!(dice.position(), 1);
}

#[test]
fn attack_kills_when_every_roll_passes() {
    let t = Thresholds { hit: -1, pierce: 13, wound: 7 };
    let mut dice = Dice::scripted(vec![-5]).unwrap();
    assert!(resolve_attack(&t, &mut dice));
    let mut dice = Dice::scripted(vec![-2, 4, 4, 100]).unwrap();
    assert!(resolve_attack(&t, &mut dice));
    assert_eq!(dice.position(), 3);
}

#[test]
fn attack_stops_at_the_failed_hit_test() {
    let t = Thresholds { hit: -1, pierce: 13, wound: 7 };
    let mut dice = Dice::scripted(vec![-1, -5, -5, -5]).unwrap();
    assert!(!resolve_attack(&t, &mut dice));
    assert_eq!(dice.position(), 1);
}

#[test]
fn attack_stops_at_the_failed_pierce_test() {
    let t = Thresholds { hit: 1, pierce: -5, wound: 7 };
    let mut dice = Dice::scripted(vec![-5, -5, -5, -5]).unwrap();
    assert!(!resolve_attack(&t, &mut dice));
    assert_eq!(dice.position(), 2);
}

#[test]
fn attack_fails_at_the_wound_test() {
    let t = Thresholds { hit: 1, pierce: 3, wound: 0 };
    let mut dice = Dice::scripted(vec![0, 2, 0, 9]).unwrap();
    assert!(!resolve_attack(&t, &mut dice));
    assert_eq!(dice.position(), 3);
    let mut dice = Dice::scripted(vec![0, 2, -1, 9]).unwrap();
    assert!(resolve_attack(&t, &mut dice));
    assert_eq!(dice.position(), 3);
}

#[test]
fn random_attack_that_cannot_kill() {
    let cannot = Thresholds { hit: 1, pierce: -5, wound: -7 };
    let mut dice = Dice::random();
    for _ in 0..200 {
        assert!(!resolve_attack(&cannot, &mut dice));
    }
}

#[test]
fn random_attack_that_must_kill() {
    let must = Thresholds { hit: 5, pierce: 13, wound: 7 };
    let mut dice = Dice::random();
    for _ in 0..200 {
        assert!(resolve_attack(&must, &mut dice));
    }
}

#[test]
fn world_applies_events() {
    let types = ObjectTypes::new();
    let mut state = GameState::new(Size2 { w: 5, h: 4 });
    assert_eq!(state.unit_count(), 0);
    assert_eq!(state.max_unit_id(), None);
    assert_eq!(state.map().size(), Size2 { w: 5, h: 4 });
    assert_eq!(*state.map().tile(MapPos { x: 4, y: 3 }), Terrain::Plain);
    state.apply_event(
        &types,
        &CoreEvent::CreateUnit {
            unit_id: UnitId { id: 7 },
            pos: MapPos { x: 1, y: 1 },
            type_id: UnitTypeId { id: 0 },
            player_id: PlayerId { id: 1 },
        },
    );
    assert_eq!(
        state.unit(&UnitId { id: 7 }),
        Some(&Unit {
            id: UnitId { id: 7 },
            pos: MapPos { x: 1, y: 1 },
            player_id: PlayerId { id: 1 },
            type_id: UnitTypeId { id: 0 },
            move_points: 5,
            attacked: false,
        })
    );
    state.apply_event(
        &types,
        &CoreEvent::CreateUnit {
            unit_id: UnitId { id: 3 },
            pos: MapPos { x: 0, y: 0 },
            type_id: UnitTypeId { id: 1 },
            player_id: PlayerId { id: 0 },
        },
    );
    assert_eq!(state.unit_count(), 2);
    assert_eq!(state.max_unit_id(), Some(7));
    assert_eq!(state.unit(&UnitId { id: 3 }).unwrap().move_points, 3);
    state.apply_event(
        &types,
        &CoreEvent::Move {
            unit_id: UnitId { id: 3 },
            path: vec![MapPos { x: 1, y: 0 }, MapPos { x: 2, y: 0 }],
        },
    );
    assert_eq!(state.unit(&UnitId { id: 3 }).unwrap().pos, MapPos { x: 2, y: 0 });
    assert_eq!(state.unit(&UnitId { id: 7 }).unwrap().pos, MapPos { x: 1, y: 1 });
    state.apply_event(
        &types,
        &CoreEvent::EndTurn { old_id: PlayerId { id: 0 }, new_id: PlayerId { id: 1 } },
    );
    assert_eq!(state.unit_count(), 2);
    state.apply_event(
        &types,
        &CoreEvent::AttackUnit {
            attacker_id: UnitId { id: 7 },
            defender_id: UnitId { id: 3 },
            killed: false,
        },
    );
    assert_eq!(state.unit_count(), 2);
    state.apply_event(
        &types,
        &CoreEvent::AttackUnit {
            attacker_id: UnitId { id: 3 },
            defender_id: UnitId { id: 7 },
            killed: true,
        },
    );
    assert_eq!(state.unit_count(), 1);
    assert_eq!(state.unit(&UnitId { id: 7 }), None);
    assert_eq!(state.max_unit_id(), Some(3));
    assert!(state.is_inboard(MapPos { x: 4, y: 3 }));
    assert!(!state.is_inboard(MapPos { x: 5, y: 3 }));
}

#[test]
fn end_turn_cycles_through_two_players() {
    let mut core = Core::new_empty(board(), Dice::random());
    assert_eq!(core.player_count(), 2);
    assert_eq!(*core.player_id(), PlayerId { id: 0 });
    core.do_command(Command::EndTurn);
    assert_eq!(*core.player_id(), PlayerId { id: 1 });
    core.do_command(Command::EndTurn);
    assert_eq!(*core.player_id(), PlayerId { id: 0 });
    core.do_command(Command::EndTurn);
    assert_eq!(*core.player_id(), PlayerId { id: 1 });
}

#[test]
fn end_turn_is_told_to_both_players() {
    let mut core = Core::new_empty(board(), Dice::random());
    core.do_command(Command::EndTurn);
    // player 1 reads first, as the turn is theirs now
    assert_eq!(
        drain(&mut core),
        vec![CoreEvent::EndTurn { old_id: PlayerId { id: 0 }, new_id: PlayerId { id: 1 } }]
    );
    core.do_command(Command::EndTurn);
    assert_eq!(
        drain(&mut core),
        vec![
            CoreEvent::EndTurn { old_id: PlayerId { id: 0 }, new_id: PlayerId { id: 1 } },
            CoreEvent::EndTurn { old_id: PlayerId { id: 1 }, new_id: PlayerId { id: 0 } },
        ]
    );
}

#[test]
fn create_unit_numbers_from_zero() {
    let mut core = Core::new_empty(board(), Dice::random());
    assert_eq!(core.game_state().unit_count(), 0);
    for n in 0..5 {
        core.do_command(Command::CreateUnit { pos: MapPos { x: n, y: 1 } });
        let unit = *core.get_unit(&UnitId { id: n });
        assert_eq!(
            unit,
            Unit {
                id: UnitId { id: n },
                pos: MapPos { x: n, y: 1 },
                player_id: PlayerId { id: 0 },
                type_id: UnitTypeId { id: 1 },
                move_points: 3,
                attacked: false,
            }
        );
        assert_eq!(core.game_state().unit_count(), n as usize + 1);
    }
    let events = drain(&mut core);
    assert_eq!(events.len(), 5);
    for (n, event) in events.iter().enumerate() {
        assert_eq!(
            *event,
            CoreEvent::CreateUnit {
                unit_id: UnitId { id: n as i32 },
                pos: MapPos { x: n as i32, y: 1 },
                type_id: UnitTypeId { id: 1 },
                player_id: PlayerId { id: 0 },
            }
        );
    }
}

#[test]
fn create_unit_belongs_to_the_current_player() {
    let mut core = Core::new_empty(board(), Dice::random());
    core.do_command(Command::EndTurn);
    core.do_command(Command::CreateUnit { pos: MapPos { x: 9, y: 11 } });
    assert_eq!(core.get_unit(&UnitId { id: 0 }).player_id, PlayerId { id: 1 });
}

#[test]
fn create_unit_never_takes_a_live_number() {
    // every roll is -5, so every attack within reach kills
    let mut core = Core::new_empty(board(), Dice::scripted(vec![-5]).unwrap());
    core.do_command(Command::CreateUnit { pos: MapPos { x: 0, y: 0 } });
    core.do_command(Command::CreateUnit { pos: MapPos { x: 1, y: 0 } });
    core.do_command(Command::CreateUnit { pos: MapPos { x: 2, y: 0 } });
    core.do_command(Command::AttackUnit {
        attacker_id: UnitId { id: 0 },
        defender_id: UnitId { id: 1 },
    });
    // soldier against soldier: hit -1, pierce 5, wound 0, and every roll is -5
    assert_eq!(core.game_state().unit(&UnitId { id: 1 }), None);
    core.do_command(Command::CreateUnit { pos: MapPos { x: 3, y: 0 } });
    assert_eq!(core.get_unit(&UnitId { id: 3 }).pos, MapPos { x: 3, y: 0 });
    assert_eq!(core.game_state().unit(&UnitId { id: 1 }), None);
    assert_eq!(core.game_state().unit_count(), 3);
    core.do_command(Command::AttackUnit {
        attacker_id: UnitId { id: 0 },
        defender_id: UnitId { id: 3 },
    });
    assert_eq!(core.game_state().unit(&UnitId { id: 3 }), None);
    // the largest live number is 2 again
    core.do_command(Command::CreateUnit { pos: MapPos { x: 4, y: 0 } });
    assert_eq!(core.get_unit(&UnitId { id: 3 }).pos, MapPos { x: 4, y: 0 });
    assert_eq!(core.game_state().unit_count(), 3);
}

#[test]
fn reference_scenario_starts_with_four_units() {
    let mut core = Core::new();
    assert_eq!(*core.player_id(), PlayerId { id: 0 });
    assert_eq!(core.game_state().map().size(), Size2 { w: MAP_WIDTH, h: MAP_HEIGHT });
    assert_eq!(core.game_state().unit_count(), 4);
    let expected = [
        (0, (0, 0), 0, 0, 5),
        (1, (0, 1), 1, 0, 3),
        (2, (2, 0), 0, 1, 5),
        (3, (2, 2), 1, 1, 3),
    ];
    for (id, (x, y), type_id, player, move_points) in expected.iter() {
        assert_eq!(
            *core.get_unit(&UnitId { id: *id }),
            Unit {
                id: UnitId { id: *id },
                pos: MapPos { x: *x, y: *y },
                player_id: PlayerId { id: *player },
                type_id: UnitTypeId { id: *type_id },
                move_points: *move_points,
                attacked: false,
            }
        );
    }
    assert_eq!(drain(&mut core).len(), 4);
    core.do_command(Command::CreateUnit { pos: MapPos { x: 5, y: 5 } });
    assert_eq!(core.get_unit(&UnitId { id: 4 }).pos, MapPos { x: 5, y: 5 });
    assert_eq!(core.object_types().get_unit_type_id("tank"), UnitTypeId { id: 0 });
    assert_eq!(core.get_weapon_type(&WeaponTypeId { id: 1 }).name, "rifle");
}

#[test]
fn move_is_passed_on_and_applied() {
    let mut core = Core::with_dice(Dice::scripted(vec![0]).unwrap());
    drain(&mut core);
    let path = vec![MapPos { x: 1, y: 1 }, MapPos { x: 1, y: 2 }, MapPos { x: 9, y: 11 }];
    core.do_command(Command::Move { unit_id: UnitId { id: 1 }, path: path.clone() });
    assert_eq!(core.get_unit(&UnitId { id: 1 }).pos, MapPos { x: 9, y: 11 });
    assert_eq!(core.get_unit(&UnitId { id: 1 }).move_points, 3);
    assert_eq!(
        drain(&mut core),
        vec![CoreEvent::Move { unit_id: UnitId { id: 1 }, path: path }]
    );
    assert_eq!(core.dice_source().position(), 0);
}

#[test]
fn attack_out_of_range_is_dropped() {
    let mut core = Core::with_dice(Dice::scripted(vec![-5, -5, -5, -5, -5]).unwrap());
    drain(&mut core);
    // the soldier of player 0 stands 4 steps from the soldier of player 1
    // after it has moved away; a rifle reaches 3
    core.do_command(Command::Move {
        unit_id: UnitId { id: 1 },
        path: vec![MapPos { x: 0, y: 5 }],
    });
    drain(&mut core);
    let before: Vec<Unit> = (0..4).map(|id| *core.get_unit(&UnitId { id })).collect();
    core.do_command(Command::AttackUnit {
        attacker_id: UnitId { id: 1 },
        defender_id: UnitId { id: 3 },
    });
    assert_eq!(core.get_event(), None);
    let after: Vec<Unit> = (0..4).map(|id| *core.get_unit(&UnitId { id })).collect();
    assert_eq!(before, after);
    assert_eq!(core.game_state().unit_count(), 4);
    assert_eq!(*core.player_id(), PlayerId { id: 0 });
    assert_eq!(core.dice_source().position(), 0);
    core.do_command(Command::EndTurn);
    // player 1 has read nothing so far: four new units, the move, the end of the turn
    let told = drain(&mut core);
    assert_eq!(told.len(), 6);
    assert_eq!(
        told[4..].to_vec(),
        vec![
            CoreEvent::Move { unit_id: UnitId { id: 1 }, path: vec![MapPos { x: 0, y: 5 }] },
            CoreEvent::EndTurn { old_id: PlayerId { id: 0 }, new_id: PlayerId { id: 1 } },
        ]
    );
}

#[test]
fn attack_at_the_edge_of_range_is_resolved() {
    // the soldier at (0, 1) is 3 steps from the tank at (2, 0): in reach of a rifle
    let mut core = Core::with_dice(Dice::scripted(vec![-5, -5, -5, -5, -5]).unwrap());
    drain(&mut core);
    core.do_command(Command::AttackUnit {
        attacker_id: UnitId { id: 1 },
        defender_id: UnitId { id: 2 },
    });
    // hit 1, pierce -5: the second test fails on a roll of -5
    assert_eq!(
        drain(&mut core),
        vec![CoreEvent::AttackUnit {
            attacker_id: UnitId { id: 1 },
            defender_id: UnitId { id: 2 },
            killed: false,
        }]
    );
    assert_eq!(core.dice_source().position(), 2);
    assert_eq!(core.game_state().unit_count(), 4);
}

#[test]
fn attack_with_passing_rolls_kills() {
    let mut core = Core::with_dice(Dice::scripted(vec![-5]).unwrap());
    drain(&mut core);
    // the tank at (0, 0) against the soldier at (2, 2), 3 steps away
    core.do_command(Command::AttackUnit {
        attacker_id: UnitId { id: 0 },
        defender_id: UnitId { id: 3 },
    });
    assert_eq!(core.game_state().unit(&UnitId { id: 3 }), None);
    assert_eq!(core.game_state().unit_count(), 3);
    assert_eq!(
        drain(&mut core),
        vec![CoreEvent::AttackUnit {
            attacker_id: UnitId { id: 0 },
            defender_id: UnitId { id: 3 },
            killed: true,
        }]
    );
}

#[test]
fn attack_with_failing_hit_roll_spares() {
    let mut core = Core::with_dice(Dice::scripted(vec![4, -5, -5, -5]).unwrap());
    drain(&mut core);
    core.do_command(Command::AttackUnit {
        attacker_id: UnitId { id: 0 },
        defender_id: UnitId { id: 3 },
    });
    assert_eq!(core.game_state().unit_count(), 4);
    assert_eq!(core.dice_source().position(), 1);
    assert_eq!(
        drain(&mut core),
        vec![CoreEvent::AttackUnit {
            attacker_id: UnitId { id: 0 },
            defender_id: UnitId { id: 3 },
            killed: false,
        }]
    );
}

#[test]
fn random_attack_of_rifle_on_tank_never_kills() {
    let mut core = Core::new();
    drain(&mut core);
    for _ in 0..50 {
        core.do_command(Command::AttackUnit {
            attacker_id: UnitId { id: 1 },
            defender_id: UnitId { id: 2 },
        });
        assert_eq!(
            core.get_event(),
            Some(CoreEvent::AttackUnit {
                attacker_id: UnitId { id: 1 },
                defender_id: UnitId { id: 2 },
                killed: false,
            })
        );
    }
    assert_eq!(core.game_state().unit_count(), 4);
}

#[test]
fn get_event_on_empty_queue() {
    let mut core = Core::new_empty(board(), Dice::random());
    assert_eq!(core.get_event(), None);
    assert_eq!(core.get_event(), None);
    assert_eq!(core.get_event(), None);
    core.do_command(Command::CreateUnit { pos: MapPos { x: 0, y: 0 } });
    assert!(core.get_event().is_some());
    assert_eq!(core.get_event(), None);
    assert_eq!(core.get_event(), None);
}

#[test]
fn get_event_reads_only_the_current_queue() {
    let mut core = Core::new_empty(board(), Dice::random());
    core.do_command(Command::CreateUnit { pos: MapPos { x: 0, y: 0 } });
    core.do_command(Command::CreateUnit { pos: MapPos { x: 1, y: 0 } });
    let first = core.get_event();
    assert_eq!(
        first,
        Some(CoreEvent::CreateUnit {
            unit_id: UnitId { id: 0 },
            pos: MapPos { x: 0, y: 0 },
            type_id: UnitTypeId { id: 1 },
            player_id: PlayerId { id: 0 },
        })
    );
    core.do_command(Command::EndTurn);
    // player 1 has read nothing so far
    assert_eq!(drain(&mut core).len(), 3);
    core.do_command(Command::EndTurn);
    // player 0 goes on after the one event that was read
    assert_eq!(drain(&mut core).len(), 3);
}

#[test]
fn check_command_names_the_reason() {
    let core = Core::new();
    assert_eq!(core.check_command(&Command::EndTurn), Ok(()));
    assert_eq!(
        core.check_command(&Command::Move { unit_id: UnitId { id: 9 }, path: vec![] }),
        Err(CommandError::NoSuchUnit { unit_id: UnitId { id: 9 } })
    );
    assert_eq!(
        core.check_command(&Command::Move { unit_id: UnitId { id: 0 }, path: vec![] }),
        Err(CommandError::EmptyPath)
    );
    assert_eq!(
        core.check_command(&Command::Move {
            unit_id: UnitId { id: 0 },
            path: vec![MapPos { x: 1, y: 1 }, MapPos { x: 10, y: 0 }],
        }),
        Err(CommandError::OffBoard { pos: MapPos { x: 10, y: 0 } })
    );
    assert_eq!(
        core.check_command(&Command::Move {
            unit_id: UnitId { id: 0 },
            path: vec![MapPos { x: 10, y: 0 }, MapPos { x: 1, y: 1 }],
        }),
        Ok(())
    );
    assert_eq!(
        core.check_command(&Command::CreateUnit { pos: MapPos { x: 0, y: 12 } }),
        Err(CommandError::OffBoard { pos: MapPos { x: 0, y: 12 } })
    );
    assert_eq!(
        core.check_command(&Command::CreateUnit { pos: MapPos { x: -1, y: 0 } }),
        Err(CommandError::OffBoard { pos: MapPos { x: -1, y: 0 } })
    );
    assert_eq!(core.check_command(&Command::CreateUnit { pos: MapPos { x: 9, y: 11 } }), Ok(()));
    assert_eq!(
        core.check_command(&Command::AttackUnit {
            attacker_id: UnitId { id: 4 },
            defender_id: UnitId { id: 5 },
        }),
        Err(CommandError::NoSuchUnit { unit_id: UnitId { id: 4 } })
    );
    assert_eq!(
        core.check_command(&Command::AttackUnit {
            attacker_id: UnitId { id: 0 },
            defender_id: UnitId { id: 5 },
        }),
        Err(CommandError::NoSuchUnit { unit_id: UnitId { id: 5 } })
    );
    assert_eq!(
        core.check_command(&Command::AttackUnit {
            attacker_id: UnitId { id: 0 },
            defender_id: UnitId { id: 3 },
        }),
        Ok(())
    );
}

#[test]
fn try_command_refuses_without_change() {
    let mut core = Core::with_dice(Dice::scripted(vec![-5]).unwrap());
    drain(&mut core);
    assert_eq!(
        core.try_command(Command::AttackUnit {
            attacker_id: UnitId { id: 0 },
            defender_id: UnitId { id: 8 },
        }),
        Err(CommandError::NoSuchUnit { unit_id: UnitId { id: 8 } })
    );
    assert_eq!(core.get_event(), None);
    assert_eq!(core.game_state().unit_count(), 4);
    assert_eq!(core.try_command(Command::CreateUnit { pos: MapPos { x: 3, y: 3 } }), Ok(()));
    assert_eq!(core.game_state().unit_count(), 5);
    assert_eq!(core.try_command(Command::EndTurn), Ok(()));
    assert_eq!(*core.player_id(), PlayerId { id: 1 });
}

#[test]
fn command_clone_is_equal() {
    let command = Command::Move {
        unit_id: UnitId { id: 2 },
        path: vec![MapPos { x: 1, y: 2 }, MapPos { x: 3, y: 4 }],
    };
    assert_eq!(command.clone(), command);
    let event = CoreEvent::Move { unit_id: UnitId { id: 2 }, path: vec![MapPos { x: 1, y: 2 }] };
    assert_eq!(event.clone(), event);
    assert_eq!(Command::EndTurn.clone(), Command::EndTurn);
}

fn sling() -> WeaponType {
    WeaponType {
        name: "sling".to_string(),
        damage: 1,
        ap: 0,
        accuracy: 2,
        min_distance: 0,
        max_distance: 2,
    }
}

fn militia(weapon: i32) -> UnitType {
    UnitType {
        name: "militia".to_string(),
        class: UnitClass::Infantry,
        count: 6,
        size: 4,
        armor: 0,
        toughness: 1,
        weapon_skill: 2,
        weapon_type_id: WeaponTypeId { id: weapon },
        move_points: 2,
    }
}

#[test]
fn scripted_dice_need_a_roll() {
    assert!(Dice::scripted(vec![]).is_none());
    assert!(Dice::scripted(vec![0]).is_some());
}

#[test]
fn catalogue_from_lists() {
    let types = ObjectTypes::from_lists(vec![militia(0), militia(1)], vec![sling(), sling()])
        .expect("both weapons are in the list");
    assert_eq!(types.get_unit_type_id_opt("militia"), Some(UnitTypeId { id: 0 }));
    assert_eq!(types.get_weapon_type_id_opt("sling"), Some(WeaponTypeId { id: 0 }));
    assert_eq!(types.get_unit_type(&UnitTypeId { id: 1 }).weapon_type_id, WeaponTypeId { id: 1 });
    assert_eq!(types.get_weapon_type(&WeaponTypeId { id: 1 }).max_distance, 2);
    assert!(ObjectTypes::from_lists(vec![], vec![]).is_some());
    assert!(ObjectTypes::from_lists(vec![militia(1)], vec![sling()]).is_none());
    assert!(ObjectTypes::from_lists(vec![militia(0), militia(-1)], vec![sling()]).is_none());
    assert!(ObjectTypes::from_lists(vec![militia(0)], vec![]).is_none());
}

#[test]
fn engine_from_parts() {
    let mut state = GameState::new(Size2 { w: 4, h: 4 });
    state.apply_event(
        &ObjectTypes::new(),
        &CoreEvent::CreateUnit {
            unit_id: UnitId { id: 5 },
            pos: MapPos { x: 1, y: 1 },
            type_id: UnitTypeId { id: 1 },
            player_id: PlayerId { id: 1 },
        },
    );
    let mut core = Core::from_parts(state, ObjectTypes::new(), Dice::random())
        .expect("the catalogue has the soldier");
    assert_eq!(*core.player_id(), PlayerId { id: 0 });
    assert_eq!(core.get_event(), None);
    assert_eq!(core.get_unit(&UnitId { id: 5 }).pos, MapPos { x: 1, y: 1 });
    core.do_command(Command::CreateUnit { pos: MapPos { x: 0, y: 0 } });
    assert_eq!(core.get_unit(&UnitId { id: 6 }).player_id, PlayerId { id: 0 });
}

#[test]
fn engine_from_parts_wants_known_unit_types() {
    let mut state = GameState::new(Size2 { w: 4, h: 4 });
    state.apply_event(
        &ObjectTypes::new(),
        &CoreEvent::CreateUnit {
            unit_id: UnitId { id: 0 },
            pos: MapPos { x: 1, y: 1 },
            type_id: UnitTypeId { id: 1 },
            player_id: PlayerId { id: 0 },
        },
    );
    let one_type = ObjectTypes::from_lists(vec![militia(0)], vec![sling()]).unwrap();
    assert!(Core::from_parts(state, one_type, Dice::random()).is_none());
}

#[test]
fn create_unit_wants_the_recruit_type() {
    let types = ObjectTypes::from_lists(vec![militia(0)], vec![sling()]).unwrap();
    let mut core =
        Core::from_parts(GameState::new(Size2 { w: 4, h: 4 }), types, Dice::random()).unwrap();
    assert_eq!(
        core.check_command(&Command::CreateUnit { pos: MapPos { x: 0, y: 0 } }),
        Err(CommandError::NoRecruitType)
    );
    assert_eq!(
        core.try_command(Command::CreateUnit { pos: MapPos { x: 0, y: 0 } }),
        Err(CommandError::NoRecruitType)
    );
    assert_eq!(
        core.check_command(&Command::CreateUnit { pos: MapPos { x: 4, y: 0 } }),
        Err(CommandError::OffBoard { pos: MapPos { x: 4, y: 0 } })
    );
    assert_eq!(core.game_state().unit_count(), 0);
    assert_eq!(core.get_event(), None);
}

#[test]
fn create_unit_wants_a_free_number() {
    let mut state = GameState::new(Size2 { w: 4, h: 4 });
    state.apply_event(
        &ObjectTypes::new(),
        &CoreEvent::CreateUnit {
            unit_id: UnitId { id: i32::MAX },
            pos: MapPos { x: 1, y: 1 },
            type_id: UnitTypeId { id: 0 },
            player_id: PlayerId { id: 0 },
        },
    );
    let mut core = Core::from_parts(state, ObjectTypes::new(), Dice::random()).unwrap();
    assert_eq!(
        core.check_command(&Command::CreateUnit { pos: MapPos { x: 0, y: 0 } }),
        Err(CommandError::NoFreeUnitId)
    );
    assert_eq!(
        core.try_command(Command::CreateUnit { pos: MapPos { x: 0, y: 0 } }),
        Err(CommandError::NoFreeUnitId)
    );
    assert_eq!(core.game_state().unit_count(), 1);
}

#[test]
fn new_unit_follows_the_largest_number() {
    let mut state = GameState::new(Size2 { w: 4, h: 4 });
    for id in [-7, 41, 12] {
        state.apply_event(
            &ObjectTypes::new(),
            &CoreEvent::CreateUnit {
                unit_id: UnitId { id },
                pos: MapPos { x: 1, y: 1 },
                type_id: UnitTypeId { id: 0 },
                player_id: PlayerId { id: 0 },
            },
        );
    }
    let mut core = Core::from_parts(state, ObjectTypes::new(), Dice::random()).unwrap();
    core.do_command(Command::CreateUnit { pos: MapPos { x: 0, y: 0 } });
    assert_eq!(core.get_unit(&UnitId { id: 42 }).pos, MapPos { x: 0, y: 0 });
    assert_eq!(core.game_state().unit_count(), 4);
}

#[test]
fn attack_uses_the_weapon_of_the_catalogue() {
    // militia with a sling: reach 2, hit -15 + 4 + 2 + 2, pierce 5 - 0 + 0, wound -1 + 1
    let types = ObjectTypes::from_lists(
        vec![militia(0), UnitType { name: "soldier".to_string(), ..militia(0) }],
        vec![sling()],
    )
    .unwrap();
    let dice = Dice::scripted(vec![-8, 4, -1, 0, 0, 0]).unwrap();
    let mut core = Core::from_parts(GameState::new(Size2 { w: 6, h: 6 }), types, dice).unwrap();
    core.do_command(Command::CreateUnit { pos: MapPos { x: 0, y: 0 } });
    core.do_command(Command::CreateUnit { pos: MapPos { x: 2, y: 0 } });
    core.do_command(Command::CreateUnit { pos: MapPos { x: 3, y: 0 } });
    assert_eq!(core.get_unit(&UnitId { id: 0 }).type_id, UnitTypeId { id: 1 });
    // three steps: out of reach, no roll is made
    core.do_command(Command::AttackUnit {
        attacker_id: UnitId { id: 0 },
        defender_id: UnitId { id: 2 },
    });
    assert_eq!(core.dice_source().position(), 0);
    assert_eq!(core.game_state().unit_count(), 3);
    // two steps: rolls -8 < -7, 4 < 5, -1 < 0
    core.do_command(Command::AttackUnit {
        attacker_id: UnitId { id: 0 },
        defender_id: UnitId { id: 1 },
    });
    assert_eq!(core.dice_source().position(), 3);
    assert_eq!(core.game_state().unit(&UnitId { id: 1 }), None);
    // once more on the unit that is now out of reach no more: rolls 0, the hit test fails
    core.do_command(Command::Move { unit_id: UnitId { id: 2 }, path: vec![MapPos { x: 1, y: 1 }] });
    core.do_command(Command::AttackUnit {
        attacker_id: UnitId { id: 0 },
        defender_id: UnitId { id: 2 },
    });
    assert_eq!(core.dice_source().position(), 4);
    assert_eq!(core.game_state().unit_count(), 2);
}

#[test]
fn world_says_what_it_can_apply() {
    let types = ObjectTypes::new();
    let mut state = GameState::new(Size2 { w: 3, h: 3 });
    let create = |id: i32, x: i32, type_id: i32| CoreEvent::CreateUnit {
        unit_id: UnitId { id },
        pos: MapPos { x, y: 0 },
        type_id: UnitTypeId { id: type_id },
        player_id: PlayerId { id: 0 },
    };
    assert!(state.can_apply(&types, &create(0, 0, 0)));
    assert!(!state.can_apply(&types, &create(0, 3, 0)));
    assert!(!state.can_apply(&types, &create(0, 0, 2)));
    assert!(!state.can_apply(&types, &create(0, 0, -1)));
    state.apply_event(&types, &create(0, 0, 0));
    assert!(!state.can_apply(&types, &create(0, 1, 0)));
    assert!(state.can_apply(&types, &create(1, 0, 1)));
    let go = |id: i32, path: Vec<MapPos>| CoreEvent::Move { unit_id: UnitId { id }, path };
    assert!(state.can_apply(&types, &go(0, vec![MapPos { x: 2, y: 2 }])));
    assert!(state.can_apply(&types, &go(0, vec![MapPos { x: 9, y: 9 }, MapPos { x: 1, y: 1 }])));
    assert!(!state.can_apply(&types, &go(0, vec![MapPos { x: 1, y: 1 }, MapPos { x: 0, y: 3 }])));
    assert!(!state.can_apply(&types, &go(0, vec![])));
    assert!(!state.can_apply(&types, &go(1, vec![MapPos { x: 1, y: 1 }])));
    let hit = |a: i32, d: i32, killed: bool| CoreEvent::AttackUnit {
        attacker_id: UnitId { id: a },
        defender_id: UnitId { id: d },
        killed,
    };
    assert!(state.can_apply(&types, &hit(0, 0, true)));
    assert!(!state.can_apply(&types, &hit(0, 1, false)));
    assert!(!state.can_apply(&types, &hit(1, 0, false)));
    assert!(state.can_apply(
        &types,
        &CoreEvent::EndTurn { old_id: PlayerId { id: 5 }, new_id: PlayerId { id: 6 } }
    ));
}

#[test]
fn any_move_is_passed_on_unchanged() {
    let mut core = Core::with_dice(Dice::scripted(vec![-5, -5, -5]).unwrap());
    drain(&mut core);
    let moves = vec![
        // no such unit, and an empty path
        (UnitId { id: 77 }, vec![]),
        // a live unit, and a path that leaves the board
        (UnitId { id: 0 }, vec![MapPos { x: -4, y: 100 }, MapPos { x: 1000, y: -1000 }]),
        // longer than the move points of a soldier allow
        (UnitId { id: 1 }, (0..9).map(|x| MapPos { x, y: 1 }).collect()),
    ];
    for (unit_id, path) in moves {
        let event = core.command_to_event(Command::Move { unit_id, path: path.clone() });
        assert_eq!(event, Some(CoreEvent::Move { unit_id, path }));
    }
    assert_eq!(core.game_state().unit_count(), 4);
    assert_eq!(core.get_unit(&UnitId { id: 0 }).pos, MapPos { x: 0, y: 0 });
    assert_eq!(core.get_unit(&UnitId { id: 1 }).pos, MapPos { x: 0, y: 1 });
    assert_eq!(core.get_event(), None);
    assert_eq!(core.dice_source().position(), 0);
    assert_eq!(*core.player_id(), PlayerId { id: 0 });
}

#[test]
fn new_unit_event_takes_the_cell_as_it_is() {
    let mut core = Core::new_empty(board(), Dice::random());
    for pos in [MapPos { x: -3, y: 500 }, MapPos { x: 10, y: 12 }, MapPos { x: 4, y: 4 }] {
        let event = core.command_to_event(Command::CreateUnit { pos });
        assert_eq!(
            event,
            Some(CoreEvent::CreateUnit {
                unit_id: UnitId { id: 0 },
                pos,
                type_id: UnitTypeId { id: 1 },
                player_id: PlayerId { id: 0 },
            })
        );
        assert_eq!(core.game_state().unit_count(), 0);
        assert_eq!(core.get_event(), None);
    }
    core.do_command(Command::EndTurn);
    drain(&mut core);
    assert_eq!(
        core.command_to_event(Command::CreateUnit { pos: MapPos { x: 0, y: 0 } }),
        Some(CoreEvent::CreateUnit {
            unit_id: UnitId { id: 0 },
            pos: MapPos { x: 0, y: 0 },
            type_id: UnitTypeId { id: 1 },
            player_id: PlayerId { id: 1 },
        })
    );
}

#[test]
fn end_turn_event_names_both_players() {
    let mut core = Core::new_empty(board(), Dice::random());
    assert_eq!(
        core.command_to_event(Command::EndTurn),
        Some(CoreEvent::EndTurn { old_id: PlayerId { id: 0 }, new_id: PlayerId { id: 1 } })
    );
    // nothing was applied: the turn is still that of player 0
    assert_eq!(*core.player_id(), PlayerId { id: 0 });
    core.do_command(Command::EndTurn);
    assert_eq!(
        core.command_to_event(Command::EndTurn),
        Some(CoreEvent::EndTurn { old_id: PlayerId { id: 1 }, new_id: PlayerId { id: 0 } })
    );
}

#[test]
fn new_unit_number_is_one_above_the_largest() {
    let mut core = Core::new_empty(board(), Dice::scripted(vec![-5]).unwrap());
    assert_eq!(core.get_new_unit_id(), UnitId { id: 0 });
    assert_eq!(core.get_new_unit_id(), UnitId { id: 0 });
    for n in 0..4 {
        core.do_command(Command::CreateUnit { pos: MapPos { x: n, y: 0 } });
        assert_eq!(core.get_new_unit_id(), UnitId { id: n + 1 });
        assert_eq!(core.game_state().unit(&UnitId { id: n + 1 }), None);
    }
    // unit 2 dies: the largest live number is still 3
    core.do_command(Command::AttackUnit {
        attacker_id: UnitId { id: 1 },
        defender_id: UnitId { id: 2 },
    });
    assert_eq!(core.game_state().unit(&UnitId { id: 2 }), None);
    assert_eq!(core.get_new_unit_id(), UnitId { id: 4 });
    assert_eq!(Core::new().get_new_unit_id(), UnitId { id: 4 });
}

#[test]
fn attack_event_up_to_the_reach_of_the_weapon() {
    // soldiers in a row: a rifle reaches 3
    let mut core = Core::new_empty(board(), Dice::scripted(vec![-5, 9, -5, -5]).unwrap());
    for x in [0, 3, 4] {
        core.do_command(Command::CreateUnit { pos: MapPos { x, y: 0 } });
    }
    drain(&mut core);
    // 4 steps: no event, no roll
    assert_eq!(core.command_attack_unit_to_event(UnitId { id: 0 }, UnitId { id: 2 }), None);
    assert_eq!(core.dice_source().position(), 0);
    // 3 steps: the attack takes place; rolls -5 and 9, the pierce test fails
    assert_eq!(
        core.command_attack_unit_to_event(UnitId { id: 0 }, UnitId { id: 1 }),
        Some(CoreEvent::AttackUnit {
            attacker_id: UnitId { id: 0 },
            defender_id: UnitId { id: 1 },
            killed: false,
        })
    );
    assert_eq!(core.dice_source().position(), 2);
    // rolls -5, -5, -5: a kill is reported, and nothing is applied yet
    assert_eq!(
        core.command_attack_unit_to_event(UnitId { id: 0 }, UnitId { id: 1 }),
        Some(CoreEvent::AttackUnit {
            attacker_id: UnitId { id: 0 },
            defender_id: UnitId { id: 1 },
            killed: true,
        })
    );
    assert_eq!(core.dice_source().position(), 1);
    assert_eq!(core.game_state().unit_count(), 3);
    assert_eq!(core.get_event(), None);
}

#[test]
fn events_are_worked_off_first_in_first_out() {
    let mut core = Core::new_empty(board(), Dice::random());
    let create = CoreEvent::CreateUnit {
        unit_id: UnitId { id: 0 },
        pos: MapPos { x: 1, y: 1 },
        type_id: UnitTypeId { id: 0 },
        player_id: PlayerId { id: 0 },
    };
    // the move can be applied only once the unit is there
    let walk = CoreEvent::Move { unit_id: UnitId { id: 0 }, path: vec![MapPos { x: 5, y: 5 }] };
    let end = CoreEvent::EndTurn { old_id: PlayerId { id: 0 }, new_id: PlayerId { id: 1 } };
    let back = CoreEvent::EndTurn { old_id: PlayerId { id: 1 }, new_id: PlayerId { id: 0 } };
    core.do_core_events(vec![create.clone(), walk.clone(), end.clone(), back.clone()]);
    assert_eq!(core.get_unit(&UnitId { id: 0 }).pos, MapPos { x: 5, y: 5 });
    assert_eq!(*core.player_id(), PlayerId { id: 0 });
    assert_eq!(
        drain(&mut core),
        vec![create.clone(), walk.clone(), end.clone(), back.clone()]
    );
    core.do_command(Command::EndTurn);
    let told = drain(&mut core);
    assert_eq!(told[..4].to_vec(), vec![create, walk, end, back]);
    assert_eq!(told.len(), 5);
}

#[test]
fn stale_end_of_turn_leaves_the_turn() {
    let mut core = Core::new_empty(board(), Dice::random());
    let stale = CoreEvent::EndTurn { old_id: PlayerId { id: 1 }, new_id: PlayerId { id: 0 } };
    let unknown = CoreEvent::EndTurn { old_id: PlayerId { id: 0 }, new_id: PlayerId { id: 2 } };
    let end = CoreEvent::EndTurn { old_id: PlayerId { id: 0 }, new_id: PlayerId { id: 1 } };
    // the second of two equal ends of turn is stale when its turn comes
    core.do_core_events(vec![end.clone(), end.clone()]);
    assert_eq!(*core.player_id(), PlayerId { id: 1 });
    core.do_core_event(unknown.clone());
    assert_eq!(*core.player_id(), PlayerId { id: 1 });
    core.do_core_event(stale.clone());
    assert_eq!(*core.player_id(), PlayerId { id: 0 });
    assert_eq!(drain(&mut core), vec![end.clone(), end, unknown, stale]);
    core.do_core_events(vec![]);
    assert_eq!(core.get_event(), None);
}

#[test]
fn one_event_is_worked_off_like_its_command() {
    let mut core = Core::with_dice(Dice::scripted(vec![0]).unwrap());
    drain(&mut core);
    let event = core
        .command_to_event(Command::CreateUnit { pos: MapPos { x: 7, y: 7 } })
        .expect("a new unit is an event");
    assert!(core.game_state().can_apply(core.object_types(), &event));
    core.do_core_event(event.clone());
    assert_eq!(core.get_unit(&UnitId { id: 4 }).pos, MapPos { x: 7, y: 7 });
    assert_eq!(drain(&mut core), vec![event]);
    let off = core
        .command_to_event(Command::CreateUnit { pos: MapPos { x: 70, y: 7 } })
        .expect("a new unit is an event");
    assert!(!core.game_state().can_apply(core.object_types(), &off));
}

#[test]
fn terrain_stays_as_it_is() {
    let mut core = Core::with_dice(Dice::scripted(vec![-5]).unwrap());
    let all_plain = |core: &Core| {
        let map = core.game_state().map();
        for y in 0..MAP_HEIGHT {
            for x in 0..MAP_WIDTH {
                assert_eq!(*map.tile(MapPos { x, y }), Terrain::Plain);
            }
        }
    };
    all_plain(&core);
    drain(&mut core);
    core.do_command(Command::CreateUnit { pos: MapPos { x: 0, y: 0 } });
    core.do_command(Command::Move { unit_id: UnitId { id: 1 }, path: vec![MapPos { x: 1, y: 1 }] });
    core.do_command(Command::AttackUnit {
        attacker_id: UnitId { id: 0 },
        defender_id: UnitId { id: 3 },
    });
    core.do_command(Command::EndTurn);
    drain(&mut core);
    all_plain(&core);
    assert_eq!(core.game_state().map().size(), Size2 { w: MAP_WIDTH, h: MAP_HEIGHT });
}
