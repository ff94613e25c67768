use geofront::combat::{
    order_roll_percent, sync_roll_percent, Action, ActionError, ApplyResult, CombatFx, Grid,
    HitReport, Mission, PilotVerdict, TurnPhase,
};
use geofront::characters::{PilotDramaKind, PilotHudFlash, PilotMood};
use geofront::render::ViewMode;
use geofront::ui::{hud_order, log_order_error, HudAction, HudOrder};
use geofront::units::{AlienKind, Facing, GridPos, LimbKind, Team};

/// Puts an order to the rules for units whose pilots hold no armed refusal.
/// An attack's hit report restates the target's limb facts (these tests do
/// not read limb damage).
fn order(m: &mut Mission, action: Action) -> Result<ApplyResult, ActionError> {
    let hit = match action {
        Action::Attack { target_id, .. } => m.mech(target_id).map(|t| HitReport {
            stride: t.stride,
            arms_spent: t.arms_spent,
            torso_functional: !t.destroyed,
            damage: "0".to_string(),
            sync_note: String::new(),
            core_strike: false,
        }),
        _ => None,
    };
    m.apply_action(action, PilotVerdict::Obeys, hit).result
}

#[test]
fn orthogonal_step_and_action_lock() {
    let mut m = Mission::new_skirmish();
    let start = m.mech(0).unwrap().position;
    assert!(order(
        &mut m,
        Action::Move {
            unit_id: 0,
            to: start.offset(GridPos::new(1, 0))
        }
    )
    .is_ok());
    assert_eq!(m.mech(0).unwrap().facing, Facing::East);
    // Diagonal illegal
    let pos = m.mech(0).unwrap().position;
    assert!(order(
        &mut m,
        Action::Move {
            unit_id: 0,
            to: pos.offset(GridPos::new(1, 1))
        }
    )
    .is_err());
    assert!(order(
        &mut m,
        Action::Attack {
            attacker_id: 0,
            target_id: 10,
            limb: LimbKind::Torso,
        }
    )
    .is_ok());
    // Cannot move after acting
    let pos = m.mech(0).unwrap().position;
    assert!(order(
        &mut m,
        Action::Move {
            unit_id: 0,
            to: pos.offset(GridPos::new(1, 0))
        }
    )
    .is_err());
}

#[test]
fn opening_attack_in_range() {
    let mut m = Mission::new_skirmish();
    let a = m.mech(0).unwrap();
    let b = m.mech(10).unwrap();
    assert!(Grid::manhattan(a.position, b.position) <= a.attack_range());
    assert!(order(
        &mut m,
        Action::Attack {
            attacker_id: 0,
            target_id: 10,
            limb: LimbKind::Torso,
        }
    )
    .is_ok());
}

#[test]
fn skirmish_spawns_alien_archetypes() {
    let m = Mission::new_skirmish();
    let splinter = m.mech(10).unwrap();
    let mass = m.mech(11).unwrap();
    assert_eq!(splinter.alien, Some(AlienKind::Splinter));
    assert_eq!(mass.alien, Some(AlienKind::Mass));
    assert_eq!(splinter.attack_range(), 5);
    assert_eq!(mass.attack_range(), 2);
}

#[test]
fn splinter_kites_when_adjacent() {
    let mut m = Mission::new_skirmish();
    // Place Splinter next to Coil.
    m.mech_mut(10).unwrap().position = GridPos::new(3, 3);
    m.mech_mut(0).unwrap().position = GridPos::new(2, 3);
    m.mech_mut(10).unwrap().refresh_turn();
    m.begin_enemy_turn();
    assert!(
        m.log.iter().any(|l| l.contains("kites")),
        "log: {:?}",
        m.log
    );
    let first_move = m.enemy_queue.iter().find_map(|a| match a {
        Action::Move { unit_id: 10, to } => Some(*to),
        _ => None,
    });
    let to = first_move.expect("Splinter should queue a retreat step");
    assert!(Grid::manhattan(to, GridPos::new(2, 3)) > 1);
}

#[test]
fn mass_closes_when_out_of_range() {
    let mut m = Mission::new_skirmish();
    // Mass far from nearest player, short range 2.
    m.mech_mut(11).unwrap().position = GridPos::new(7, 7);
    m.mech_mut(0).unwrap().position = GridPos::new(1, 1);
    m.mech_mut(1).unwrap().position = GridPos::new(1, 2);
    m.mech_mut(11).unwrap().refresh_turn();
    m.begin_enemy_turn();
    assert!(
        m.log.iter().any(|l| l.contains("advances")),
        "log: {:?}",
        m.log
    );
    assert!(
        m.enemy_queue
            .iter()
            .any(|a| matches!(a, Action::Move { unit_id: 11, .. })),
        "queue: {:?}",
        m.enemy_queue
    );
}

#[test]
fn mass_starts_with_at_field() {
    let m = Mission::new_skirmish();
    assert_eq!(m.mech(11).unwrap().at_field, 2);
    assert_eq!(m.mech(10).unwrap().at_field, 0);
    assert_eq!(m.mech(0).unwrap().at_field, 0);
}

#[test]
fn at_field_absorbs_twice_then_shatters() {
    let mut m = Mission::new_skirmish();
    m.mech_mut(11).unwrap().position = GridPos::new(4, 3);
    assert!(m.check_order(&Action::Attack { attacker_id: 0, target_id: 11, limb: LimbKind::Torso }).is_ok());
    let aim = m.aim(0, 11).unwrap();
    assert!(m.strike(0, 11));
    m.conclude_attack(0, 11, aim);
    assert_eq!(m.mech(11).unwrap().at_field, 1);
    assert_eq!(m.take_fx(), vec![CombatFx::AtFieldAbsorb { target_id: 11 }]);
    assert_eq!(m.log.last().unwrap(), "Coil strikes Mass — AT Field absorbs! (1 left)");
    assert!(m.pending_fx.is_empty());
    let aim = m.aim(1, 11).unwrap();
    assert!(m.strike(1, 11));
    m.conclude_attack(1, 11, aim);
    assert_eq!(m.mech(11).unwrap().at_field, 0);
    assert_eq!(
        m.take_fx(),
        vec![
            CombatFx::AtFieldAbsorb { target_id: 11 },
            CombatFx::AtFieldBreak { target_id: 11 }
        ]
    );
    assert_eq!(m.log.last().unwrap(), "Bastion strikes Mass — AT Field absorbs, then SHATTERS!");
    // Third strike reaches the limbs.
    let log_len = m.log.len();
    assert!(!m.strike(0, 11));
    assert_eq!(m.log.len(), log_len);
    assert!(m.pending_fx.is_empty());
}

#[test]
fn order_errors_come_in_rule_order() {
    let mut m = Mission::new_skirmish();
    let err = |m: &Mission, a: Action| m.check_order(&a).unwrap_err();
    assert_eq!(err(&m, Action::Move { unit_id: 0, to: GridPos::new(-1, 3) }), ActionError::OutOfBounds);
    assert_eq!(err(&m, Action::Move { unit_id: 0, to: GridPos::new(2, 4) }), ActionError::TileOccupied);
    assert_eq!(err(&m, Action::Move { unit_id: 7, to: GridPos::new(0, 0) }), ActionError::UnknownUnit);
    assert_eq!(err(&m, Action::Move { unit_id: 10, to: GridPos::new(6, 3) }), ActionError::NotYourTurn);
    assert_eq!(err(&m, Action::Move { unit_id: 0, to: GridPos::new(4, 3) }), ActionError::NotOrthogonal);
    assert_eq!(err(&m, Action::Attack { attacker_id: 9, target_id: 10, limb: LimbKind::Torso }), ActionError::UnknownAttacker);
    assert_eq!(m.aim(0, 42).unwrap_err(), ActionError::UnknownTarget);
    assert_eq!(m.aim(11, 0).unwrap_err(), ActionError::OutOfRange);
    m.mech_mut(10).unwrap().destroyed = true;
    assert_eq!(m.aim(0, 10).unwrap_err(), ActionError::TargetDestroyed);
    m.mech_mut(10).unwrap().destroyed = false;
    m.commit_wait(0);
    assert_eq!(m.log.last().unwrap(), "Coil holds position.");
    assert_eq!(err(&m, Action::Attack { attacker_id: 0, target_id: 10, limb: LimbKind::Torso }), ActionError::AlreadyActed);
    assert_eq!(err(&m, Action::Rotate { unit_id: 0, facing: Facing::North }), ActionError::CannotRotate);
    assert_eq!(err(&m, Action::Move { unit_id: 0, to: GridPos::new(3, 3) }), ActionError::NoMoveLeft);
    assert_eq!(ActionError::NotOrthogonal.message(), "Must step one tile (orthogonal)");
    assert_eq!(ActionError::NotYourTurn.message(), "Not this team's turn");
}

#[test]
fn step_and_turn_are_logged() {
    let mut m = Mission::new_skirmish();
    assert_eq!(order(&mut m, Action::Move { unit_id: 0, to: GridPos::new(2, 2) }), Ok(ApplyResult::Done));
    assert_eq!(m.mech(0).unwrap().facing, Facing::South);
    assert_eq!(m.mech(0).unwrap().move_left, 1);
    assert_eq!(m.log.last().unwrap(), "Coil steps to (2, 2) facing S  [1 MP]");
    assert_eq!(order(&mut m, Action::Rotate { unit_id: 0, facing: Facing::West }), Ok(ApplyResult::Done));
    assert_eq!(m.log.last().unwrap(), "Coil turns W");
    assert_eq!(order(&mut m, Action::Move { unit_id: 0, to: GridPos::new(1, 2) }), Ok(ApplyResult::Done));
    assert_eq!(m.mech(0).unwrap().move_left, 0);
    assert_eq!(
        m.check_order(&Action::Move { unit_id: 0, to: GridPos::new(0, 2) }),
        Err(ActionError::NoMoveLeft)
    );
}

#[test]
fn attack_faces_target_along_a_row() {
    let mut m = Mission::new_skirmish();
    m.mech_mut(0).unwrap().facing = Facing::North;
    let aim = m.aim(0, 10).unwrap();
    assert!(aim.flanked);
    assert_eq!(aim.distance, 3);
    assert!(!m.strike(0, 10));
    m.conclude_attack(0, 10, aim);
    let c = m.mech(0).unwrap();
    assert_eq!(c.facing, Facing::East);
    assert!(c.acted && c.move_left == 0);
    // A diagonal shot does not turn the attacker.
    let mut m = Mission::new_skirmish();
    let aim = m.aim(1, 11).unwrap();
    assert_eq!(aim.distance, 4);
    assert!(aim.flanked);
    m.mech_mut(1).unwrap().facing = Facing::North;
    m.conclude_attack(1, 11, aim);
    assert_eq!(m.mech(1).unwrap().facing, Facing::North);
}

#[test]
fn destroying_an_enemy_restores_city_protection() {
    let mut m = Mission::new_skirmish();
    m.city_hp = 90;
    let aim = m.aim(0, 10).unwrap();
    assert!(!m.strike(0, 10));
    m.update_from_limbs(10, 3, false, false);
    m.conclude_attack(0, 10, aim);
    assert_eq!(m.city_hp, 92);
    assert!(m.mech(10).unwrap().destroyed);
    let mut m = Mission::new_skirmish();
    m.city_hp = 99;
    let aim = m.aim(0, 10).unwrap();
    m.update_from_limbs(10, 3, false, false);
    m.conclude_attack(0, 10, aim);
    assert_eq!(m.city_hp, 100);
}

#[test]
fn enemy_phase_cycle() {
    let mut m = Mission::new_skirmish();
    m.begin_enemy_turn();
    assert_eq!(m.phase, TurnPhase::Enemy);
    assert_eq!(m.log.last().unwrap(), "Enemy phase.");
    assert!(m.check_order(&Action::Wait { unit_id: 0 }) == Err(ActionError::NotYourTurn));
    let mut popped = 0;
    while let Some(_) = m.pop_enemy_action() {
        popped += 1;
    }
    assert!(popped >= 2);
    assert!(m.pop_enemy_action().is_none());
    m.finish_enemy_turn();
    assert_eq!(m.phase, TurnPhase::Player);
    assert_eq!(m.turn, 2);
    assert_eq!(m.city_hp, 97);
    let n = m.log.len();
    assert_eq!(m.log[n - 2], "City took collateral damage. Protection: 97%");
    assert_eq!(m.log[n - 1], "Turn 2 — your move.");
    assert!(m.mech(0).unwrap().can_act());
}

#[test]
fn city_protection_floors_at_zero_and_loses_the_mission() {
    let mut m = Mission::new_skirmish();
    m.city_hp = 2;
    m.begin_enemy_turn();
    m.finish_enemy_turn();
    assert_eq!(m.city_hp, 0);
    assert!(m.is_lost());
    assert!(!m.is_won());
}

#[test]
fn no_collateral_once_enemies_fall() {
    let mut m = Mission::new_skirmish();
    m.update_from_limbs(10, 3, false, false);
    m.update_from_limbs(11, 1, false, false);
    assert!(m.is_won());
    m.begin_enemy_turn();
    assert!(m.enemy_queue.is_empty());
    m.finish_enemy_turn();
    assert_eq!(m.city_hp, 100);
    assert_eq!(m.log.last().unwrap(), "Turn 2 — your move.");
}

#[test]
fn no_plans_without_player_targets() {
    let mut m = Mission::new_skirmish();
    m.update_from_limbs(0, 2, false, false);
    m.update_from_limbs(1, 2, false, false);
    assert!(m.is_lost());
    let n = m.log.len();
    m.begin_enemy_turn();
    assert!(m.enemy_queue.is_empty());
    assert_eq!(m.log.len(), n);
}

#[test]
fn splinter_attacks_from_range_without_moving() {
    let mut m = Mission::new_skirmish();
    // Splinter at (5,3) is 3 tiles from Coil: inside range 5, outside the
    // kiting band of 2, so it holds and shoots.
    m.begin_enemy_turn();
    let plan: Vec<Action> = m
        .enemy_queue
        .iter()
        .copied()
        .filter(|a| match a {
            Action::Move { unit_id, .. } | Action::Wait { unit_id } => *unit_id == 10,
            Action::Attack { attacker_id, .. } => *attacker_id == 10,
            Action::Rotate { .. } => false,
        })
        .collect();
    assert_eq!(
        plan,
        vec![Action::Attack { attacker_id: 10, target_id: 0, limb: LimbKind::LeftArm }]
    );
    assert_eq!(m.log[m.log.len() - 3], "Splinter kites and harasses.");
    assert_eq!(m.log[m.log.len() - 2], "Mass advances under pressure.");
}

#[test]
fn drama_and_lock_up() {
    let mut m = Mission::new_skirmish();
    let flash = PilotHudFlash::new(
        PilotDramaKind::Refuse,
        &mood(0, "Nori", 0.1, 0.7, 0.8),
        "Nori refuses the attack; Coil locks up.".to_string(),
    );
    m.lock_up(0);
    m.record_drama(0, flash.clone());
    assert!(m.mech(0).unwrap().acted);
    assert_eq!(m.mech(0).unwrap().move_left, 0);
    assert_eq!(m.pilot_flash, Some(flash));
    assert_eq!(m.log.last().unwrap(), "Nori refuses the attack; Coil locks up.");
    assert_eq!(
        m.take_fx(),
        vec![CombatFx::PilotDrama { unit_id: 0, kind: PilotDramaKind::Refuse }]
    );
}

#[test]
fn rolls_are_deterministic_percentages() {
    assert_eq!(order_roll_percent(1, 0), 17);
    assert_eq!(order_roll_percent(5, 0), 85);
    assert_eq!(order_roll_percent(6, 10), 12);
    assert_eq!(sync_roll_percent(1, 0), 31);
    assert_eq!(sync_roll_percent(3, 1), 6);
}

#[test]
fn hud_requests_become_orders() {
    let m = Mission::new_skirmish();
    assert_eq!(
        hud_order(&m, 0, HudAction::Step(Facing::North)),
        HudOrder::Act(Action::Move { unit_id: 0, to: GridPos::new(2, 4) })
    );
    assert_eq!(
        hud_order(&m, 0, HudAction::Rotate(-1)),
        HudOrder::Act(Action::Rotate { unit_id: 0, facing: Facing::North })
    );
    assert_eq!(
        hud_order(&m, 0, HudAction::Rotate(1)),
        HudOrder::Act(Action::Rotate { unit_id: 0, facing: Facing::South })
    );
    assert_eq!(hud_order(&m, 99, HudAction::Step(Facing::North)), HudOrder::Ignore);
    assert_eq!(hud_order(&m, 0, HudAction::Wait), HudOrder::Act(Action::Wait { unit_id: 0 }));
    assert_eq!(hud_order(&m, 0, HudAction::EndTurn), HudOrder::BeginEnemyTurn);
    assert_eq!(hud_order(&m, 0, HudAction::Reset), HudOrder::Reset);
    assert_eq!(
        hud_order(&m, 0, HudAction::SetView(ViewMode::Battle)),
        HudOrder::SetView(ViewMode::Battle)
    );
    let mut m = Mission::new_skirmish();
    m.phase = TurnPhase::Enemy;
    assert_eq!(hud_order(&m, 0, HudAction::EndTurn), HudOrder::Ignore);
}

#[test]
fn living_lists_and_outcome() {
    let mut m = Mission::new_skirmish();
    assert_eq!(
        m.living_mechs(Team::Enemy),
        vec![(10, GridPos::new(5, 3)), (11, GridPos::new(5, 5))]
    );
    assert!(!m.is_won() && !m.is_lost());
    assert!(m.occupied(GridPos::new(2, 3), None));
    assert!(!m.occupied(GridPos::new(2, 3), Some(0)));
    m.update_from_limbs(0, 2, false, false);
    assert!(!m.occupied(GridPos::new(2, 3), None));
    assert_eq!(m.living_mechs(Team::Player), vec![(1, GridPos::new(2, 4))]);
}

/// The mood the drama beats read off a pilot with these stress, sync and
/// loyalty ratios (sync bands at 45% and 85%).
fn mood(id: u32, name: &str, stress: f32, sync: f32, loyalty: f32) -> PilotMood {
    PilotMood {
        pilot_id: id,
        name: name.to_string(),
        stress_critical: stress >= 0.75,
        stress_breaking: stress >= 0.8,
        sync_low: sync <= 0.45,
        sync_high: sync >= 0.85,
        sync_peak: sync >= 0.95,
        loyalty_strained: loyalty < 0.45,
        loyalty_broken: loyalty < 0.4,
        loyalty_firm: loyalty >= 0.7,
        stress_pct: (stress * 100.0).round() as u32,
        sync_pct: (sync * 100.0).round() as u32,
    }
}

/// A hit report that leaves the target with three move points and arms.
fn hit(damage: &str, sync_note: &str, torso_functional: bool) -> HitReport {
    HitReport {
        stride: 3,
        arms_spent: false,
        torso_functional,
        damage: damage.to_string(),
        sync_note: sync_note.to_string(),
        core_strike: false,
    }
}

#[test]
fn refused_order_is_skipped_and_locks_up() {
    let mut m = Mission::new_skirmish();
    m.mech_mut(0).unwrap().refusal_armed = true;
    let line = "Nori: \"I can't move— the sync's gone!\" — sync collapse — refuses the attack! Coil locks up.";
    let out = m.apply_action(
        Action::Attack { attacker_id: 0, target_id: 10, limb: LimbKind::Torso },
        PilotVerdict::Refuses(mood(0, "Nori", 1.0, 0.2, 0.0)),
        Some(hit("60", "", false)),
    );
    assert_eq!(out.result, Ok(ApplyResult::Skipped));
    assert!(out.pilot_consulted);
    assert!(m.mech(0).unwrap().acted);
    assert!(!m.mech(0).unwrap().refusal_armed);
    assert!(!m.mech(10).unwrap().destroyed, "refused attack must not deal damage");
    assert_eq!(m.log.last().unwrap(), line);
    assert_eq!(m.pilot_flash.as_ref().unwrap().caption(), "⛔ ORDER REFUSED");
    assert_eq!(m.take_fx(), vec![CombatFx::PilotDrama { unit_id: 0, kind: PilotDramaKind::Refuse }]);
}

#[test]
fn steadied_pilot_still_obeys() {
    let mut m = Mission::new_skirmish();
    m.mech_mut(0).unwrap().refusal_armed = true;
    let out = m.apply_action(
        Action::Attack { attacker_id: 0, target_id: 10, limb: LimbKind::Torso },
        PilotVerdict::Steadies(mood(0, "Nori", 0.45, 0.64, 0.8)),
        Some(hit("29", "", true)),
    );
    assert_eq!(out.result, Ok(ApplyResult::Done));
    assert!(out.pilot_consulted && !out.absorbed);
    let n = m.log.len();
    assert_eq!(
        m.log[n - 2],
        "Nori: \"…I'm fine. Moving.\" — bites down and steadies — follows the attack."
    );
    let f = m.pilot_flash.as_ref().unwrap();
    assert_eq!(f.kind, PilotDramaKind::Steady);
    assert_eq!(f.dialog, "…I'm fine. Moving.");
    assert_eq!(f.line, m.log[n - 2]);
    assert_eq!(m.log[n - 1], "Coil attacked Splinter (Torso) for 29 dmg");
    assert!(m.mech(0).unwrap().acted);
    assert!(!m.mech(0).unwrap().refusal_armed);
}

#[test]
fn enemy_orders_never_consult_pilots() {
    let mut m = Mission::new_skirmish();
    m.phase = TurnPhase::Enemy;
    m.mech_mut(10).unwrap().refusal_armed = true;
    let out = m.apply_action(
        Action::Wait { unit_id: 10 },
        PilotVerdict::Refuses(mood(0, "Nori", 1.0, 0.2, 0.0)),
        None,
    );
    assert_eq!(out.result, Ok(ApplyResult::Done));
    assert!(!out.pilot_consulted);
    assert_eq!(m.log.last().unwrap(), "Splinter holds position.");
    assert!(m.pilot_flash.is_none());
}

#[test]
fn illegal_order_changes_nothing() {
    let mut m = Mission::new_skirmish();
    m.mech_mut(0).unwrap().refusal_armed = true;
    let n = m.log.len();
    let out = m.apply_action(
        Action::Move { unit_id: 0, to: GridPos::new(3, 4) },
        PilotVerdict::Steadies(mood(0, "Nori", 0.45, 0.64, 0.8)),
        None,
    );
    assert_eq!(out.result, Err(ActionError::NotOrthogonal));
    assert!(!out.pilot_consulted);
    assert_eq!(m.log.len(), n);
    assert_eq!(m.mech(0).unwrap().position, GridPos::new(2, 3));
    assert!(m.mech(0).unwrap().refusal_armed);
}

#[test]
fn killing_hit_destroys_and_restores_city() {
    let mut m = Mission::new_skirmish();
    m.city_hp = 50;
    let out = m.apply_action(
        Action::Attack { attacker_id: 0, target_id: 10, limb: LimbKind::Torso },
        PilotVerdict::Obeys,
        Some(hit("60", "", false)),
    );
    assert_eq!(out.result, Ok(ApplyResult::Done));
    assert!(m.mech(10).unwrap().destroyed);
    assert_eq!(m.city_hp, 52);
    assert_eq!(m.log.last().unwrap(), "Coil attacked Splinter (Torso) for 60 dmg — DESTROYED");
}

#[test]
fn hit_line_names_both_units_limb_and_sync_note() {
    let mut m = Mission::new_skirmish();
    m.apply_action(
        Action::Attack { attacker_id: 1, target_id: 10, limb: LimbKind::LeftArm },
        PilotVerdict::Obeys,
        Some(hit("32", " — CRIT (sync 96%)", true)),
    );
    assert_eq!(
        m.log.last().unwrap(),
        "Bastion attacked Splinter (L.Arm) for 32 dmg — CRIT (sync 96%)"
    );
    assert!(!m.mech(10).unwrap().destroyed);
}

#[test]
fn stress_spike_goes_to_the_crewing_pilot() {
    let mut m = Mission::new_skirmish();
    assert_eq!(m.spiked_pilot(0, true, false), Some(0));
    assert_eq!(m.spiked_pilot(1, false, true), Some(1));
    assert_eq!(m.spiked_pilot(0, false, false), None);
    assert_eq!(m.spiked_pilot(10, true, true), None);
    assert_eq!(m.spiked_pilot(42, true, true), None);
    let n = m.log.len();
    let vesper = mood(1, "Vesper", 0.45, 0.64, 0.8);
    assert!(!m.record_stress_spike(0, &vesper, LimbKind::LeftArm, true, false));
    assert_eq!(m.log.len(), n);
    assert!(m.pilot_flash.is_none());
    let nori = mood(0, "Nori", 0.45, 0.64, 0.8);
    assert!(!m.mech(0).unwrap().refusal_armed);
    assert!(m.record_stress_spike(0, &nori, LimbKind::LeftArm, true, true));
    assert!(m.mech(0).unwrap().refusal_armed);
    assert!(!m.mech(1).unwrap().refusal_armed);
    assert_eq!(
        m.log.last().unwrap(),
        "Nori: \"It hit the field— I'm still here.\" — reels in Coil, L.Arm wrecked, near-death; stress 45% (may refuse next order)"
    );
    let f = m.pilot_flash.as_ref().unwrap();
    assert_eq!(f.caption(), "⚠ PILOT STRESS SPIKE");
    assert_eq!(f.pilot_name, "Nori");
    assert_eq!(
        m.take_fx(),
        vec![CombatFx::PilotDrama { unit_id: 0, kind: PilotDramaKind::StressSpike }]
    );
    assert!(m.record_stress_spike(0, &nori, LimbKind::Torso, false, true));
    assert!(m.log.last().unwrap().ends_with("reels in Coil, near-death; stress 45% (may refuse next order)"));
    assert!(m.record_stress_spike(0, &nori, LimbKind::RightLeg, true, false));
    assert!(m.log.last().unwrap().ends_with("reels in Coil, R.Leg wrecked; stress 45% (may refuse next order)"));
}

#[test]
fn smoke_summary_reports_hits_and_outcome() {
    let mut m = Mission::new_skirmish();
    m.log_smoke_summary(3);
    let n = m.log.len();
    assert_eq!(m.log[n - 2], "SMOKE: player hits=3");
    assert_eq!(m.log[n - 1], "SMOKE: Stopped after 1 turns.");
    m.city_hp = 0;
    m.log_smoke_summary(0);
    assert_eq!(m.log.last().unwrap(), "SMOKE: Mission lost.");
    let mut m = Mission::new_skirmish();
    m.update_from_limbs(10, 3, false, false);
    m.update_from_limbs(11, 1, false, false);
    m.log_smoke_summary(12);
    assert_eq!(m.log.last().unwrap(), "SMOKE: Mission won.");
}

#[test]
fn armed_pilot_is_not_asked_about_an_illegal_target() {
    for (target, range_fix, err) in [
        (42, false, ActionError::UnknownTarget),
        (10, true, ActionError::OutOfRange),
        (11, false, ActionError::TargetDestroyed),
    ] {
        let mut m = Mission::new_skirmish();
        m.mech_mut(0).unwrap().refusal_armed = true;
        if range_fix {
            m.mech_mut(10).unwrap().position = GridPos::new(7, 7);
        }
        m.update_from_limbs(11, 1, false, false);
        let n = m.log.len();
        let out = m.apply_action(
            Action::Attack { attacker_id: 0, target_id: target, limb: LimbKind::Torso },
            PilotVerdict::Refuses(mood(0, "Nori", 1.0, 0.2, 0.0)),
            Some(hit("29", "", true)),
        );
        assert_eq!(out.result, Err(err));
        assert!(!out.pilot_consulted);
        assert!(m.mech(0).unwrap().refusal_armed);
        assert!(!m.mech(0).unwrap().acted);
        assert_eq!(m.log.len(), n);
        assert!(m.pilot_flash.is_none());
    }
}

#[test]
fn armed_refusal_is_spent_once() {
    let mut m = Mission::new_skirmish();
    let nori = mood(0, "Nori", 0.45, 0.64, 0.8);
    assert!(m.record_stress_spike(0, &nori, LimbKind::LeftArm, true, false));
    let n = m.log.len();
    let out = m.apply_action(Action::Rotate { unit_id: 0, facing: Facing::North }, PilotVerdict::Obeys, None);
    assert_eq!(out.result, Ok(ApplyResult::Done));
    assert!(out.pilot_consulted);
    assert!(!m.mech(0).unwrap().refusal_armed);
    assert_eq!(m.log.len(), n + 1);
    assert_eq!(m.log.last().unwrap(), "Coil turns N");
    let out = m.apply_action(
        Action::Rotate { unit_id: 0, facing: Facing::South },
        PilotVerdict::Refuses(mood(0, "Nori", 1.0, 0.2, 0.0)),
        None,
    );
    assert_eq!(out.result, Ok(ApplyResult::Done));
    assert!(!out.pilot_consulted);
    assert_eq!(m.mech(0).unwrap().facing, Facing::South);
}

#[test]
fn mass_at_field_absorbs_then_takes_damage() {
    let mut m = Mission::new_skirmish();
    m.mech_mut(11).unwrap().position = GridPos::new(4, 3);
    let wound = HitReport {
        stride: 0,
        arms_spent: true,
        torso_functional: true,
        damage: "29".to_string(),
        sync_note: String::new(),
        core_strike: false,
    };
    let attack = |a| Action::Attack { attacker_id: a, target_id: 11, limb: LimbKind::Torso };
    let out = m.apply_action(attack(0), PilotVerdict::Obeys, Some(wound.clone()));
    assert_eq!(out.result, Ok(ApplyResult::Done));
    assert!(out.absorbed);
    assert_eq!(m.mech(11).unwrap().at_field, 1);
    assert_eq!(m.mech(11).unwrap().stride, 1, "first hit should be absorbed");
    assert!(m.pending_fx.iter().any(|fx| matches!(fx, CombatFx::AtFieldAbsorb { target_id: 11 })));
    let out = m.apply_action(attack(1), PilotVerdict::Obeys, Some(wound.clone()));
    assert!(out.absorbed);
    assert_eq!(m.mech(11).unwrap().at_field, 0);
    assert!(m.pending_fx.iter().any(|fx| matches!(fx, CombatFx::AtFieldBreak { target_id: 11 })));
    assert_eq!(m.mech(11).unwrap().stride, 1, "shatter absorb still blocks");
    m.finish_enemy_turn();
    m.take_fx();
    let out = m.apply_action(attack(0), PilotVerdict::Obeys, Some(wound));
    assert_eq!(out.result, Ok(ApplyResult::Done));
    assert!(!out.absorbed);
    let mass = m.mech(11).unwrap();
    assert_eq!((mass.stride, mass.arms_spent), (0, true), "third hit should wound");
    assert_eq!(m.log.last().unwrap(), "Coil attacked Mass (Torso) for 29 dmg");
    assert!(m.pending_fx.is_empty());
}

#[test]
fn hud_logs_refused_orders() {
    let mut m = Mission::new_skirmish();
    log_order_error(
        &mut m,
        &Action::Attack { attacker_id: 0, target_id: 11, limb: LimbKind::Torso },
        ActionError::OutOfRange,
    );
    assert_eq!(m.log.last().unwrap(), "Attack failed: Out of range");
    log_order_error(&mut m, &Action::Wait { unit_id: 0 }, ActionError::NotYourTurn);
    assert_eq!(m.log.last().unwrap(), "Not this team's turn");
}

#[test]
fn core_strike_cracks_an_angel_core() {
    let mut m = Mission::new_skirmish();
    let report = HitReport { core_strike: true, ..hit("36", " (high sync ×1.20)", true) };
    let out = m.apply_action(
        Action::Attack { attacker_id: 0, target_id: 10, limb: LimbKind::Torso },
        PilotVerdict::Obeys,
        Some(report.clone()),
    );
    assert_eq!(out.result, Ok(ApplyResult::Done));
    assert_eq!(
        m.log.last().unwrap(),
        "Coil attacked Splinter (Torso) for 36 dmg (high sync ×1.20) — CORE STRIKE"
    );
    assert_eq!(m.take_fx(), vec![CombatFx::CoreStrike { target_id: 10 }]);
    // A mech has no core to read: the flag is ignored.
    m.phase = TurnPhase::Enemy;
    m.apply_action(
        Action::Attack { attacker_id: 10, target_id: 1, limb: LimbKind::LeftArm },
        PilotVerdict::Obeys,
        Some(HitReport { torso_functional: false, ..report }),
    );
    assert_eq!(
        m.log.last().unwrap(),
        "Splinter attacked Bastion (L.Arm) for 36 dmg (high sync ×1.20) — DESTROYED"
    );
    assert!(m.take_fx().is_empty());
}
