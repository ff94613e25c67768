use geofront::units::{move_multiplier, AlienKind, Facing, GridPos, LimbKind, Mech, Team};

#[test]
fn facing_rotations_undo_each_other() {
    for f in [Facing::North, Facing::East, Facing::South, Facing::West] {
        assert_eq!(f.rotate_cw().rotate_ccw(), f);
        assert_eq!(f.rotate_ccw().rotate_cw(), f);
        assert_eq!(f.rotate_cw().rotate_cw().rotate_cw().rotate_cw(), f);
        assert_eq!(Facing::from_delta(f.delta()), Some(f));
    }
    assert_eq!(Facing::North.rotate_cw(), Facing::East);
    assert_eq!(Facing::North.rotate_ccw(), Facing::West);
}

#[test]
fn facing_deltas_and_labels() {
    assert_eq!(Facing::North.delta(), GridPos::new(0, 1));
    assert_eq!(Facing::West.delta(), GridPos::new(-1, 0));
    assert_eq!(Facing::South.label(), "S");
    assert_eq!(Facing::from_delta(GridPos::new(0, -5)), Some(Facing::South));
    assert_eq!(Facing::from_delta(GridPos::new(3, 0)), Some(Facing::East));
    assert_eq!(Facing::from_delta(GridPos::new(1, 1)), None);
    assert_eq!(Facing::from_delta(GridPos::new(0, 0)), None);
}

#[test]
fn limb_and_alien_labels() {
    assert_eq!(LimbKind::LeftArm.label(), "L.Arm");
    assert_eq!(LimbKind::RightLeg.label(), "R.Leg");
    assert_eq!(AlienKind::Splinter.label(), "Splinter");
    assert_eq!(AlienKind::Mass.label(), "Mass");
}

#[test]
fn spawned_units_get_move_points_by_kind() {
    let p = Mech::new_player(0, "Coil", GridPos::new(0, 0));
    assert_eq!(p.team, Team::Player);
    assert_eq!(p.facing, Facing::East);
    assert_eq!(p.move_left, 2);
    assert!(p.can_move() && p.can_act());
    let s = Mech::new_alien(10, AlienKind::Splinter, GridPos::new(1, 1));
    assert_eq!(s.name, "Splinter");
    assert_eq!(s.move_left, 3);
    let mass = Mech::new_alien(11, AlienKind::Mass, GridPos::new(1, 1));
    assert_eq!(mass.move_left, 1);
    assert_eq!(mass.at_field, 2);
    let e = Mech::new_enemy(12, "Husk", GridPos::new(2, 2));
    assert_eq!(e.facing, Facing::West);
    assert_eq!(e.team, Team::Enemy);
    assert_eq!(move_multiplier(None), 2);
}

#[test]
fn at_field_absorbs_exactly_its_charges() {
    let mut mass = Mech::new_alien(11, AlienKind::Mass, GridPos::new(1, 1));
    assert!(mass.try_absorb_at_field());
    assert_eq!(mass.at_field, 1);
    assert!(mass.try_absorb_at_field());
    assert_eq!(mass.at_field, 0);
    assert!(!mass.try_absorb_at_field());
    assert_eq!(mass.at_field, 0);
}

#[test]
fn wrecked_torso_destroys_and_spends_turn() {
    let mut m = Mech::new_player(0, "Coil", GridPos::new(0, 0));
    m.update_from_limbs(2, false, false);
    assert!(m.destroyed);
    assert_eq!(m.move_left, 0);
    assert!(m.acted);
    assert!(!m.can_act());
    m.refresh_turn();
    assert!(!m.can_act() && !m.can_move());
    let mut mass = Mech::new_alien(11, AlienKind::Mass, GridPos::new(1, 1));
    mass.update_from_limbs(1, false, false);
    assert!(!mass.try_absorb_at_field(), "a wreck no longer deflects");
}

#[test]
fn refresh_grants_stride_but_at_least_one() {
    let mut m = Mech::new_player(0, "Coil", GridPos::new(0, 0));
    m.update_from_limbs(0, false, true);
    m.acted = true;
    m.refresh_turn();
    assert_eq!(m.move_left, 1);
    assert!(!m.acted);
    m.update_from_limbs(2, false, true);
    m.refresh_turn();
    assert_eq!(m.move_left, 2);
}

#[test]
fn attack_range_drops_to_one_with_spent_arms() {
    let mut s = Mech::new_alien(10, AlienKind::Splinter, GridPos::new(1, 1));
    assert_eq!(s.attack_range(), 5);
    assert_eq!(s.preferred_attack_limb(), LimbKind::LeftArm);
    s.update_from_limbs(3, true, true);
    assert_eq!(s.attack_range(), 1);
    let p = Mech::new_player(0, "Coil", GridPos::new(0, 0));
    assert_eq!(p.attack_range(), 4);
    assert_eq!(p.preferred_attack_limb(), LimbKind::Torso);
}
