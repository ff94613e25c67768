use geofront::render::{
    building_model, building_plan, clip_index, mech_glb_path, BuildingKind, BuildingSlot, MechClip,
    ViewMode,
};
use geofront::text::contains_text;
use geofront::ui::{city_alert, log_tone, CityAlert, LogTone};
use geofront::units::{AlienKind, GridPos, Mech};

#[test]
fn view_labels() {
    assert_eq!(ViewMode::Battle.label(), "Battle");
    assert_eq!(ViewMode::CitySurface.label(), "City — Surface");
    assert_eq!(ViewMode::CityUnderground.label(), "City — Underground");
}

#[test]
fn clip_slots() {
    assert_eq!(clip_index(MechClip::Idle, 15), 5);
    assert_eq!(clip_index(MechClip::Walk, 16), 16);
    assert_eq!(clip_index(MechClip::Punch, 15), 10);
    assert_eq!(clip_index(MechClip::Death, 15), 1);
    assert_eq!(clip_index(MechClip::Hit, 15), 3);
}

#[test]
fn model_paths() {
    let coil = Mech::new_player(0, "Coil", GridPos::new(0, 0));
    let bastion = Mech::new_player(1, "Bastion", GridPos::new(0, 0));
    let mass = Mech::new_alien(11, AlienKind::Mass, GridPos::new(0, 0));
    let splinter = Mech::new_alien(10, AlienKind::Splinter, GridPos::new(0, 0));
    let husk = Mech::new_enemy(3, "Husk", GridPos::new(0, 0));
    assert_eq!(mech_glb_path(&coil), "models/mechs/Stan.glb");
    assert_eq!(mech_glb_path(&bastion), "models/mechs/Mike.glb");
    assert_eq!(mech_glb_path(&mass), "models/mechs/George.glb");
    assert_eq!(mech_glb_path(&splinter), "models/mechs/Leela.glb");
    assert_eq!(mech_glb_path(&husk), "models/mechs/Leela.glb");
}

#[test]
fn substring_search() {
    assert!(contains_text("Coil attacked Splinter", "attacked"));
    assert!(contains_text("abc", ""));
    assert!(contains_text("", ""));
    assert!(!contains_text("", "a"));
    assert!(!contains_text("ab", "abc"));
    assert!(contains_text("aaab", "aab"));
    assert!(contains_text("— SHATTERS!", "SHATTERS"));
    assert!(!contains_text("shatters", "SHATTERS"));
}

#[test]
fn city_alert_bands() {
    assert_eq!(city_alert(100), CityAlert::Secure);
    assert_eq!(city_alert(61), CityAlert::Secure);
    assert_eq!(city_alert(60), CityAlert::Strained);
    assert_eq!(city_alert(31), CityAlert::Strained);
    assert_eq!(city_alert(30), CityAlert::Critical);
    assert_eq!(city_alert(0), CityAlert::Critical);
}

#[test]
fn log_tones_follow_the_log_phrases() {
    assert_eq!(
        log_tone("Coil strikes Mass — AT Field absorbs, then SHATTERS!"),
        LogTone::Shatter
    );
    assert_eq!(log_tone("Coil strikes Mass — AT Field absorbs! (1 left)"), LogTone::AtField);
    assert_eq!(
        log_tone("Nori: \"…I won't. Not yet.\" — refuses the attack; Coil locks up."),
        LogTone::Refusal
    );
    assert_eq!(
        log_tone("Nori: \"x\" — reels in Coil, near-death; stress 45% (may refuse next order)"),
        LogTone::StressSpike
    );
    assert_eq!(
        log_tone("Nori: \"x\" — sees the pattern (sync 96%) — Mass core flashes."),
        LogTone::Pattern
    );
    assert_eq!(
        log_tone("Nori: \"x\" — steadies and follows the attack."),
        LogTone::Steady
    );
    assert_eq!(log_tone("Turn 2 — your move."), LogTone::Plain);
    assert_eq!(log_tone("AT Field recharges on Mass"), LogTone::AtField);
}

#[test]
fn sparse_block_uses_every_other_cell_of_ring_two() {
    let plan = building_plan(8, 8, false);
    assert_eq!(plan.len(), 22);
    assert_eq!(
        plan[0],
        BuildingSlot { x: -2, z: -2, ring: 2, index: 0, kind: BuildingKind::Midrise }
    );
    assert_eq!(
        plan[1],
        BuildingSlot { x: -2, z: 0, ring: 2, index: 1, kind: BuildingKind::Skyscraper }
    );
    assert_eq!(
        plan[21],
        BuildingSlot { x: 9, z: 9, ring: 2, index: 21, kind: BuildingKind::Midrise }
    );
    assert!(plan.iter().all(|b| b.ring == 2 && (b.x + b.z) % 2 == 0));
    assert_eq!(plan.iter().filter(|b| b.kind == BuildingKind::Midrise).count(), 4);
    assert_eq!(building_model(&plan[0]), "models/commercial/building-a.glb");
    assert_eq!(building_model(&plan[1]), "models/commercial/building-skyscraper-b.glb");
}

#[test]
fn dense_canyon_keeps_the_west_approach_open() {
    let plan = building_plan(8, 8, true);
    assert_eq!(plan.len(), 182);
    assert_eq!(
        plan[0],
        BuildingSlot { x: -4, z: -4, ring: 4, index: 0, kind: BuildingKind::Industrial }
    );
    assert_eq!(plan[181].index, 181);
    assert_eq!(plan.iter().filter(|b| b.kind == BuildingKind::Industrial).count(), 29);
    assert_eq!(plan.iter().filter(|b| b.kind == BuildingKind::Midrise).count(), 22);
    assert!(!plan.iter().any(|b| b.x < 0 && b.ring == 1));
    assert!(plan.iter().any(|b| b.x == 8 && b.ring == 1));
    assert!(plan.iter().all(|b| !(0..8).contains(&b.x) || !(0..8).contains(&b.z)));
    assert_eq!(building_model(&plan[0]), "models/industrial/building-a.glb");
    assert!(building_plan(0, 0, false).iter().all(|b| b.ring == 2));
}
