use geofront::characters::{
    dialog_beat, drama_line, portrait_initials, portrait_rgb, PilotDramaKind, PilotHudFlash,
    PilotMood,
};

/// A pilot's ratios, as the battle keeps them.
struct Ratios {
    stress: f32,
    sync: f32,
    loyalty: f32,
}

/// A fresh pilot: stress 10%, sync 70%, loyalty 80%.
fn fresh() -> Ratios {
    Ratios { stress: 0.1, sync: 0.7, loyalty: 0.8 }
}

/// The mood the drama beats read off a pilot with these ratios (sync bands
/// at 45% and 85%).
fn mood(id: u32, name: &str, r: Ratios) -> PilotMood {
    PilotMood {
        pilot_id: id,
        name: name.to_string(),
        stress_critical: r.stress >= 0.75,
        stress_breaking: r.stress >= 0.8,
        sync_low: r.sync <= 0.45,
        sync_high: r.sync >= 0.85,
        sync_peak: r.sync >= 0.95,
        loyalty_strained: r.loyalty < 0.45,
        loyalty_broken: r.loyalty < 0.4,
        loyalty_firm: r.loyalty >= 0.7,
        stress_pct: (r.stress * 100.0).round() as u32,
        sync_pct: (r.sync * 100.0).round() as u32,
    }
}

#[test]
fn stress_spike_line_mentions_refuse_hint() {
    let p = mood(0, "Nori", fresh());
    let line = drama_line(PilotDramaKind::StressSpike, &p, "Coil", "L.Arm wrecked");
    assert!(line.contains("Nori"));
    assert!(
        line.contains("reels")
            || line.contains("entry plug")
            || line.contains("snaps")
            || line.contains("\"")
    );
    assert!(line.contains("may refuse next order"));
    assert!(line.contains("L.Arm"));
    assert!(line.contains(&dialog_beat(PilotDramaKind::StressSpike, &p)));
}

#[test]
fn refuse_line_locks_up_and_names_order() {
    let p = mood(0, "Nori", Ratios { stress: 1.0, sync: 0.2, loyalty: 0.0 });
    let line = drama_line(PilotDramaKind::Refuse, &p, "Coil", "attack");
    assert!(line.contains("refuses the attack"));
    assert!(line.contains("locks up") || line.contains("freezes"));
    assert!(line.contains("sync collapse") || line.contains("I can't"));
    assert!(line.contains(&dialog_beat(PilotDramaKind::Refuse, &p)));
}

#[test]
fn steady_line_mentions_steadies() {
    let p = mood(0, "Nori", fresh());
    let line = drama_line(PilotDramaKind::Steady, &p, "Coil", "attack");
    assert!(line.contains("steadies"));
    assert!(line.contains("attack"));
    assert!(line.contains("I'm fine") || line.contains("Okay"));
}

#[test]
fn hud_flash_captions() {
    let p = mood(1, "Vesper", fresh());
    let spike = PilotHudFlash::new(PilotDramaKind::StressSpike, &p, "x".to_string());
    assert!(spike.caption().contains("STRESS"));
    assert_eq!(spike.pilot_id, 1);
    assert!(!spike.dialog.is_empty());
    let refuse = PilotHudFlash::new(PilotDramaKind::Refuse, &p, "x".to_string());
    assert!(refuse.caption().contains("REFUSED"));
    let steady = PilotHudFlash::new(PilotDramaKind::Steady, &p, "x".to_string());
    assert!(steady.caption().contains("STEADIED"));
    let core = PilotHudFlash::new(PilotDramaKind::CoreSight, &p, "x".to_string());
    assert!(core.caption().contains("PATTERN"));
}

#[test]
fn high_stress_spike_uses_entry_plug_flavor() {
    let p = mood(0, "Nori", Ratios { stress: 0.9, ..fresh() });
    let line = drama_line(PilotDramaKind::StressSpike, &p, "Coil", "near-death");
    assert!(line.contains("plug") || line.contains("screaming"));
    assert!(line.contains("may refuse next order"));
    assert_eq!(
        dialog_beat(PilotDramaKind::StressSpike, &p),
        "The plug's screaming— make it stop!"
    );
}

#[test]
fn portrait_initials_and_tints_differ_per_pilot() {
    assert_eq!(portrait_initials("Nori"), "N");
    assert_eq!(portrait_initials("Vesper Lane"), "VL");
    assert_ne!(portrait_rgb(0), portrait_rgb(1));
}

#[test]
fn core_sight_dialog_is_sparse_pattern_line() {
    let p = mood(0, "Nori", Ratios { sync: 0.95, ..fresh() });
    let d = dialog_beat(PilotDramaKind::CoreSight, &p);
    assert!(d.contains("pattern") || d.contains("core") || d.contains("flashing"));
    let line = drama_line(PilotDramaKind::CoreSight, &p, "Coil", "Splinter, Mass cores flash");
    assert!(line.contains("sees the pattern"));
    assert!(line.contains(&d));
}

#[test]
fn drama_lines_are_exact() {
    let fresh = mood(0, "Nori", fresh());
    assert_eq!(
        drama_line(PilotDramaKind::StressSpike, &fresh, "Coil", "L.Arm wrecked"),
        "Nori: \"It hit the field— I'm still here.\" — reels in Coil, L.Arm wrecked; stress 10% (may refuse next order)"
    );
    assert_eq!(
        drama_line(PilotDramaKind::Refuse, &fresh, "Coil", "step"),
        "Nori: \"…I won't. Not yet.\" — refuses the step; Coil locks up."
    );
    assert_eq!(
        drama_line(PilotDramaKind::Steady, &fresh, "Coil", "wait"),
        "Nori: \"…I'm fine. Moving.\" — bites down and steadies — follows the wait."
    );
    assert_eq!(
        drama_line(PilotDramaKind::CoreSight, &fresh, "Coil", "Mass core flashes"),
        "Nori: \"Something's flashing… there.\" — sees the pattern (sync 70%) — Mass core flashes."
    );
    let frayed = mood(1, "Vesper", Ratios { stress: 0.45, sync: 0.4, loyalty: 0.8 });
    assert_eq!(
        drama_line(PilotDramaKind::StressSpike, &frayed, "Bastion", "near-death"),
        "Vesper: \"Sync's slipping… I can feel it fray.\" — sync fraying in Bastion, near-death; stress 45% (may refuse next order)"
    );
    let bitter = mood(1, "Vesper", Ratios { stress: 0.45, sync: 0.7, loyalty: 0.42 });
    assert_eq!(
        drama_line(PilotDramaKind::StressSpike, &bitter, "Bastion", "near-death"),
        "Vesper: \"You felt that too, right? Don't lie.\" — snaps at Command from Bastion, near-death; stress 45% (may refuse next order)"
    );
    assert_eq!(
        drama_line(PilotDramaKind::Steady, &bitter, "Bastion", "attack"),
        "Vesper: \"Okay. Okay— following.\" — steadies and follows the attack."
    );
    let panicked = mood(0, "Nori", Ratios { stress: 0.85, sync: 0.7, loyalty: 0.8 });
    assert_eq!(
        drama_line(PilotDramaKind::Refuse, &panicked, "Coil", "attack"),
        "Nori: \"I said I can't— don't order me!\" — refuses the attack! Coil freezes."
    );
    let defiant = mood(0, "Nori", Ratios { stress: 0.5, sync: 0.7, loyalty: 0.3 });
    assert_eq!(
        drama_line(PilotDramaKind::Refuse, &defiant, "Coil", "turn"),
        "Nori: \"Not this. Find another pilot.\" — overrides Command — refuses the turn; Coil locks up."
    );
}

#[test]
fn flash_carries_pilot_and_beat() {
    let p = mood(1, "Vesper", Ratios { sync: 0.96, ..fresh() });
    let f = PilotHudFlash::new(PilotDramaKind::CoreSight, &p, "line".to_string());
    assert_eq!(f.kind, PilotDramaKind::CoreSight);
    assert_eq!(f.pilot_id, 1);
    assert_eq!(f.pilot_name, "Vesper");
    assert_eq!(f.line, "line");
    assert_eq!(f.dialog, "There— the pattern. I see the core.");
}

#[test]
fn captions_are_exact() {
    let p = mood(0, "Nori", fresh());
    let mk = |k| PilotHudFlash::new(k, &p, String::new());
    assert_eq!(mk(PilotDramaKind::StressSpike).caption(), "⚠ PILOT STRESS SPIKE");
    assert_eq!(mk(PilotDramaKind::Refuse).caption(), "⛔ ORDER REFUSED");
    assert_eq!(mk(PilotDramaKind::Steady).caption(), "✓ PILOT STEADIED");
    assert_eq!(mk(PilotDramaKind::CoreSight).caption(), "✦ PATTERN SIGHT");
}

#[test]
fn initials_skip_extra_whitespace_and_upper_case() {
    assert_eq!(portrait_initials("  vesper \t lane  "), "VL");
    assert_eq!(portrait_initials("nori"), "N");
    assert_eq!(portrait_initials("asuka langley soryu"), "AL");
    assert_eq!(portrait_initials("\u{3000}rei\u{00A0}ayanami"), "RA");
    assert_eq!(portrait_initials("ésa"), "é");
    assert_eq!(portrait_initials("ana b c"), "AB");
    assert_eq!(portrait_initials(" \tnori  "), "N");
}

#[test]
fn initials_of_blank_name_is_question_mark() {
    assert_eq!(portrait_initials(""), "?");
    assert_eq!(portrait_initials("   \n "), "?");
}

#[test]
fn portrait_tints_cycle_every_six_ids() {
    assert_eq!(portrait_rgb(0), [72, 168, 210]);
    assert_eq!(portrait_rgb(1), [210, 110, 170]);
    assert_eq!(portrait_rgb(5), [200, 120, 90]);
    assert_eq!(portrait_rgb(6), portrait_rgb(0));
    assert_eq!(portrait_rgb(13), portrait_rgb(1));
}
