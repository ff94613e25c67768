//! Battle HUD requests and the orders they stand for, and how the HUD
//! reads the city's protection and the combat log.

use vstd::prelude::*;
use vstd::string::*;
use crate::combat::{error_text, find_unit, lemma_find_unit, Action, ActionError, Mission, TurnPhase};
use crate::render::ViewMode;
use crate::text::{contains_text, has_infix};
use crate::units::{
    coord_ok, spec_delta, spec_offset, spec_rotate_ccw, spec_rotate_cw, Facing, LimbKind, Mech,
};

verus! {

/// What the player asked for through the HUD.
#[derive(Debug, Clone, Copy, PartialEq, Eq, Structural)]
pub enum HudAction {
    Attack { attacker: u32, target: u32, limb: LimbKind },
    Step(Facing),
    Rotate(i8),
    Wait,
    EndTurn,
    Reset,
    SetView(ViewMode),
}

/// What the game does about a HUD request.
#[derive(Debug, Clone, Copy, PartialEq, Eq, Structural)]
pub enum HudOrder {
    /// Put this order to the mission.
    Act(Action),
    /// Start the enemy phase.
    BeginEnemyTurn,
    /// Start a fresh skirmish.
    Reset,
    /// Switch the camera view.
    SetView(ViewMode),
    /// Nothing to do.
    Ignore,
}

/// The order a HUD request stands for, with `selected` the selected player
/// mech: steps go one tile along the chosen direction and turns a quarter
/// turn (counter-clockwise for a negative sign) from where the selected
/// mech stands and faces; steps and turns of a missing mech, and ending a
/// turn outside the player phase, do nothing.
pub open spec fn spec_hud_order(m: Mission, selected: u32, hud: HudAction) -> HudOrder {
    let k = find_unit(m.mechs@, selected);
    match hud {
        HudAction::Attack { attacker, target, limb } => HudOrder::Act(
            Action::Attack { attacker_id: attacker, target_id: target, limb },
        ),
        HudAction::Step(dir) => if k == -1 {
            HudOrder::Ignore
        } else {
            HudOrder::Act(
                Action::Move {
                    unit_id: selected,
                    to: spec_offset(m.mechs@[k].position, spec_delta(dir)),
                },
            )
        },
        HudAction::Rotate(sign) => if k == -1 {
            HudOrder::Ignore
        } else {
            let f = m.mechs@[k].facing;
            HudOrder::Act(
                Action::Rotate {
                    unit_id: selected,
                    facing: if sign < 0 {
                        spec_rotate_ccw(f)
                    } else {
                        spec_rotate_cw(f)
                    },
                },
            )
        },
        HudAction::Wait => HudOrder::Act(Action::Wait { unit_id: selected }),
        HudAction::EndTurn => if m.phase == TurnPhase::Player {
            HudOrder::BeginEnemyTurn
        } else {
            HudOrder::Ignore
        },
        HudAction::Reset => HudOrder::Reset,
        HudAction::SetView(mode) => HudOrder::SetView(mode),
    }
}

/// Turn a HUD request into the order it stands for.
pub fn hud_order(m: &Mission, selected: u32, hud: HudAction) -> (r: HudOrder)
    requires
        m.wf(),
    ensures
        r == spec_hud_order(*m, selected, hud),
{
    match hud {
        HudAction::Attack { attacker, target, limb } => HudOrder::Act(
            Action::Attack { attacker_id: attacker, target_id: target, limb },
        ),
        HudAction::Step(dir) => match m.mech(selected) {
            Some(mech) => {
                proof {
                    lemma_find_unit(m.mechs@, selected);
                    assert(coord_ok(m.mechs@[find_unit(m.mechs@, selected)].position));
                }
                HudOrder::Act(Action::Move { unit_id: selected, to: mech.position.offset(dir.delta()) })
            },
            None => HudOrder::Ignore,
        },
        HudAction::Rotate(sign) => match m.mech(selected) {
            Some(mech) => {
                let facing = if sign < 0 {
                    mech.facing.rotate_ccw()
                } else {
                    mech.facing.rotate_cw()
                };
                HudOrder::Act(Action::Rotate { unit_id: selected, facing })
            },
            None => HudOrder::Ignore,
        },
        HudAction::Wait => HudOrder::Act(Action::Wait { unit_id: selected }),
        HudAction::EndTurn => if m.phase == TurnPhase::Player {
            HudOrder::BeginEnemyTurn
        } else {
            HudOrder::Ignore
        },
        HudAction::Reset => HudOrder::Reset,
        HudAction::SetView(mode) => HudOrder::SetView(mode),
    }
}

/// Which battle HUD controls are enabled for the selected player mech.
#[derive(Debug, Clone, Copy, PartialEq, Eq, Structural)]
pub struct HudControls {
    /// End Turn: the player phase of an undecided mission.
    pub can_act: bool,
    /// Step buttons: additionally the selected mech can move.
    pub can_move: bool,
    /// Turn / Attack / Wait buttons: additionally the selected mech can act.
    pub can_fire: bool,
}

/// Work out which HUD controls are enabled.
pub fn hud_controls(m: &Mission, selected: u32) -> (r: HudControls)
    ensures
        r.can_act == (m.phase == TurnPhase::Player && !m.spec_is_won() && !m.spec_is_lost()),
        r.can_move == (r.can_act && find_unit(m.mechs@, selected) != -1 && m.mechs@[find_unit(
            m.mechs@,
            selected,
        )].spec_can_move()),
        r.can_fire == (r.can_act && find_unit(m.mechs@, selected) != -1 && m.mechs@[find_unit(
            m.mechs@,
            selected,
        )].spec_can_act()),
{
    let can_act = m.phase == TurnPhase::Player && !m.is_won() && !m.is_lost();
    let (can_move, can_fire) = match m.mech(selected) {
        Some(mech) => (can_act && mech.can_move(), can_act && mech.can_act()),
        None => (false, false),
    };
    HudControls { can_act, can_move, can_fire }
}

/// The HUD's one-word summary of a unit's turn.
pub open spec fn turn_status_text(m: Mech) -> Seq<char> {
    if m.acted {
        "acted"@
    } else if m.spec_can_move() {
        "can move / attack"@
    } else {
        "can attack or wait"@
    }
}

pub fn turn_status(m: &Mech) -> (r: &'static str)
    ensures
        r@ == turn_status_text(*m),
{
    if m.acted {
        "acted"
    } else if m.can_move() {
        "can move / attack"
    } else {
        "can attack or wait"
    }
}

/// The HUD's name for a phase.
pub open spec fn phase_text(p: TurnPhase) -> Seq<char> {
    match p {
        TurnPhase::Player => "Your phase"@,
        TurnPhase::Enemy => "Enemy phase"@,
    }
}

pub fn phase_label(p: TurnPhase) -> (r: &'static str)
    ensures
        r@ == phase_text(p),
{
    match p {
        TurnPhase::Player => "Your phase",
        TurnPhase::Enemy => "Enemy phase",
    }
}

/// How alarming the city's protection reads on the HUD.
#[derive(Debug, Clone, Copy, PartialEq, Eq, Structural)]
pub enum CityAlert {
    /// More than 60%.
    Secure,
    /// More than 30%, up to 60%.
    Strained,
    /// 30% or less.
    Critical,
}

pub open spec fn spec_city_alert(city_hp: int) -> CityAlert {
    if city_hp > 60 {
        CityAlert::Secure
    } else if city_hp > 30 {
        CityAlert::Strained
    } else {
        CityAlert::Critical
    }
}

/// The alert level of a city protection percentage.
pub fn city_alert(city_hp: i32) -> (r: CityAlert)
    ensures
        r == spec_city_alert(city_hp as int),
{
    if city_hp > 60 {
        CityAlert::Secure
    } else if city_hp > 30 {
        CityAlert::Strained
    } else {
        CityAlert::Critical
    }
}

/// The emphasis the HUD gives a combat-log line.
#[derive(Debug, Clone, Copy, PartialEq, Eq, Structural)]
pub enum LogTone {
    /// An AT Field shatters.
    Shatter,
    /// An AT Field absorbs a strike or recharges.
    AtField,
    /// A pilot refuses an order.
    Refusal,
    /// A pilot's stress spikes.
    StressSpike,
    /// A pilot sees the pattern.
    Pattern,
    /// A pilot steadies.
    Steady,
    /// Anything else.
    Plain,
}

/// The tone of a log line, read off the phrases the combat log uses.
pub open spec fn spec_log_tone(l: Seq<char>) -> LogTone {
    let drama = has_infix(l, "may refuse next order"@) || has_infix(l, "refuses the"@)
        || has_infix(l, "steadies"@) || has_infix(l, "sees the pattern"@);
    if has_infix(l, "SHATTERS"@) || has_infix(l, "AT Field shattered"@) {
        LogTone::Shatter
    } else if has_infix(l, "AT Field recharges"@) || has_infix(l, "AT Field absorbs"@) {
        LogTone::AtField
    } else if drama {
        if has_infix(l, "refuses the"@) {
            LogTone::Refusal
        } else if has_infix(l, "may refuse"@) {
            LogTone::StressSpike
        } else if has_infix(l, "sees the pattern"@) {
            LogTone::Pattern
        } else {
            LogTone::Steady
        }
    } else {
        LogTone::Plain
    }
}

/// The emphasis the HUD gives a combat-log line.
pub fn log_tone(line: &str) -> (r: LogTone)
    ensures
        r == spec_log_tone(line@),
{
    let at_recharge = contains_text(line, "AT Field recharges");
    let at_shatter = contains_text(line, "SHATTERS") || contains_text(line, "AT Field shattered");
    let at_absorb = contains_text(line, "AT Field absorbs");
    let refuses = contains_text(line, "refuses the");
    let drama = contains_text(line, "may refuse next order") || refuses || contains_text(
        line,
        "steadies",
    ) || contains_text(line, "sees the pattern");
    if at_shatter {
        LogTone::Shatter
    } else if at_recharge || at_absorb {
        LogTone::AtField
    } else if drama {
        if refuses {
            LogTone::Refusal
        } else if contains_text(line, "may refuse") {
            LogTone::StressSpike
        } else if contains_text(line, "sees the pattern") {
            LogTone::Pattern
        } else {
            LogTone::Steady
        }
    } else {
        LogTone::Plain
    }
}

/// The log line the HUD writes when the rules refuse an order it put: an
/// attack's error reads "Attack failed: " and the message, any other
/// order's error its message.
pub open spec fn order_error_text(action: Action, e: ActionError) -> Seq<char> {
    match action {
        Action::Attack { .. } => "Attack failed: "@ + error_text(e),
        _ => error_text(e),
    }
}

/// Log why the rules refused an order the HUD put.
pub fn log_order_error(m: &mut Mission, action: &Action, e: ActionError)
    ensures
        final(m).log@ == old(m).log@.push(final(m).log@.last()),
        final(m).log@.last()@ == order_error_text(*action, e),
        *final(m) == (Mission { log: final(m).log, ..*old(m) }),
{
    let line = match action {
        Action::Attack { .. } => {
            let mut line = String::from_str("Attack failed: ");
            line.append(e.message());
            line
        },
        _ => String::from_str(e.message()),
    };
    m.log.push(line);
}

} // verus!
