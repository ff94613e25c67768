//! Turn manager: grid, orders and their legality, AT Field strikes, the
//! enemy phase planner and the turn cycle.

use vstd::prelude::*;
use vstd::string::*;
use crate::characters::{
    drama_line, drama_text, shows_beat, PilotDramaKind, PilotHudFlash, PilotMood,
};
use crate::text::{append_decimal, decimal_text};
use crate::units::{
    absorbs, adjacent, after_strike, coord_ok, facing_label_text, fresh_move_points,
    limb_label_text, refreshed, sign, sign_of_difference, spawned, spec_attack_range, spec_delta,
    spec_from_delta, spec_offset, spec_preferred_limb, spent_arms_reach_one_tile, AlienKind, Facing, GridPos, LimbKind, Mech,
    Team, COORD_LIMIT,
};

verus! {

#[derive(Debug)]
pub struct Grid {
    pub width: i32,
    pub height: i32,
}

/// `pos` lies on a `width` x `height` grid anchored at the origin.
pub open spec fn spec_in_bounds(width: i32, height: i32, pos: GridPos) -> bool {
    0 <= pos.x < width && 0 <= pos.y < height
}

/// Manhattan distance between two tiles.
pub open spec fn spec_manhattan(a: GridPos, b: GridPos) -> int {
    (vstd::math::abs(a.x - b.x) + vstd::math::abs(a.y - b.y)) as int
}

impl Grid {
    pub fn new(width: i32, height: i32) -> (g: Grid)
        ensures
            g.width == width,
            g.height == height,
    {
        Grid { width, height }
    }

    pub fn in_bounds(&self, pos: GridPos) -> (r: bool)
        ensures
            r == spec_in_bounds(self.width, self.height, pos),
    {
        pos.x >= 0 && pos.y >= 0 && pos.x < self.width && pos.y < self.height
    }

    /// Manhattan distance; defined when it fits an `i32`.
    pub fn manhattan(a: GridPos, b: GridPos) -> (d: i32)
        requires
            spec_manhattan(a, b) <= i32::MAX,
        ensures
            d == spec_manhattan(a, b),
    {
        let dx: i32 = if a.x >= b.x {
            a.x - b.x
        } else {
            b.x - a.x
        };
        let dy: i32 = if a.y >= b.y {
            a.y - b.y
        } else {
            b.y - a.y
        };
        dx + dy
    }
}

/// Manhattan distance is a metric on tiles: zero exactly on equal tiles,
/// symmetric, and obeying the triangle inequality.
pub proof fn manhattan_is_metric(a: GridPos, b: GridPos, c: GridPos)
    ensures
        spec_manhattan(a, b) >= 0,
        spec_manhattan(a, b) == 0 <==> a == b,
        spec_manhattan(a, b) == spec_manhattan(b, a),
        spec_manhattan(a, c) <= spec_manhattan(a, b) + spec_manhattan(b, c),
{
}

/// Two tiles within `COORD_LIMIT` of the origin are at most `4 * COORD_LIMIT`
/// apart, so their distance fits an `i32`.
pub proof fn distance_fits(a: GridPos, b: GridPos)
    requires
        coord_ok(a),
        coord_ok(b),
    ensures
        spec_manhattan(a, b) <= 4 * COORD_LIMIT,
        spec_manhattan(a, b) <= i32::MAX,
{
}

#[derive(Debug, Clone, Copy, PartialEq, Eq, Structural)]
pub enum TurnPhase {
    Player,
    Enemy,
}

#[derive(Debug, Clone, Copy, PartialEq, Eq, Structural)]
pub enum Action {
    /// One orthogonal step.
    Move { unit_id: u32, to: GridPos },
    Rotate { unit_id: u32, facing: Facing },
    Attack { attacker_id: u32, target_id: u32, limb: LimbKind },
    Wait { unit_id: u32 },
}

/// Outcome of a legal order. `Skipped` is a pilot refuse (unit locks up).
#[derive(Debug, Clone, Copy, PartialEq, Eq, Structural)]
pub enum ApplyResult {
    Done,
    Skipped,
}

/// One-shot presentation hooks drained by the battle view after an order.
#[derive(Debug, Clone, Copy, PartialEq, Eq, Structural)]
pub enum CombatFx {
    /// Cyan AT Field deflect on the target (no limb damage).
    AtFieldAbsorb { target_id: u32 },
    /// Last charge spent — field shatters.
    AtFieldBreak { target_id: u32 },
    /// Pilot psychology beat (stress spike / refuse / steady) for HUD flash.
    PilotDrama { unit_id: u32, kind: PilotDramaKind },
    /// A high-sync strike cracks an Angel's core.
    CoreStrike { target_id: u32 },
}

/// Why an order was refused by the rules.
#[derive(Debug, Clone, Copy, PartialEq, Eq, Structural)]
pub enum ActionError {
    OutOfBounds,
    TileOccupied,
    UnknownUnit,
    NotYourTurn,
    NoMoveLeft,
    NotOrthogonal,
    CannotRotate,
    UnknownAttacker,
    AttackerDestroyed,
    AlreadyActed,
    UnknownTarget,
    TargetDestroyed,
    OutOfRange,
    Destroyed,
}

/// The message an order error is reported with.
pub open spec fn error_text(e: ActionError) -> Seq<char> {
    match e {
        ActionError::OutOfBounds => "Out of bounds"@,
        ActionError::TileOccupied => "Tile occupied"@,
        ActionError::UnknownUnit => "Unknown unit"@,
        ActionError::NotYourTurn => "Not this team's turn"@,
        ActionError::NoMoveLeft => "No move left"@,
        ActionError::NotOrthogonal => "Must step one tile (orthogonal)"@,
        ActionError::CannotRotate => "Cannot rotate"@,
        ActionError::UnknownAttacker => "Unknown attacker"@,
        ActionError::AttackerDestroyed => "Attacker destroyed"@,
        ActionError::AlreadyActed => "Already acted"@,
        ActionError::UnknownTarget => "Unknown target"@,
        ActionError::TargetDestroyed => "Target already destroyed"@,
        ActionError::OutOfRange => "Out of range"@,
        ActionError::Destroyed => "Destroyed"@,
    }
}

impl ActionError {
    pub fn message(self) -> (r: &'static str)
        ensures
            r@ == error_text(self),
    {
        match self {
            ActionError::OutOfBounds => "Out of bounds",
            ActionError::TileOccupied => "Tile occupied",
            ActionError::UnknownUnit => "Unknown unit",
            ActionError::NotYourTurn => "Not this team's turn",
            ActionError::NoMoveLeft => "No move left",
            ActionError::NotOrthogonal => "Must step one tile (orthogonal)",
            ActionError::CannotRotate => "Cannot rotate",
            ActionError::UnknownAttacker => "Unknown attacker",
            ActionError::AttackerDestroyed => "Attacker destroyed",
            ActionError::AlreadyActed => "Already acted",
            ActionError::UnknownTarget => "Unknown target",
            ActionError::TargetDestroyed => "Target already destroyed",
            ActionError::OutOfRange => "Out of range",
            ActionError::Destroyed => "Destroyed",
        }
    }
}

/// Index of the first unit in `s` (from `k` on) with the given id, or -1.
pub open spec fn find_from(s: Seq<Mech>, id: u32, k: int) -> int
    decreases s.len() - k,
{
    if k < 0 || k >= s.len() {
        -1
    } else if s[k].id == id {
        k
    } else {
        find_from(s, id, k + 1)
    }
}

/// Index of the first unit in `s` with the given id, or -1.
pub open spec fn find_unit(s: Seq<Mech>, id: u32) -> int {
    find_from(s, id, 0)
}

proof fn lemma_find_from(s: Seq<Mech>, id: u32, k: int)
    requires
        0 <= k <= s.len(),
    ensures
        find_from(s, id, k) == -1 ==> forall|j: int| k <= j < s.len() ==> s[j].id != id,
        find_from(s, id, k) != -1 ==> k <= find_from(s, id, k) < s.len() && s[find_from(
            s,
            id,
            k,
        )].id == id && forall|j: int| k <= j < find_from(s, id, k) ==> s[j].id != id,
    decreases s.len() - k,
{
    if k < s.len() && s[k].id != id {
        lemma_find_from(s, id, k + 1);
    }
}

/// What `find_unit` returns: -1 when no unit has the id, otherwise the index
/// of the first unit that has it.
pub proof fn lemma_find_unit(s: Seq<Mech>, id: u32)
    ensures
        find_unit(s, id) == -1 <==> forall|j: int| 0 <= j < s.len() ==> s[j].id != id,
        find_unit(s, id) != -1 ==> 0 <= find_unit(s, id) < s.len() && s[find_unit(s, id)].id
            == id && forall|j: int| 0 <= j < find_unit(s, id) ==> s[j].id != id,
{
    lemma_find_from(s, id, 0);
}

proof fn lemma_find_from_same_ids(s1: Seq<Mech>, s2: Seq<Mech>, id: u32, k: int)
    requires
        s1.len() == s2.len(),
        forall|i: int| 0 <= i < s1.len() ==> (#[trigger] s1[i]).id == s2[i].id,
    ensures
        find_from(s1, id, k) == find_from(s2, id, k),
    decreases s1.len() - k,
{
    if 0 <= k < s1.len() {
        lemma_find_from_same_ids(s1, s2, id, k + 1);
    }
}

/// Unit lists with the same ids in the same places find the same unit.
pub proof fn lemma_find_same_ids(s1: Seq<Mech>, s2: Seq<Mech>, id: u32)
    requires
        s1.len() == s2.len(),
        forall|i: int| 0 <= i < s1.len() ==> (#[trigger] s1[i]).id == s2[i].id,
    ensures
        find_unit(s1, id) == find_unit(s2, id),
{
    lemma_find_from_same_ids(s1, s2, id, 0);
}

/// Some standing unit other than `ignore` stands on `pos`.
pub open spec fn spec_occupied(s: Seq<Mech>, pos: GridPos, ignore: Option<u32>) -> bool {
    exists|i: int|
        0 <= i < s.len() && !(#[trigger] s[i]).destroyed && s[i].position == pos && Some(s[i].id)
            != ignore
}

/// Some unit of `team` is still standing.
pub open spec fn any_living(s: Seq<Mech>, team: Team) -> bool {
    exists|i: int| 0 <= i < s.len() && (#[trigger] s[i]).team == team && !s[i].destroyed
}

/// The team whose turn it is in `phase`.
pub open spec fn phase_team(phase: TurnPhase) -> Team {
    match phase {
        TurnPhase::Player => Team::Player,
        TurnPhase::Enemy => Team::Enemy,
    }
}

/// Combat-log line for a step.
pub open spec fn step_text(name: Seq<char>, to: GridPos, face: Facing, mp: i32) -> Seq<char> {
    name + " steps to ("@ + decimal_text(to.x as int) + ", "@ + decimal_text(to.y as int)
        + ") facing "@ + facing_label_text(face) + "  ["@ + decimal_text(mp as int) + " MP]"@
}

/// Combat-log line for a turn in place.
pub open spec fn turn_text(name: Seq<char>, face: Facing) -> Seq<char> {
    name + " turns "@ + facing_label_text(face)
}

/// Combat-log line for a wait.
pub open spec fn hold_text(name: Seq<char>) -> Seq<char> {
    name + " holds position."@
}

/// Combat-log line for a strike the AT Field absorbs, with `left` charges
/// remaining afterwards.
pub open spec fn absorb_text(name: Seq<char>, target: Seq<char>, left: u8) -> Seq<char> {
    if left == 0 {
        name + " strikes "@ + target + " — AT Field absorbs, then SHATTERS!"@
    } else {
        name + " strikes "@ + target + " — AT Field absorbs! ("@ + decimal_text(left as int)
            + " left)"@
    }
}

/// The facing a unit takes after stepping from `from` to `to` (it keeps
/// `current` if the step is not along an axis).
pub open spec fn facing_after_step(from: GridPos, to: GridPos, current: Facing) -> Facing {
    match spec_from_delta(GridPos { x: (to.x - from.x) as i32, y: (to.y - from.y) as i32 }) {
        Some(f) => f,
        None => current,
    }
}

/// Geometry of a legal attack, read before damage is dealt.
#[derive(Debug, Clone, Copy, PartialEq, Eq, Structural)]
pub struct Aim {
    pub attacker_pos: GridPos,
    pub target_pos: GridPos,
    pub distance: i32,
    /// The attacker does not face the target (bonus damage is lost).
    pub flanked: bool,
}

/// Unit step from `a` toward `b`, one sign per axis.
pub open spec fn toward(a: GridPos, b: GridPos) -> GridPos {
    GridPos { x: sign(b.x - a.x) as i32, y: sign(b.y - a.y) as i32 }
}

/// What the movement rules read of a mission: the grid and the units.
pub struct Board {
    pub width: i32,
    pub height: i32,
    pub mechs: Seq<Mech>,
}

impl Board {
    /// The grid fits within `COORD_LIMIT`.
    pub open spec fn wf(&self) -> bool {
        0 <= self.width <= COORD_LIMIT && 0 <= self.height <= COORD_LIMIT
    }

    /// `next` is a real move for unit `eid`: a different, in-bounds tile
    /// that no other standing unit holds.
    pub open spec fn free_step(&self, from: GridPos, next: GridPos, eid: u32) -> bool {
        &&& next != from
        &&& spec_in_bounds(self.width, self.height, next)
        &&& !spec_occupied(self.mechs, next, Some(eid))
    }

    /// The first free candidate step from `from` toward `to`, if any.
    pub open spec fn spec_step_toward(&self, from: GridPos, to: GridPos, eid: u32) -> Option<GridPos> {
        let (c0, c1) = toward_candidates(from, to);
        if self.free_step(from, c0, eid) {
            Some(c0)
        } else if self.free_step(from, c1, eid) {
            Some(c1)
        } else {
            None
        }
    }

    /// The farthest tile from `threat` among the first `k` compass
    /// neighbours of `from` (in `dir_at` order) that are in bounds and free,
    /// with its distance; an earlier tile wins ties.
    pub open spec fn away_best(&self, from: GridPos, threat: GridPos, eid: u32, k: int) -> Option<(GridPos, int)>
        decreases k,
    {
        if k <= 0 {
            None
        } else {
            let prev = self.away_best(from, threat, eid, k - 1);
            let next = spec_offset(from, spec_delta(dir_at(k - 1)));
            if !spec_in_bounds(self.width, self.height, next) || spec_occupied(
                self.mechs,
                next,
                Some(eid),
            ) {
                prev
            } else {
                let d = spec_manhattan(next, threat);
                match prev {
                    None => Some((next, d)),
                    Some(best) => if d > best.1 {
                        Some((next, d))
                    } else {
                        prev
                    },
                }
            }
        }
    }

    /// The retreat step from `from` away from `threat`: the free compass
    /// neighbour farthest from the threat (first in N, E, S, W order on ties).
    pub open spec fn spec_step_away(&self, from: GridPos, threat: GridPos, eid: u32) -> Option<GridPos> {
        match self.away_best(from, threat, eid, 4) {
            Some(best) => Some(best.0),
            None => None,
        }
    }

    /// Tiles a Splinter at `epos` with `mp` move points walks through, in
    /// order: while it has move points, it retreats when within two tiles of
    /// its target (if it can), else closes in while out of `range` (if it
    /// can), else stops.
    pub open spec fn splinter_path(
        &self,
        eid: u32,
        epos: GridPos,
        mp: int,
        range: int,
        tpos: GridPos,
    ) -> Seq<GridPos>
        decreases mp,
    {
        if mp <= 0 {
            seq![]
        } else {
            let d = spec_manhattan(epos, tpos);
            let away = if d <= 2 {
                self.spec_step_away(epos, tpos, eid)
            } else {
                None
            };
            match away {
                Some(n) => seq![n] + self.splinter_path(eid, n, mp - 1, range, tpos),
                None => if d > range {
                    match self.spec_step_toward(epos, tpos, eid) {
                        Some(n) => seq![n] + self.splinter_path(eid, n, mp - 1, range, tpos),
                        None => seq![],
                    }
                } else {
                    seq![]
                },
            }
        }
    }

    /// Tiles a Mass (or generic enemy) walks through: while it has move
    /// points and is out of `range`, it steps toward its target if it can.
    pub open spec fn pressure_path(
        &self,
        eid: u32,
        epos: GridPos,
        mp: int,
        range: int,
        tpos: GridPos,
    ) -> Seq<GridPos>
        decreases mp,
    {
        if mp <= 0 || spec_manhattan(epos, tpos) <= range {
            seq![]
        } else {
            match self.spec_step_toward(epos, tpos, eid) {
                Some(n) => seq![n] + self.pressure_path(eid, n, mp - 1, range, tpos),
                None => seq![],
            }
        }
    }

    /// The walk an enemy of `kind` plans.
    pub open spec fn enemy_path(
        &self,
        eid: u32,
        epos: GridPos,
        mp: int,
        range: int,
        kind: Option<AlienKind>,
        tpos: GridPos,
    ) -> Seq<GridPos> {
        match kind {
            Some(AlienKind::Splinter) => self.splinter_path(eid, epos, mp, range, tpos),
            _ => self.pressure_path(eid, epos, mp, range, tpos),
        }
    }

    /// The limb an enemy aims for: its preferred limb, or the torso if the
    /// unit is unknown.
    pub open spec fn planned_limb(&self, eid: u32) -> LimbKind {
        let k = find_unit(self.mechs, eid);
        if k == -1 {
            LimbKind::Torso
        } else {
            spec_preferred_limb(self.mechs[k].alien)
        }
    }

    /// The actions an enemy plans: one `Move` per tile of its walk, then an
    /// `Attack` on the target if the walk ends within range, else a `Wait`.
    pub open spec fn spec_plan(
        &self,
        eid: u32,
        epos: GridPos,
        mp: int,
        range: int,
        kind: Option<AlienKind>,
        tid: u32,
        tpos: GridPos,
    ) -> Seq<Action> {
        let path = self.enemy_path(eid, epos, mp, range, kind, tpos);
        let end = if path.len() == 0 {
            epos
        } else {
            path.last()
        };
        let last = if spec_manhattan(end, tpos) <= range {
            Action::Attack { attacker_id: eid, target_id: tid, limb: self.planned_limb(eid) }
        } else {
            Action::Wait { unit_id: eid }
        };
        path.map_values(|p: GridPos| Action::Move { unit_id: eid, to: p }) + seq![last]
    }

    /// The plan of enemy `eid` against the nearest of `players`, read from
    /// the first unit with that id (nothing if there is none).
    pub open spec fn plan_for(&self, players: Seq<(u32, GridPos)>, eid: u32) -> Seq<Action> {
        let k = find_unit(self.mechs, eid);
        if k == -1 {
            seq![]
        } else {
            let e = self.mechs[k];
            let target = nearest(players, e.position);
            self.spec_plan(
                eid,
                e.position,
                e.move_left as int,
                spec_attack_range(e.alien, e.arms_spent) as int,
                e.alien,
                target.0,
                target.1,
            )
        }
    }

    /// The plans of the first `n` enemies of `ids`, one after another.
    pub open spec fn plans_upto(&self, players: Seq<(u32, GridPos)>, ids: Seq<(u32, GridPos)>, n: int) -> Seq<Action>
        decreases n,
    {
        if n <= 0 {
            seq![]
        } else {
            self.plans_upto(players, ids, n - 1) + self.plan_for(players, ids[n - 1].0)
        }
    }

    /// The intent line an enemy announces: Splinters kite, Masses advance,
    /// generic enemies say nothing.
    pub open spec fn intent_for(&self, eid: u32) -> Seq<Seq<char>> {
        let k = find_unit(self.mechs, eid);
        if k == -1 {
            seq![]
        } else {
            let e = self.mechs[k];
            match e.alien {
                Some(AlienKind::Splinter) => seq![e.name@ + " kites and harasses."@],
                Some(AlienKind::Mass) => seq![e.name@ + " advances under pressure."@],
                None => seq![],
            }
        }
    }

    /// The intent lines of the first `n` enemies of `ids`.
    pub open spec fn intents_upto(&self, ids: Seq<(u32, GridPos)>, n: int) -> Seq<Seq<char>>
        decreases n,
    {
        if n <= 0 {
            seq![]
        } else {
            self.intents_upto(ids, n - 1) + self.intent_for(ids[n - 1].0)
        }
    }

    /// The first `k` compass neighbours of `from` (N, E, S, W order) that are
    /// in bounds and not held by a standing unit other than `eid`.
    pub open spec fn free_neighbours(&self, from: GridPos, eid: u32, k: int) -> Seq<GridPos>
        decreases k,
    {
        if k <= 0 {
            seq![]
        } else {
            let prev = self.free_neighbours(from, eid, k - 1);
            let next = spec_offset(from, spec_delta(dir_at(k - 1)));
            if spec_in_bounds(self.width, self.height, next) && !spec_occupied(self.mechs, next, Some(eid)) {
                prev.push(next)
            } else {
                prev
            }
        }
    }
}

#[derive(Debug)]
pub struct Mission {
    pub grid: Grid,
    pub mechs: Vec<Mech>,
    pub phase: TurnPhase,
    pub turn: u32,
    /// City protection in percent.
    pub city_hp: i32,
    pub log: Vec<String>,
    /// Enemy actions still to play out (one at a time for presentation).
    pub enemy_queue: Vec<Action>,
    /// Presentation FX produced by the last applied action(s).
    pub pending_fx: Vec<CombatFx>,
    /// Last pilot drama beat for a short HUD flash.
    pub pilot_flash: Option<PilotHudFlash>,
}

impl Mission {
    /// The grid and every unit position stay within `COORD_LIMIT`, and city
    /// protection stays within 0..=100.
    pub open spec fn wf(&self) -> bool {
        &&& 0 <= self.grid.width <= COORD_LIMIT
        &&& 0 <= self.grid.height <= COORD_LIMIT
        &&& forall|i: int| 0 <= i < self.mechs@.len() ==> coord_ok(#[trigger] self.mechs@[i].position)
        &&& 0 <= self.city_hp <= 100
    }

    /// The grid and units of this mission.
    pub open spec fn board(&self) -> Board {
        Board { width: self.grid.width, height: self.grid.height, mechs: self.mechs@ }
    }

    pub open spec fn spec_is_won(&self) -> bool {
        !any_living(self.mechs@, Team::Enemy)
    }

    pub open spec fn spec_is_lost(&self) -> bool {
        !any_living(self.mechs@, Team::Player) || self.city_hp <= 0
    }

    /// The skirmish: an 8x8 block, Coil (0, piloted by Nori) at (2, 3) and
    /// Bastion (1, piloted by Vesper) at (2, 4) against a Splinter (10) at
    /// (5, 3) and a Mass (11) at (5, 5); player phase of turn 1, city at 100%.
    pub fn new_skirmish() -> (m: Mission)
        ensures
            m.wf(),
            m.grid.width == 8,
            m.grid.height == 8,
            m.mechs@.len() == 4,
            spawned((Mech { pilot_id: None, ..m.mechs@[0] }), 0, "Coil"@, Team::Player, (GridPos { x: 2, y: 3 }), Facing::East, None, 0),
            m.mechs@[0].pilot_id == Some(0u32),
            spawned((Mech { pilot_id: None, ..m.mechs@[1] }), 1, "Bastion"@, Team::Player, (GridPos { x: 2, y: 4 }), Facing::East, None, 0),
            m.mechs@[1].pilot_id == Some(1u32),
            spawned(m.mechs@[2], 10, "Splinter"@, Team::Enemy, (GridPos { x: 5, y: 3 }), Facing::West, Some(AlienKind::Splinter), 0),
            spawned(m.mechs@[3], 11, "Mass"@, Team::Enemy, (GridPos { x: 5, y: 5 }), Facing::West, Some(AlienKind::Mass), 2),
            m.phase == TurnPhase::Player,
            m.turn == 1,
            m.city_hp == 100,
            m.log@.len() == 1,
            m.log@[0]@ == "Mission start: defend the city block."@,
            m.enemy_queue@.len() == 0,
            m.pending_fx@.len() == 0,
            m.pilot_flash is None,
    {
        let grid = Grid::new(8, 8);
        let mut c = Mech::new_player(0, "Coil", GridPos::new(2, 3));
        c.pilot_id = Some(0);
        let mut b = Mech::new_player(1, "Bastion", GridPos::new(2, 4));
        b.pilot_id = Some(1);
        let mut mechs: Vec<Mech> = Vec::new();
        mechs.push(c);
        mechs.push(b);
        mechs.push(Mech::new_alien(10, AlienKind::Splinter, GridPos::new(5, 3)));
        mechs.push(Mech::new_alien(11, AlienKind::Mass, GridPos::new(5, 5)));
        let mut log: Vec<String> = Vec::new();
        log.push(String::from_str("Mission start: defend the city block."));
        Mission {
            grid,
            mechs,
            phase: TurnPhase::Player,
            turn: 1,
            city_hp: 100,
            log,
            enemy_queue: Vec::new(),
            pending_fx: Vec::new(),
            pilot_flash: None,
        }
    }

    /// Index of the first unit with this id.
    pub fn find_index(&self, id: u32) -> (r: Option<usize>)
        ensures
            r is None <==> find_unit(self.mechs@, id) == -1,
            r matches Some(i) ==> i as int == find_unit(self.mechs@, id),
    {
        let mut i: usize = 0;
        while i < self.mechs.len()
            invariant
                0 <= i <= self.mechs@.len(),
                find_from(self.mechs@, id, i as int) == find_unit(self.mechs@, id),
            decreases self.mechs@.len() - i,
        {
            if self.mechs[i].id == id {
                return Some(i);
            }
            i = i + 1;
        }
        None
    }

    /// The first unit with this id.
    pub fn mech(&self, id: u32) -> (r: Option<&Mech>)
        ensures
            find_unit(self.mechs@, id) == -1 ==> r is None,
            find_unit(self.mechs@, id) != -1 ==> (r matches Some(m) && *m == self.mechs@[find_unit(
                self.mechs@,
                id,
            )]),
    {
        proof {
            lemma_find_unit(self.mechs@, id);
        }
        match self.find_index(id) {
            Some(i) => {
                Some(&self.mechs[i])
            },
            None => None,
        }
    }

    /// Drain presentation FX produced since the last call.
    pub fn take_fx(&mut self) -> (fx: Vec<CombatFx>)
        ensures
            fx@ == old(self).pending_fx@,
            final(self).pending_fx@.len() == 0,
            *final(self) == (Mission { pending_fx: final(self).pending_fx, ..*old(self) }),
    {
        let mut out: Vec<CombatFx> = Vec::new();
        std::mem::swap(&mut out, &mut self.pending_fx);
        out
    }

    pub fn is_won(&self) -> (r: bool)
        ensures
            r == self.spec_is_won(),
    {
        !self.any_living_of(Team::Enemy)
    }

    pub fn is_lost(&self) -> (r: bool)
        ensures
            r == self.spec_is_lost(),
    {
        !self.any_living_of(Team::Player) || self.city_hp <= 0
    }

    fn any_living_of(&self, team: Team) -> (r: bool)
        ensures
            r == any_living(self.mechs@, team),
    {
        let mut i: usize = 0;
        while i < self.mechs.len()
            invariant
                0 <= i <= self.mechs@.len(),
                forall|j: int| 0 <= j < i ==> !((#[trigger] self.mechs@[j]).team == team && !self.mechs@[j].destroyed),
            decreases self.mechs@.len() - i,
        {
            if self.mechs[i].team == team && !self.mechs[i].destroyed {
                return true;
            }
            i = i + 1;
        }
        false
    }

    /// Some standing unit other than `ignore_id` stands on `pos`.
    pub fn occupied(&self, pos: GridPos, ignore_id: Option<u32>) -> (r: bool)
        ensures
            r == spec_occupied(self.mechs@, pos, ignore_id),
    {
        let mut i: usize = 0;
        while i < self.mechs.len()
            invariant
                0 <= i <= self.mechs@.len(),
                forall|j: int|
                    0 <= j < i ==> !(!(#[trigger] self.mechs@[j]).destroyed && self.mechs@[j].position
                        == pos && Some(self.mechs@[j].id) != ignore_id),
            decreases self.mechs@.len() - i,
        {
            let m = &self.mechs[i];
            if !m.destroyed && m.position == pos && Some(m.id) != ignore_id {
                return true;
            }
            i = i + 1;
        }
        false
    }

    fn phase_allows(&self, team: Team) -> (r: bool)
        ensures
            r == (team == phase_team(self.phase)),
    {
        match self.phase {
            TurnPhase::Player => team == Team::Player,
            TurnPhase::Enemy => team == Team::Enemy,
        }
    }

    /// Whether the rules accept `action` up to the point where a pilot may
    /// refuse it: the acting unit's team, or why the order is illegal.
    /// Checks run in this order; the first that fails names the error.
    pub open spec fn spec_check_order(&self, action: Action) -> Result<Team, ActionError> {
        let s = self.mechs@;
        match action {
            Action::Move { unit_id, to } => {
                let k = find_unit(s, unit_id);
                if !spec_in_bounds(self.grid.width, self.grid.height, to) {
                    Err(ActionError::OutOfBounds)
                } else if spec_occupied(s, to, Some(unit_id)) {
                    Err(ActionError::TileOccupied)
                } else if k == -1 {
                    Err(ActionError::UnknownUnit)
                } else if s[k].team != phase_team(self.phase) {
                    Err(ActionError::NotYourTurn)
                } else if !s[k].spec_can_move() {
                    Err(ActionError::NoMoveLeft)
                } else if spec_manhattan(to, s[k].position) != 1 {
                    Err(ActionError::NotOrthogonal)
                } else {
                    Ok(s[k].team)
                }
            },
            Action::Rotate { unit_id, facing } => {
                let k = find_unit(s, unit_id);
                if k == -1 {
                    Err(ActionError::UnknownUnit)
                } else if s[k].team != phase_team(self.phase) {
                    Err(ActionError::NotYourTurn)
                } else if s[k].destroyed || s[k].acted {
                    Err(ActionError::CannotRotate)
                } else {
                    Ok(s[k].team)
                }
            },
            Action::Attack { attacker_id, target_id, limb } => {
                let k = find_unit(s, attacker_id);
                if k == -1 {
                    Err(ActionError::UnknownAttacker)
                } else if s[k].team != phase_team(self.phase) {
                    Err(ActionError::NotYourTurn)
                } else if s[k].destroyed {
                    Err(ActionError::AttackerDestroyed)
                } else if !s[k].spec_can_act() {
                    Err(ActionError::AlreadyActed)
                } else {
                    Ok(s[k].team)
                }
            },
            Action::Wait { unit_id } => {
                let k = find_unit(s, unit_id);
                if k == -1 {
                    Err(ActionError::UnknownUnit)
                } else if s[k].team != phase_team(self.phase) {
                    Err(ActionError::NotYourTurn)
                } else if s[k].destroyed {
                    Err(ActionError::Destroyed)
                } else {
                    Ok(s[k].team)
                }
            },
        }
    }

    /// Check an order against the rules, up to the point where a pilot may
    /// refuse it. Player orders that pass are then put to the pilot.
    pub fn check_order(&self, action: &Action) -> (r: Result<Team, ActionError>)
        requires
            self.wf(),
        ensures
            r == self.spec_check_order(*action),
    {
        proof {
            let s = self.mechs@;
            match *action {
                Action::Move { unit_id, .. } => lemma_find_unit(s, unit_id),
                Action::Rotate { unit_id, .. } => lemma_find_unit(s, unit_id),
                Action::Attack { attacker_id, .. } => lemma_find_unit(s, attacker_id),
                Action::Wait { unit_id } => lemma_find_unit(s, unit_id),
            }
        }
        match action {
            Action::Move { unit_id, to } => {
                if !self.grid.in_bounds(*to) {
                    return Err(ActionError::OutOfBounds);
                }
                if self.occupied(*to, Some(*unit_id)) {
                    return Err(ActionError::TileOccupied);
                }
                let k = match self.find_index(*unit_id) {
                    Some(k) => k,
                    None => return Err(ActionError::UnknownUnit),
                };
                let m = &self.mechs[k];
                if !self.phase_allows(m.team) {
                    return Err(ActionError::NotYourTurn);
                }
                if !m.can_move() {
                    return Err(ActionError::NoMoveLeft);
                }
                proof {
                    distance_fits(*to, m.position);
                }
                if Grid::manhattan(*to, m.position) != 1 {
                    return Err(ActionError::NotOrthogonal);
                }
                Ok(m.team)
            },
            Action::Rotate { unit_id, .. } => {
                let k = match self.find_index(*unit_id) {
                    Some(k) => k,
                    None => return Err(ActionError::UnknownUnit),
                };
                let m = &self.mechs[k];
                if !self.phase_allows(m.team) {
                    return Err(ActionError::NotYourTurn);
                }
                if m.destroyed || m.acted {
                    return Err(ActionError::CannotRotate);
                }
                Ok(m.team)
            },
            Action::Attack { attacker_id, .. } => {
                let k = match self.find_index(*attacker_id) {
                    Some(k) => k,
                    None => return Err(ActionError::UnknownAttacker),
                };
                let m = &self.mechs[k];
                if !self.phase_allows(m.team) {
                    return Err(ActionError::NotYourTurn);
                }
                if m.destroyed {
                    return Err(ActionError::AttackerDestroyed);
                }
                if !m.can_act() {
                    return Err(ActionError::AlreadyActed);
                }
                Ok(m.team)
            },
            Action::Wait { unit_id } => {
                let k = match self.find_index(*unit_id) {
                    Some(k) => k,
                    None => return Err(ActionError::UnknownUnit),
                };
                let m = &self.mechs[k];
                if !self.phase_allows(m.team) {
                    return Err(ActionError::NotYourTurn);
                }
                if m.destroyed {
                    return Err(ActionError::Destroyed);
                }
                Ok(m.team)
            },
        }
    }
}

/// The unit list with entry `k` replaced by `m`.
pub open spec fn with_unit(s: Seq<Mech>, k: int, m: Mech) -> Seq<Mech> {
    s.update(k, m)
}

impl Mission {
    /// Builds `name + suffix`.
    fn name_then(name: &String, suffix: &str) -> (r: String)
        ensures
            r@ == name@ + suffix@,
    {
        let mut r = name.clone();
        r.append(suffix);
        r
    }

    /// Carry out a legal step: the unit moves onto `to`, faces along the
    /// step, spends one move point, and the step is logged.
    pub fn commit_move(&mut self, unit_id: u32, to: GridPos)
        requires
            old(self).wf(),
            old(self).spec_check_order(Action::Move { unit_id, to }) is Ok,
        ensures
            final(self).wf(),
            ({
                let k = find_unit(old(self).mechs@, unit_id);
                let u = old(self).mechs@[k];
                let f = facing_after_step(u.position, to, u.facing);
                &&& final(self).mechs@ == with_unit(
                    old(self).mechs@,
                    k,
                    Mech { position: to, facing: f, move_left: (u.move_left - 1) as i32, ..u },
                )
                &&& final(self).log@.len() == old(self).log@.len() + 1
                &&& final(self).log@.drop_last() == old(self).log@
                &&& final(self).log@.last()@ == step_text(u.name@, to, f, (u.move_left - 1) as i32)
            }),
            *final(self) == (Mission { mechs: final(self).mechs, log: final(self).log, ..*old(self) }),
    {
        proof {
            lemma_find_unit(self.mechs@, unit_id);
        }
        let k = self.find_index(unit_id).unwrap();
        let from = self.mechs[k].position;
        let facing = match Facing::from_delta(GridPos::new(to.x - from.x, to.y - from.y)) {
            Some(f) => f,
            None => self.mechs[k].facing,
        };
        self.mechs[k].position = to;
        self.mechs[k].facing = facing;
        self.mechs[k].move_left = self.mechs[k].move_left - 1;
        let mut line = Self::name_then(&self.mechs[k].name, " steps to (");
        append_decimal(&mut line, to.x as i64);
        line.append(", ");
        append_decimal(&mut line, to.y as i64);
        line.append(") facing ");
        line.append(facing.label());
        line.append("  [");
        append_decimal(&mut line, self.mechs[k].move_left as i64);
        line.append(" MP]");
        self.log.push(line);
        proof {
            assert forall|i: int| 0 <= i < self.mechs@.len() implies coord_ok(
                #[trigger] self.mechs@[i].position,
            ) by {
                if i != k {
                    assert(self.mechs@[i] == old(self).mechs@[i]);
                }
            }
        }
    }
}

/// A step the rules accept goes to an in-bounds tile one orthogonal step
/// away, that no other standing unit holds, by a unit of the phase's team
/// with a move point and its action unspent.
pub proof fn legal_step_is_one_free_tile(m: Mission, unit_id: u32, to: GridPos)
    requires
        m.spec_check_order(Action::Move { unit_id, to }) is Ok,
    ensures
        ({
            let k = find_unit(m.mechs@, unit_id);
            let u = m.mechs@[k];
            &&& 0 <= k < m.mechs@.len()
            &&& adjacent(u.position, to)
            &&& spec_in_bounds(m.grid.width, m.grid.height, to)
            &&& !spec_occupied(m.mechs@, to, Some(unit_id))
            &&& u.team == phase_team(m.phase)
            &&& u.move_left > 0 && !u.acted && !u.destroyed
        }),
{
    lemma_find_unit(m.mechs@, unit_id);
}

/// No order of a unit outside the phase's team passes the rules.
pub proof fn only_the_phase_team_acts(m: Mission, action: Action)
    requires
        m.spec_check_order(action) is Ok,
    ensures
        m.spec_check_order(action)->Ok_0 == phase_team(m.phase),
{
}

impl Mission {
    /// Carry out a legal turn in place and log it.
    pub fn commit_rotate(&mut self, unit_id: u32, facing: Facing)
        requires
            old(self).wf(),
            old(self).spec_check_order(Action::Rotate { unit_id, facing }) is Ok,
        ensures
            final(self).wf(),
            ({
                let k = find_unit(old(self).mechs@, unit_id);
                let u = old(self).mechs@[k];
                &&& final(self).mechs@ == with_unit(old(self).mechs@, k, Mech { facing, ..u })
                &&& final(self).log@ == old(self).log@.push(final(self).log@.last())
                &&& final(self).log@.last()@ == turn_text(u.name@, facing)
            }),
            *final(self) == (Mission { mechs: final(self).mechs, log: final(self).log, ..*old(self) }),
    {
        proof {
            lemma_find_unit(self.mechs@, unit_id);
        }
        let k = self.find_index(unit_id).unwrap();
        self.mechs[k].facing = facing;
        let mut line = Self::name_then(&self.mechs[k].name, " turns ");
        line.append(facing.label());
        self.log.push(line);
        proof {
            assert forall|i: int| 0 <= i < self.mechs@.len() implies coord_ok(
                #[trigger] self.mechs@[i].position,
            ) by {
                assert(self.mechs@[i].position == old(self).mechs@[i].position);
            }
        }
    }

    /// Carry out a legal wait: the unit spends its turn and it is logged.
    pub fn commit_wait(&mut self, unit_id: u32)
        requires
            old(self).wf(),
            old(self).spec_check_order(Action::Wait { unit_id }) is Ok,
        ensures
            final(self).wf(),
            ({
                let k = find_unit(old(self).mechs@, unit_id);
                let u = old(self).mechs@[k];
                &&& final(self).mechs@ == with_unit(
                    old(self).mechs@,
                    k,
                    Mech { acted: true, move_left: 0, ..u },
                )
                &&& final(self).log@ == old(self).log@.push(final(self).log@.last())
                &&& final(self).log@.last()@ == hold_text(u.name@)
            }),
            *final(self) == (Mission { mechs: final(self).mechs, log: final(self).log, ..*old(self) }),
    {
        proof {
            lemma_find_unit(self.mechs@, unit_id);
        }
        let k = self.find_index(unit_id).unwrap();
        self.mechs[k].acted = true;
        self.mechs[k].move_left = 0;
        let line = Self::name_then(&self.mechs[k].name, " holds position.");
        self.log.push(line);
        proof {
            assert forall|i: int| 0 <= i < self.mechs@.len() implies coord_ok(
                #[trigger] self.mechs@[i].position,
            ) by {
                assert(self.mechs@[i].position == old(self).mechs@[i].position);
            }
        }
    }

    /// A pilot refused the order: the unit locks up for the rest of the turn.
    pub fn lock_up(&mut self, unit_id: u32)
        requires
            old(self).wf(),
        ensures
            final(self).wf(),
            ({
                let k = find_unit(old(self).mechs@, unit_id);
                &&& k == -1 ==> final(self).mechs@ == old(self).mechs@
                &&& k != -1 ==> final(self).mechs@ == with_unit(
                    old(self).mechs@,
                    k,
                    Mech { acted: true, move_left: 0, ..old(self).mechs@[k] },
                )
            }),
            *final(self) == (Mission { mechs: final(self).mechs, ..*old(self) }),
    {
        proof {
            lemma_find_unit(self.mechs@, unit_id);
        }
        match self.find_index(unit_id) {
            Some(k) => {
                self.mechs[k].acted = true;
                self.mechs[k].move_left = 0;
            },
            None => {},
        }
        proof {
            assert forall|i: int| 0 <= i < self.mechs@.len() implies coord_ok(
                #[trigger] self.mechs@[i].position,
            ) by {
                assert(self.mechs@[i].position == old(self).mechs@[i].position);
            }
        }
    }

    /// Show a pilot drama beat: it becomes the HUD flash, a `PilotDrama`
    /// effect for `unit_id`, and its line goes to the combat log.
    pub fn record_drama(&mut self, unit_id: u32, flash: PilotHudFlash)
        ensures
            final(self).pilot_flash == Some(flash),
            final(self).pending_fx@ == old(self).pending_fx@.push(
                CombatFx::PilotDrama { unit_id, kind: flash.kind },
            ),
            final(self).log@ == old(self).log@.push(flash.line),
            *final(self) == (Mission {
                pilot_flash: final(self).pilot_flash,
                pending_fx: final(self).pending_fx,
                log: final(self).log,
                ..*old(self)
            }),
    {
        let line = flash.line.clone();
        let kind = flash.kind;
        self.pilot_flash = Some(flash);
        self.pending_fx.push(CombatFx::PilotDrama { unit_id, kind });
        self.log.push(line);
    }

    /// Report what a unit's limbs now say (see `Mech::update_from_limbs`);
    /// applies to the first unit with this id.
    pub fn update_from_limbs(
        &mut self,
        unit_id: u32,
        stride: i32,
        arms_spent: bool,
        torso_functional: bool,
    )
        requires
            old(self).wf(),
        ensures
            final(self).wf(),
            ({
                let k = find_unit(old(self).mechs@, unit_id);
                let u = old(self).mechs@[k];
                &&& k == -1 ==> final(self).mechs@ == old(self).mechs@
                &&& k != -1 && torso_functional ==> final(self).mechs@ == with_unit(
                    old(self).mechs@,
                    k,
                    Mech { stride, arms_spent, ..u },
                )
                &&& k != -1 && !torso_functional ==> final(self).mechs@ == with_unit(
                    old(self).mechs@,
                    k,
                    Mech { stride, arms_spent, destroyed: true, move_left: 0, acted: true, ..u },
                )
            }),
            *final(self) == (Mission { mechs: final(self).mechs, ..*old(self) }),
    {
        proof {
            lemma_find_unit(self.mechs@, unit_id);
        }
        match self.find_index(unit_id) {
            Some(k) => {
                self.mechs[k].update_from_limbs(stride, arms_spent, torso_functional);
            },
            None => {},
        }
        proof {
            assert forall|i: int| 0 <= i < self.mechs@.len() implies coord_ok(
                #[trigger] self.mechs@[i].position,
            ) by {
                assert(self.mechs@[i].position == old(self).mechs@[i].position);
            }
        }
    }
}

/// Facing an attacker takes after attacking from `from` to `to`: it turns
/// toward the target when the shot runs along a row or column.
pub open spec fn facing_after_attack(from: GridPos, to: GridPos, current: Facing) -> Facing {
    match spec_from_delta(toward(from, to)) {
        Some(f) => if to.x == from.x || to.y == from.y {
            f
        } else {
            current
        },
        None => current,
    }
}

impl Mission {
    /// Where an attack that passed `spec_check_order` (and was not refused)
    /// stands: the target must exist, stand, and be within the attacker's
    /// range; the attack is flanked when the attacker does not face the
    /// target.
    pub open spec fn spec_aim(&self, attacker_id: u32, target_id: u32) -> Result<Aim, ActionError> {
        let s = self.mechs@;
        let a = s[find_unit(s, attacker_id)];
        let t = find_unit(s, target_id);
        if t == -1 {
            Err(ActionError::UnknownTarget)
        } else if s[t].destroyed {
            Err(ActionError::TargetDestroyed)
        } else if spec_manhattan(a.position, s[t].position) > spec_attack_range(
            a.alien,
            a.arms_spent,
        ) {
            Err(ActionError::OutOfRange)
        } else {
            let d = spec_manhattan(a.position, s[t].position);
            Ok(
                Aim {
                    attacker_pos: a.position,
                    target_pos: s[t].position,
                    distance: d as i32,
                    flanked: spec_delta(a.facing) != toward(a.position, s[t].position) && d > 0,
                },
            )
        }
    }

    /// Check the target of an attack and read its geometry.
    pub fn aim(&self, attacker_id: u32, target_id: u32) -> (r: Result<Aim, ActionError>)
        requires
            self.wf(),
            find_unit(self.mechs@, attacker_id) != -1,
        ensures
            r == self.spec_aim(attacker_id, target_id),
    {
        proof {
            lemma_find_unit(self.mechs@, attacker_id);
            lemma_find_unit(self.mechs@, target_id);
        }
        let ka = self.find_index(attacker_id).unwrap();
        let kt = match self.find_index(target_id) {
            Some(k) => k,
            None => return Err(ActionError::UnknownTarget),
        };
        let a = &self.mechs[ka];
        let t = &self.mechs[kt];
        if t.destroyed {
            return Err(ActionError::TargetDestroyed);
        }
        proof {
            distance_fits(a.position, t.position);
        }
        let dist = Grid::manhattan(a.position, t.position);
        if dist > a.attack_range() {
            return Err(ActionError::OutOfRange);
        }
        let look = a.facing.delta();
        let toward_target = GridPos::new(
            sign_of_difference(t.position.x, a.position.x),
            sign_of_difference(t.position.y, a.position.y),
        );
        let flanked = look != toward_target && dist > 0;
        Ok(Aim { attacker_pos: a.position, target_pos: t.position, distance: dist, flanked })
    }

    /// The strike lands: a standing target with AT Field charges absorbs it,
    /// spending a charge (the effect and log line say so, and the last
    /// charge shatters the field). Returns whether it was absorbed; if not,
    /// nothing changes and the limbs take the damage.
    pub fn strike(&mut self, attacker_id: u32, target_id: u32) -> (absorbed: bool)
        requires
            old(self).wf(),
            find_unit(old(self).mechs@, attacker_id) != -1,
            find_unit(old(self).mechs@, target_id) != -1,
        ensures
            final(self).wf(),
            ({
                let s = old(self).mechs@;
                let a = s[find_unit(s, attacker_id)];
                let k = find_unit(s, target_id);
                let t = s[k];
                let left = (t.at_field - 1) as u8;
                &&& absorbed == absorbs(t)
                &&& !absorbed ==> *final(self) == *old(self)
                &&& absorbed ==> final(self).mechs@ == with_unit(s, k, after_strike(t))
                &&& absorbed && left > 0 ==> final(self).pending_fx@ == old(self).pending_fx@.push(
                    CombatFx::AtFieldAbsorb { target_id },
                )
                &&& absorbed && left == 0 ==> final(self).pending_fx@ == old(
                    self,
                ).pending_fx@.push(CombatFx::AtFieldAbsorb { target_id }).push(
                    CombatFx::AtFieldBreak { target_id },
                )
                &&& absorbed ==> final(self).log@ == old(self).log@.push(final(self).log@.last())
                &&& absorbed ==> final(self).log@.last()@ == absorb_text(a.name@, t.name@, left)
                &&& absorbed ==> *final(self) == (Mission {
                    mechs: final(self).mechs,
                    pending_fx: final(self).pending_fx,
                    log: final(self).log,
                    ..*old(self)
                })
            }),
    {
        proof {
            lemma_find_unit(self.mechs@, attacker_id);
            lemma_find_unit(self.mechs@, target_id);
        }
        let ka = self.find_index(attacker_id).unwrap();
        let kt = self.find_index(target_id).unwrap();
        if self.mechs[kt].destroyed || self.mechs[kt].at_field == 0 {
            return false;
        }
        let name = self.mechs[ka].name.clone();
        let _ = self.mechs[kt].try_absorb_at_field();
        let remaining = self.mechs[kt].at_field;
        let mut line = Self::name_then(&name, " strikes ");
        line.append(self.mechs[kt].name.as_str());
        self.pending_fx.push(CombatFx::AtFieldAbsorb { target_id });
        if remaining == 0 {
            self.pending_fx.push(CombatFx::AtFieldBreak { target_id });
            line.append(" — AT Field absorbs, then SHATTERS!");
        } else {
            line.append(" — AT Field absorbs! (");
            append_decimal(&mut line, remaining as i64);
            line.append(" left)");
        }
        self.log.push(line);
        proof {
            assert forall|i: int| 0 <= i < self.mechs@.len() implies coord_ok(
                #[trigger] self.mechs@[i].position,
            ) by {
                assert(self.mechs@[i].position == old(self).mechs@[i].position);
            }
        }
        true
    }

    /// Finish an attack: the attacker spends its turn and turns toward the
    /// target along a row or column; destroying an enemy restores two points
    /// of city protection (at most 100).
    pub fn conclude_attack(&mut self, attacker_id: u32, target_id: u32, aim: Aim)
        requires
            old(self).wf(),
            find_unit(old(self).mechs@, attacker_id) != -1,
            find_unit(old(self).mechs@, target_id) != -1,
        ensures
            final(self).wf(),
            ({
                let s = old(self).mechs@;
                let k = find_unit(s, attacker_id);
                let a = s[k];
                let t = s[find_unit(s, target_id)];
                let f = facing_after_attack(aim.attacker_pos, aim.target_pos, a.facing);
                &&& final(self).mechs@ == with_unit(
                    s,
                    k,
                    Mech { acted: true, move_left: 0, facing: f, ..a },
                )
                &&& final(self).city_hp == if t.destroyed && t.team == Team::Enemy {
                    vstd::math::min(old(self).city_hp + 2, 100)
                } else {
                    old(self).city_hp as int
                }
            }),
            *final(self) == (Mission {
                mechs: final(self).mechs,
                city_hp: final(self).city_hp,
                ..*old(self)
            }),
    {
        proof {
            lemma_find_unit(self.mechs@, attacker_id);
            lemma_find_unit(self.mechs@, target_id);
        }
        let kt = self.find_index(target_id).unwrap();
        let destroyed_t = self.mechs[kt].destroyed;
        let was_enemy = self.mechs[kt].team == Team::Enemy;
        let ka = self.find_index(attacker_id).unwrap();
        self.mechs[ka].acted = true;
        self.mechs[ka].move_left = 0;
        let from = aim.attacker_pos;
        let to = aim.target_pos;
        let dir = GridPos::new(sign_of_difference(to.x, from.x), sign_of_difference(to.y, from.y));
        match Facing::from_delta(dir) {
            Some(f) => {
                if to.x == from.x || to.y == from.y {
                    self.mechs[ka].facing = f;
                }
            },
            None => {},
        }
        if destroyed_t && was_enemy {
            self.city_hp = if self.city_hp + 2 < 100 {
                self.city_hp + 2
            } else {
                100
            };
        }
        proof {
            assert forall|i: int| 0 <= i < self.mechs@.len() implies coord_ok(
                #[trigger] self.mechs@[i].position,
            ) by {
                assert(self.mechs@[i].position == old(self).mechs@[i].position);
            }
        }
    }
}

/// Every unit of `team` refreshes its turn; the others stay as they are.
pub open spec fn refresh_all(s: Seq<Mech>, team: Team) -> Seq<Mech> {
    Seq::new(s.len(), |i: int| if s[i].team == team { refreshed(s[i]) } else { s[i] })
}

/// The two tiles a unit tries, in order, when stepping from `from` toward
/// `to`: along x first when both axes differ; otherwise the one axis that
/// differs, then staying put (which never counts as a step).
pub open spec fn toward_candidates(from: GridPos, to: GridPos) -> (GridPos, GridPos) {
    let dx = sign(to.x - from.x);
    let dy = sign(to.y - from.y);
    if dx != 0 && dy != 0 {
        (
            GridPos { x: (from.x + dx) as i32, y: from.y },
            GridPos { x: from.x, y: (from.y + dy) as i32 },
        )
    } else if dx != 0 {
        (GridPos { x: (from.x + dx) as i32, y: from.y }, from)
    } else {
        (GridPos { x: from.x, y: (from.y + dy) as i32 }, from)
    }
}

/// The compass directions a retreating unit considers, in order.
pub open spec fn dir_at(k: int) -> Facing {
    if k == 0 {
        Facing::North
    } else if k == 1 {
        Facing::East
    } else if k == 2 {
        Facing::South
    } else {
        Facing::West
    }
}

impl Mission {
    fn refresh_team(&mut self, team: Team)
        requires
            old(self).wf(),
        ensures
            final(self).wf(),
            final(self).mechs@ == refresh_all(old(self).mechs@, team),
            *final(self) == (Mission { mechs: final(self).mechs, ..*old(self) }),
    {
        let mut i: usize = 0;
        while i < self.mechs.len()
            invariant
                0 <= i <= self.mechs@.len(),
                self.mechs@.len() == old(self).mechs@.len(),
                forall|j: int|
                    0 <= j < i ==> #[trigger] self.mechs@[j] == refresh_all(old(self).mechs@, team)[j],
                forall|j: int| i <= j < self.mechs@.len() ==> #[trigger] self.mechs@[j] == old(self).mechs@[j],
                *self == (Mission { mechs: self.mechs, ..*old(self) }),
            decreases self.mechs@.len() - i,
        {
            if self.mechs[i].team == team {
                self.mechs[i].refresh_turn();
            }
            i = i + 1;
        }
        assert(self.mechs@ =~= refresh_all(old(self).mechs@, team));
        assert forall|j: int| 0 <= j < self.mechs@.len() implies coord_ok(
            #[trigger] self.mechs@[j].position,
        ) by {
            assert(self.mechs@[j].position == old(self).mechs@[j].position);
        }
    }

    fn is_free_step(&self, from: GridPos, next: GridPos, eid: u32) -> (r: bool)
        ensures
            r == self.board().free_step(from, next, eid),
    {
        next != from && self.grid.in_bounds(next) && !self.occupied(next, Some(eid))
    }

    /// One step from `from` toward `to` for unit `eid`, if a free one exists.
    pub fn step_toward(&self, from: GridPos, to: GridPos, eid: u32) -> (r: Option<GridPos>)
        requires
            coord_ok(from),
            coord_ok(to),
        ensures
            r == self.board().spec_step_toward(from, to, eid),
    {
        let dx = sign_of_difference(to.x, from.x);
        let dy = sign_of_difference(to.y, from.y);
        let (c0, c1) = if dx != 0 && dy != 0 {
            (GridPos::new(from.x + dx, from.y), GridPos::new(from.x, from.y + dy))
        } else if dx != 0 {
            (GridPos::new(from.x + dx, from.y), from)
        } else {
            (GridPos::new(from.x, from.y + dy), from)
        };
        if self.is_free_step(from, c0, eid) {
            Some(c0)
        } else if self.is_free_step(from, c1, eid) {
            Some(c1)
        } else {
            None
        }
    }

    /// One step from `from` away from `threat` for unit `eid`, if a free
    /// compass neighbour exists.
    pub fn step_away(&self, from: GridPos, threat: GridPos, eid: u32) -> (r: Option<GridPos>)
        requires
            coord_ok(from),
            coord_ok(threat),
        ensures
            r == self.board().spec_step_away(from, threat, eid),
    {
        let mut best: Option<(GridPos, i32)> = None;
        let mut k: usize = 0;
        while k < 4
            invariant
                k <= 4,
                coord_ok(from),
                coord_ok(threat),
                match best {
                    None => self.board().away_best(from, threat, eid, k as int) is None,
                    Some(b) => self.board().away_best(from, threat, eid, k as int) == Some((b.0, b.1 as int)),
                },
            decreases 4 - k,
        {
            let dir = if k == 0 {
                Facing::North
            } else if k == 1 {
                Facing::East
            } else if k == 2 {
                Facing::South
            } else {
                Facing::West
            };
            let next = from.offset(dir.delta());
            if self.grid.in_bounds(next) && !self.occupied(next, Some(eid)) {
                proof {
                    assert(spec_manhattan(next, threat) <= spec_manhattan(from, threat) + 1);
                    distance_fits(from, threat);
                }
                let dist = Grid::manhattan(next, threat);
                let replace = match best {
                    None => true,
                    Some(b) => dist > b.1,
                };
                if replace {
                    best = Some((next, dist));
                }
            }
            k = k + 1;
        }
        match best {
            Some(b) => Some(b.0),
            None => None,
        }
    }
}

/// Every planned step is a free, in-bounds compass neighbour of the tile
/// before it, and a walk takes at most `mp` steps.
pub open spec fn walk_ok(m: Board, eid: u32, start: GridPos, path: Seq<GridPos>, mp: int) -> bool {
    &&& path.len() <= if mp > 0 { mp } else { 0 }
    &&& forall|i: int|
        0 <= i < path.len() ==> {
            let prev = if i == 0 { start } else { path[i - 1] };
            &&& adjacent(prev, #[trigger] path[i])
            &&& m.free_step(prev, path[i], eid)
        }
}

/// A step toward a target is a free compass neighbour one tile closer.
pub proof fn step_toward_closes_in(m: Board, from: GridPos, to: GridPos, eid: u32)
    requires
        coord_ok(from),
        coord_ok(to),
        m.spec_step_toward(from, to, eid) is Some,
    ensures
        ({
            let n = m.spec_step_toward(from, to, eid)->Some_0;
            &&& adjacent(from, n)
            &&& m.free_step(from, n, eid)
            &&& spec_manhattan(n, to) == spec_manhattan(from, to) - 1
        }),
{
}

/// A retreat step is a free compass neighbour at least as far from the
/// threat as any other free compass neighbour.
pub proof fn step_away_retreats(m: Board, from: GridPos, threat: GridPos, eid: u32, k: int)
    requires
        coord_ok(from),
        0 <= k <= 4,
    ensures
        m.away_best(from, threat, eid, k) matches Some(b) ==> {
            &&& adjacent(from, b.0)
            &&& m.free_step(from, b.0, eid)
            &&& b.1 == spec_manhattan(b.0, threat)
            &&& forall|j: int|
                0 <= j < k ==> {
                    let q = #[trigger] spec_offset(from, spec_delta(dir_at(j)));
                    spec_in_bounds(m.width, m.height, q) && !spec_occupied(
                        m.mechs,
                        q,
                        Some(eid),
                    ) ==> spec_manhattan(q, threat) <= b.1
                }
        },
        m.away_best(from, threat, eid, k) is None ==> forall|j: int|
            0 <= j < k ==> {
                let q = #[trigger] spec_offset(from, spec_delta(dir_at(j)));
                !(spec_in_bounds(m.width, m.height, q) && !spec_occupied(
                    m.mechs,
                    q,
                    Some(eid),
                ))
            },
    decreases k,
{
    if k > 0 {
        step_away_retreats(m, from, threat, eid, k - 1);
    }
}

/// The `Move` actions for a walk.
pub open spec fn moves_of(eid: u32, path: Seq<GridPos>) -> Seq<Action> {
    path.map_values(|p: GridPos| Action::Move { unit_id: eid, to: p })
}

proof fn lemma_moves_push(eid: u32, path: Seq<GridPos>, n: GridPos)
    ensures
        moves_of(eid, path.push(n)) == moves_of(eid, path).push(Action::Move { unit_id: eid, to: n }),
{
    assert(moves_of(eid, path.push(n)) =~= moves_of(eid, path).push(
        Action::Move { unit_id: eid, to: n },
    ));
}

/// Steps are always in bounds, so on a well-formed board they stay in range.
proof fn lemma_step_coord_ok(b: Board, from: GridPos, n: GridPos, eid: u32)
    requires
        b.wf(),
        b.free_step(from, n, eid),
    ensures
        coord_ok(n),
{
}

impl Mission {
    /// The actions an enemy plans against target `tid` at `tpos`, starting
    /// at `epos` with `mp` move points and attack `range`.
    pub fn plan_enemy_actions(
        &self,
        eid: u32,
        epos: GridPos,
        mp: i32,
        range: i32,
        kind: Option<AlienKind>,
        tid: u32,
        tpos: GridPos,
    ) -> (q: Vec<Action>)
        requires
            self.wf(),
            coord_ok(epos),
            coord_ok(tpos),
        ensures
            q@ == self.board().spec_plan(eid, epos, mp as int, range as int, kind, tid, tpos),
    {
        proof {
            lemma_find_unit(self.mechs@, eid);
        }
        let limb = match self.find_index(eid) {
            Some(k) => self.mechs[k].preferred_attack_limb(),
            None => LimbKind::Torso,
        };
        let mut queue: Vec<Action> = Vec::new();
        let mut cur = epos;
        let mut left = mp;
        let ghost full = self.board().enemy_path(eid, epos, mp as int, range as int, kind, tpos);
        let ghost mut done: Seq<GridPos> = seq![];
        assert(moves_of(eid, done) =~= seq![]);
        match kind {
            Some(AlienKind::Splinter) => {
                loop
                    invariant
                        self.wf(),
                        coord_ok(cur),
                        coord_ok(tpos),
                        kind == Some(AlienKind::Splinter),
                        done + self.board().splinter_path(eid, cur, left as int, range as int, tpos) == full,
                        queue@ == moves_of(eid, done),
                        done.len() == 0 ==> cur == epos,
                        done.len() > 0 ==> cur == done.last(),
                    ensures
                        done == full,
                        queue@ == moves_of(eid, done),
                        coord_ok(cur),
                        done.len() == 0 ==> cur == epos,
                        done.len() > 0 ==> cur == done.last(),
                    decreases left,
                {
                    if left <= 0 {
                        assert(done + seq![] =~= done);
                        break;
                    }
                    proof {
                        distance_fits(cur, tpos);
                    }
                    let dist = Grid::manhattan(cur, tpos);
                    if dist <= 2 {
                        match self.step_away(cur, tpos, eid) {
                            Some(next) => {
                                proof {
                                    step_away_retreats(self.board(), cur, tpos, eid, 4);
                                    lemma_step_coord_ok(self.board(), cur, next, eid);
                                    lemma_moves_push(eid, done, next);
                                    assert(done.push(next) + self.board().splinter_path(
                                        eid,
                                        next,
                                        left - 1,
                                        range as int,
                                        tpos,
                                    ) =~= done + (seq![next] + self.board().splinter_path(
                                        eid,
                                        next,
                                        left - 1,
                                        range as int,
                                        tpos,
                                    )));
                                    done = done.push(next);
                                }
                                queue.push(Action::Move { unit_id: eid, to: next });
                                cur = next;
                                left = left - 1;
                                continue ;
                            },
                            None => {},
                        }
                    }
                    if dist > range {
                        match self.step_toward(cur, tpos, eid) {
                            Some(next) => {
                                proof {
                                    lemma_step_coord_ok(self.board(), cur, next, eid);
                                    lemma_moves_push(eid, done, next);
                                    assert(done.push(next) + self.board().splinter_path(
                                        eid,
                                        next,
                                        left - 1,
                                        range as int,
                                        tpos,
                                    ) =~= done + (seq![next] + self.board().splinter_path(
                                        eid,
                                        next,
                                        left - 1,
                                        range as int,
                                        tpos,
                                    )));
                                    done = done.push(next);
                                }
                                queue.push(Action::Move { unit_id: eid, to: next });
                                cur = next;
                                left = left - 1;
                                continue ;
                            },
                            None => {},
                        }
                    }
                    assert(done + seq![] =~= done);
                    break;
                }
            },
            _ => {
                loop
                    invariant
                        self.wf(),
                        coord_ok(cur),
                        coord_ok(tpos),
                        kind != Some(AlienKind::Splinter),
                        done + self.board().pressure_path(eid, cur, left as int, range as int, tpos) == full,
                        queue@ == moves_of(eid, done),
                        done.len() == 0 ==> cur == epos,
                        done.len() > 0 ==> cur == done.last(),
                    ensures
                        done == full,
                        queue@ == moves_of(eid, done),
                        coord_ok(cur),
                        done.len() == 0 ==> cur == epos,
                        done.len() > 0 ==> cur == done.last(),
                    decreases left,
                {
                    proof {
                        distance_fits(cur, tpos);
                    }
                    if left <= 0 || Grid::manhattan(cur, tpos) <= range {
                        assert(done + seq![] =~= done);
                        break;
                    }
                    match self.step_toward(cur, tpos, eid) {
                        Some(next) => {
                            proof {
                                lemma_step_coord_ok(self.board(), cur, next, eid);
                                lemma_moves_push(eid, done, next);
                                assert(done.push(next) + self.board().pressure_path(
                                    eid,
                                    next,
                                    left - 1,
                                    range as int,
                                    tpos,
                                ) =~= done + (seq![next] + self.board().pressure_path(
                                    eid,
                                    next,
                                    left - 1,
                                    range as int,
                                    tpos,
                                )));
                                done = done.push(next);
                            }
                            queue.push(Action::Move { unit_id: eid, to: next });
                            cur = next;
                            left = left - 1;
                        },
                        None => {
                            assert(done + seq![] =~= done);
                            break;
                        },
                    }
                }
            },
        }
        proof {
            distance_fits(cur, tpos);
        }
        if Grid::manhattan(cur, tpos) <= range {
            queue.push(Action::Attack { attacker_id: eid, target_id: tid, limb });
        } else {
            queue.push(Action::Wait { unit_id: eid });
        }
        queue
    }
}

proof fn lemma_walk_cons(m: Board, eid: u32, start: GridPos, n: GridPos, rest: Seq<GridPos>, mp: int)
    requires
        mp > 0,
        adjacent(start, n),
        m.free_step(start, n, eid),
        walk_ok(m, eid, n, rest, mp - 1),
    ensures
        walk_ok(m, eid, start, seq![n] + rest, mp),
{
    let path = seq![n] + rest;
    assert forall|i: int| 0 <= i < path.len() implies {
        let prev = if i == 0 { start } else { path[i - 1] };
        &&& adjacent(prev, #[trigger] path[i])
        &&& m.free_step(prev, path[i], eid)
    } by {
        if i > 0 {
            assert(path[i] == rest[i - 1]);
            if i > 1 {
                assert(path[i - 1] == rest[i - 2]);
            }
        }
    }
}

proof fn lemma_retreat_is_step(m: Board, from: GridPos, threat: GridPos, eid: u32)
    requires
        coord_ok(from),
        m.spec_step_away(from, threat, eid) is Some,
    ensures
        adjacent(from, m.spec_step_away(from, threat, eid)->Some_0),
        m.free_step(from, m.spec_step_away(from, threat, eid)->Some_0, eid),
{
    step_away_retreats(m, from, threat, eid, 4);
}

/// A Splinter's planned walk is a sequence of free one-tile steps, at most
/// one per move point.
pub proof fn splinter_walk_is_legal(m: Board, eid: u32, epos: GridPos, mp: int, range: int, tpos: GridPos)
    requires
        m.wf(),
        coord_ok(epos),
        coord_ok(tpos),
    ensures
        walk_ok(m, eid, epos, m.splinter_path(eid, epos, mp, range, tpos), mp),
    decreases mp,
{
    if mp > 0 {
        let d = spec_manhattan(epos, tpos);
        let away = if d <= 2 {
            m.spec_step_away(epos, tpos, eid)
        } else {
            None
        };
        match away {
            Some(n) => {
                lemma_retreat_is_step(m, epos, tpos, eid);
                splinter_walk_is_legal(m, eid, n, mp - 1, range, tpos);
                lemma_walk_cons(m, eid, epos, n, m.splinter_path(eid, n, mp - 1, range, tpos), mp);
            },
            None => {
                if d > range {
                    match m.spec_step_toward(epos, tpos, eid) {
                        Some(n) => {
                            step_toward_closes_in(m, epos, tpos, eid);
                            splinter_walk_is_legal(m, eid, n, mp - 1, range, tpos);
                            lemma_walk_cons(
                                m,
                                eid,
                                epos,
                                n,
                                m.splinter_path(eid, n, mp - 1, range, tpos),
                                mp,
                            );
                        },
                        None => {},
                    }
                }
            },
        }
    }
}

/// A pressuring enemy's planned walk is a sequence of free one-tile steps,
/// each one tile closer to its target, at most one per move point.
pub proof fn pressure_walk_is_legal(m: Board, eid: u32, epos: GridPos, mp: int, range: int, tpos: GridPos)
    requires
        m.wf(),
        coord_ok(epos),
        coord_ok(tpos),
    ensures
        walk_ok(m, eid, epos, m.pressure_path(eid, epos, mp, range, tpos), mp),
        spec_manhattan(
            if m.pressure_path(eid, epos, mp, range, tpos).len() == 0 {
                epos
            } else {
                m.pressure_path(eid, epos, mp, range, tpos).last()
            },
            tpos,
        ) == spec_manhattan(epos, tpos) - m.pressure_path(eid, epos, mp, range, tpos).len(),
    decreases mp,
{
    if mp > 0 && spec_manhattan(epos, tpos) > range {
        match m.spec_step_toward(epos, tpos, eid) {
            Some(n) => {
                step_toward_closes_in(m, epos, tpos, eid);
                pressure_walk_is_legal(m, eid, n, mp - 1, range, tpos);
                let rest = m.pressure_path(eid, n, mp - 1, range, tpos);
                lemma_walk_cons(m, eid, epos, n, rest, mp);
                if rest.len() > 0 {
                    assert((seq![n] + rest).last() == rest.last());
                }
            },
            None => {},
        }
    }
}

/// Every enemy plan is its walk's `Move`s followed by exactly one final
/// action: an `Attack` on the target when the walk ends within range,
/// otherwise a `Wait`.
pub proof fn plan_ends_with_one_action(
    m: Board,
    eid: u32,
    epos: GridPos,
    mp: int,
    range: int,
    kind: Option<AlienKind>,
    tid: u32,
    tpos: GridPos,
)
    ensures
        ({
            let plan = m.spec_plan(eid, epos, mp, range, kind, tid, tpos);
            let path = m.enemy_path(eid, epos, mp, range, kind, tpos);
            &&& plan.len() == path.len() + 1
            &&& forall|i: int| 0 <= i < path.len() ==> plan[i] == (Action::Move { unit_id: eid, to: path[i] })
            &&& plan.last() is Attack || plan.last() is Wait
        }),
{
}

/// `(id, position)` of the standing units of `team` among the first `n`
/// units, in order.
pub open spec fn living_upto(s: Seq<Mech>, team: Team, n: int) -> Seq<(u32, GridPos)>
    decreases n,
{
    if n <= 0 {
        seq![]
    } else {
        let prev = living_upto(s, team, n - 1);
        if s[n - 1].team == team && !s[n - 1].destroyed {
            prev.push((s[n - 1].id, s[n - 1].position))
        } else {
            prev
        }
    }
}

/// `(id, position)` of the standing units of `team`, in order.
pub open spec fn living_of(s: Seq<Mech>, team: Team) -> Seq<(u32, GridPos)> {
    living_upto(s, team, s.len() as int)
}

/// The first of the first `n` targets closest to `p` (`n >= 1`).
pub open spec fn nearest_upto(t: Seq<(u32, GridPos)>, p: GridPos, n: int) -> (u32, GridPos)
    decreases n,
{
    if n <= 1 {
        t[0]
    } else {
        let best = nearest_upto(t, p, n - 1);
        if spec_manhattan(p, t[n - 1].1) < spec_manhattan(p, best.1) {
            t[n - 1]
        } else {
            best
        }
    }
}

/// The first target closest to `p`.
pub open spec fn nearest(t: Seq<(u32, GridPos)>, p: GridPos) -> (u32, GridPos) {
    nearest_upto(t, p, t.len() as int)
}

/// The texts of a list of log lines.
pub open spec fn texts(l: Seq<String>) -> Seq<Seq<char>> {
    l.map_values(|s: String| s@)
}

proof fn lemma_texts_push(l: Seq<String>, s: String)
    ensures
        texts(l.push(s)) == texts(l).push(s@),
{
    assert(texts(l.push(s)) =~= texts(l).push(s@));
}

impl Mission {
    fn living_list(&self, team: Team) -> (r: Vec<(u32, GridPos)>)
        ensures
            r@ == living_of(self.mechs@, team),
            forall|i: int| 0 <= i < r@.len() ==> exists|j: int| 0 <= j < self.mechs@.len() && #[trigger] r@[i].1 == self.mechs@[j].position,
    {
        let mut r: Vec<(u32, GridPos)> = Vec::new();
        let mut i: usize = 0;
        while i < self.mechs.len()
            invariant
                0 <= i <= self.mechs@.len(),
                r@ == living_upto(self.mechs@, team, i as int),
                forall|a: int| 0 <= a < r@.len() ==> exists|j: int| 0 <= j < self.mechs@.len() && #[trigger] r@[a].1 == self.mechs@[j].position,
            decreases self.mechs@.len() - i,
        {
            let m = &self.mechs[i];
            if m.team == team && !m.destroyed {
                r.push((m.id, m.position));
            }
            i = i + 1;
        }
        r
    }

    fn nearest_target(players: &Vec<(u32, GridPos)>, p: GridPos) -> (r: (u32, GridPos))
        requires
            players@.len() > 0,
            coord_ok(p),
            forall|i: int| 0 <= i < players@.len() ==> coord_ok(#[trigger] players@[i].1),
        ensures
            r == nearest(players@, p),
            coord_ok(r.1),
    {
        let mut best = players[0];
        let mut i: usize = 1;
        while i < players.len()
            invariant
                1 <= i <= players@.len(),
                coord_ok(p),
                forall|a: int| 0 <= a < players@.len() ==> coord_ok(#[trigger] players@[a].1),
                best == nearest_upto(players@, p, i as int),
                coord_ok(best.1),
            decreases players@.len() - i,
        {
            let cand = players[i];
            proof {
                distance_fits(p, cand.1);
                distance_fits(p, best.1);
            }
            if Grid::manhattan(p, cand.1) < Grid::manhattan(p, best.1) {
                best = cand;
            }
            i = i + 1;
        }
        best
    }

    /// Plan the enemy phase: enemies refresh their turn, then each standing
    /// enemy (in order) announces its intent and queues its plan against the
    /// nearest standing player mech; nothing is planned when no player mech
    /// stands.
    pub fn begin_enemy_turn(&mut self)
        requires
            old(self).wf(),
        ensures
            final(self).wf(),
            final(self).phase == TurnPhase::Enemy,
            final(self).mechs@ == refresh_all(old(self).mechs@, Team::Enemy),
            ({
                let players = living_of(final(self).mechs@, Team::Player);
                let enemies = living_of(final(self).mechs@, Team::Enemy);
                &&& players.len() == 0 ==> final(self).enemy_queue@.len() == 0 && final(self).log
                    == old(self).log
                &&& players.len() > 0 ==> final(self).enemy_queue@ == final(self).board().plans_upto(
                    players,
                    enemies,
                    enemies.len() as int,
                )
                &&& players.len() > 0 ==> texts(final(self).log@) == texts(old(self).log@)
                    + final(self).board().intents_upto(enemies, enemies.len() as int) + seq![
                    "Enemy phase."@,
                ]
            }),
            *final(self) == (Mission {
                phase: TurnPhase::Enemy,
                mechs: final(self).mechs,
                enemy_queue: final(self).enemy_queue,
                log: final(self).log,
                ..*old(self)
            }),
    {
        self.phase = TurnPhase::Enemy;
        self.enemy_queue.clear();
        self.refresh_team(Team::Enemy);
        let players = self.living_list(Team::Player);
        if players.len() == 0 {
            return;
        }
        let enemies = self.living_list(Team::Enemy);
        let ghost mechs0 = self.mechs@;
        let ghost log0 = self.log@;
        let ghost st = *self;
        let mut i: usize = 0;
        while i < enemies.len()
            invariant
                0 <= i <= enemies@.len(),
                self.wf(),
                self.mechs@ == mechs0,
                players@ == living_of(mechs0, Team::Player),
                enemies@ == living_of(mechs0, Team::Enemy),
                players@.len() > 0,
                forall|a: int| 0 <= a < players@.len() ==> coord_ok(#[trigger] players@[a].1),
                self.enemy_queue@ == self.board().plans_upto(players@, enemies@, i as int),
                texts(self.log@) == texts(log0) + self.board().intents_upto(enemies@, i as int),
                *self == (Mission { enemy_queue: self.enemy_queue, log: self.log, ..st }),
            decreases enemies@.len() - i,
        {
            let eid = enemies[i].0;
            proof {
                lemma_find_unit(self.mechs@, eid);
            }
            match self.find_index(eid) {
                None => {},
                Some(k) => {
                    let epos = self.mechs[k].position;
                    let mp = self.mechs[k].move_left;
                    let range = self.mechs[k].attack_range();
                    let kind = self.mechs[k].alien;
                    let target = Self::nearest_target(&players, epos);
                    match kind {
                        Some(AlienKind::Splinter) => {
                            let line = Self::name_then(&self.mechs[k].name, " kites and harasses.");
                            proof {
                                lemma_texts_push(self.log@, line);
                            }
                            self.log.push(line);
                        },
                        Some(AlienKind::Mass) => {
                            let line = Self::name_then(
                                &self.mechs[k].name,
                                " advances under pressure.",
                            );
                            proof {
                                lemma_texts_push(self.log@, line);
                            }
                            self.log.push(line);
                        },
                        None => {},
                    }
                    let mut planned = self.plan_enemy_actions(
                        eid,
                        epos,
                        mp,
                        range,
                        kind,
                        target.0,
                        target.1,
                    );
                    self.enemy_queue.append(&mut planned);
                },
            }
            proof {
                assert(self.board().intents_upto(enemies@, i + 1) == self.board().intents_upto(enemies@, i as int)
                    + self.board().intent_for(enemies@[i as int].0));
                assert(texts(self.log@) =~= texts(log0) + self.board().intents_upto(enemies@, i + 1));
            }
            i = i + 1;
        }
        let line = String::from_str("Enemy phase.");
        proof {
            lemma_texts_push(self.log@, line);
            assert(texts(self.log@.push(line)) =~= texts(log0) + self.board().intents_upto(
                enemies@,
                enemies@.len() as int,
            ) + seq!["Enemy phase."@]);
        }
        self.log.push(line);
    }
}

/// The order roll of a unit on a turn, in percent: `(turn * 17 mod 2^32 + id) mod 100`.
pub open spec fn order_roll(turn: u32, unit_id: u32) -> int {
    ((turn as int * 17) % 0x1_0000_0000 + unit_id) % 100
}

/// The sync-crit roll of a unit on a turn, in percent:
/// `(turn * 31 mod 2^32 + id * 13 mod 2^32) mod 100`.
pub open spec fn sync_roll(turn: u32, unit_id: u32) -> int {
    ((turn as int * 31) % 0x1_0000_0000 + (unit_id as int * 13) % 0x1_0000_0000) % 100
}

/// Deterministic 0–99 roll deciding whether an armed pilot refuses an order
/// (the pilot refuses when the roll, read as a fraction of 100, is below the
/// refuse chance). Defined while the sum does not overflow.
pub fn order_roll_percent(turn: u32, unit_id: u32) -> (r: u32)
    requires
        (turn as int * 17) % 0x1_0000_0000 + unit_id <= u32::MAX,
    ensures
        r == order_roll(turn, unit_id),
        r < 100,
{
    (turn.wrapping_mul(17) + unit_id) % 100
}

/// Deterministic 0–99 roll deciding whether a high-sync strike crits.
/// Defined while the sum does not overflow.
pub fn sync_roll_percent(turn: u32, unit_id: u32) -> (r: u32)
    requires
        (turn as int * 31) % 0x1_0000_0000 + (unit_id as int * 13) % 0x1_0000_0000 <= u32::MAX,
    ensures
        r == sync_roll(turn, unit_id),
        r < 100,
{
    (turn.wrapping_mul(31) + unit_id.wrapping_mul(13)) % 100
}

/// Log line for the city losing protection.
pub open spec fn collateral_text(city_hp: i32) -> Seq<char> {
    "City took collateral damage. Protection: "@ + decimal_text(city_hp as int) + "%"@
}

/// Log line opening a player turn.
pub open spec fn your_move_text(turn: u32) -> Seq<char> {
    "Turn "@ + decimal_text(turn as int) + " — your move."@
}

impl Mission {
    /// Take the next enemy action off the front of the queue (the caller
    /// applies it).
    pub fn pop_enemy_action(&mut self) -> (r: Option<Action>)
        ensures
            old(self).enemy_queue@.len() == 0 ==> r is None && final(self).enemy_queue@
                == old(self).enemy_queue@,
            old(self).enemy_queue@.len() > 0 ==> r == Some(old(self).enemy_queue@[0])
                && final(self).enemy_queue@ == old(self).enemy_queue@.drop_first(),
            *final(self) == (Mission { enemy_queue: final(self).enemy_queue, ..*old(self) }),
    {
        if self.enemy_queue.len() == 0 {
            return None;
        }
        let action = self.enemy_queue.remove(0);
        assert(self.enemy_queue@ =~= old(self).enemy_queue@.drop_first());
        Some(action)
    }

    /// Close the enemy phase: the player phase of the next turn begins and
    /// player mechs refresh; while any enemy stands the city loses three
    /// points of protection (not below 0), which is logged; then the new
    /// turn is announced.
    pub fn finish_enemy_turn(&mut self)
        requires
            old(self).wf(),
            old(self).turn < u32::MAX,
        ensures
            final(self).wf(),
            final(self).phase == TurnPhase::Player,
            final(self).turn == old(self).turn + 1,
            final(self).mechs@ == refresh_all(old(self).mechs@, Team::Player),
            any_living(old(self).mechs@, Team::Enemy) ==> final(self).city_hp == vstd::math::max(
                old(self).city_hp - 3,
                0,
            ) && texts(final(self).log@) == texts(old(self).log@) + seq![
                collateral_text(final(self).city_hp),
                your_move_text(final(self).turn),
            ],
            !any_living(old(self).mechs@, Team::Enemy) ==> final(self).city_hp == old(self).city_hp
                && texts(final(self).log@) == texts(old(self).log@) + seq![
                your_move_text(final(self).turn),
            ],
            *final(self) == (Mission {
                phase: TurnPhase::Player,
                turn: final(self).turn,
                mechs: final(self).mechs,
                city_hp: final(self).city_hp,
                log: final(self).log,
                ..*old(self)
            }),
    {
        self.phase = TurnPhase::Player;
        self.turn = self.turn + 1;
        self.refresh_team(Team::Player);
        let enemies_left = self.any_living_of(Team::Enemy);
        proof {
            assert(any_living(self.mechs@, Team::Enemy) == any_living(old(self).mechs@, Team::Enemy))
                by {
                if any_living(old(self).mechs@, Team::Enemy) {
                    let i = choose|i: int|
                        0 <= i < old(self).mechs@.len() && (#[trigger] old(self).mechs@[i]).team
                            == Team::Enemy && !old(self).mechs@[i].destroyed;
                    assert(self.mechs@[i] == refreshed(old(self).mechs@[i]) || self.mechs@[i]
                        == old(self).mechs@[i]);
                }
                if any_living(self.mechs@, Team::Enemy) {
                    let i = choose|i: int|
                        0 <= i < self.mechs@.len() && (#[trigger] self.mechs@[i]).team == Team::Enemy
                            && !self.mechs@[i].destroyed;
                    assert(self.mechs@[i] == old(self).mechs@[i]);
                }
            }
        }
        if enemies_left {
            self.city_hp = if self.city_hp - 3 > 0 {
                self.city_hp - 3
            } else {
                0
            };
            let mut line = String::from_str("City took collateral damage. Protection: ");
            append_decimal(&mut line, self.city_hp as i64);
            line.append("%");
            proof {
                lemma_texts_push(self.log@, line);
            }
            self.log.push(line);
        }
        let mut line = String::from_str("Turn ");
        append_decimal(&mut line, self.turn as i64);
        line.append(" — your move.");
        proof {
            lemma_texts_push(self.log@, line);
        }
        self.log.push(line);
        proof {
            assert(texts(self.log@) =~= texts(old(self).log@) + if enemies_left {
                seq![collateral_text(self.city_hp), your_move_text(self.turn)]
            } else {
                seq![your_move_text(self.turn)]
            });
        }
    }
}

/// The outcome line that closes a smoke run.
pub open spec fn smoke_outcome_text(m: Mission) -> Seq<char> {
    if m.spec_is_won() {
        "SMOKE: Mission won."@
    } else if m.spec_is_lost() {
        "SMOKE: Mission lost."@
    } else {
        "SMOKE: Stopped after "@ + decimal_text(m.turn as int) + " turns."@
    }
}

impl Mission {
    /// Close a smoke run: log how many player attacks landed, then whether
    /// the mission was won, lost, or stopped on the current turn.
    pub fn log_smoke_summary(&mut self, player_hits: u32)
        ensures
            texts(final(self).log@) == texts(old(self).log@) + seq![
                "SMOKE: player hits="@ + decimal_text(player_hits as int),
                smoke_outcome_text(*old(self)),
            ],
            *final(self) == (Mission { log: final(self).log, ..*old(self) }),
    {
        let mut hits = String::from_str("SMOKE: player hits=");
        append_decimal(&mut hits, player_hits as i64);
        proof {
            lemma_texts_push(self.log@, hits);
        }
        self.log.push(hits);
        let outcome = if self.is_won() {
            String::from_str("SMOKE: Mission won.")
        } else if self.is_lost() {
            String::from_str("SMOKE: Mission lost.")
        } else {
            let mut line = String::from_str("SMOKE: Stopped after ");
            append_decimal(&mut line, self.turn as i64);
            line.append(" turns.");
            line
        };
        proof {
            lemma_texts_push(self.log@, outcome);
            assert(texts(self.log@.push(outcome)) =~= texts(old(self).log@) + seq![
                "SMOKE: player hits="@ + decimal_text(player_hits as int),
                smoke_outcome_text(*old(self)),
            ]);
        }
        self.log.push(outcome);
    }
}

/// City protection never leaves 0..=100: the enemy phase takes three points
/// but not below zero, and destroying an enemy gives two back but not above
/// one hundred.
pub proof fn city_protection_stays_in_range(city: int)
    requires
        0 <= city <= 100,
    ensures
        0 <= vstd::math::max(city - 3, 0) <= 100,
        0 <= vstd::math::min(city + 2, 100) <= 100,
{
}

impl Mission {
    /// The first unit with this id, to change in place.
    pub fn mech_mut(&mut self, id: u32) -> (r: Option<&mut Mech>)
        ensures
            find_unit(old(self).mechs@, id) == -1 ==> r is None && *final(self) == *old(self),
            find_unit(old(self).mechs@, id) != -1 ==> r is Some,
            r matches Some(mr) ==> ({
                let k = find_unit(old(self).mechs@, id);
                &&& *mr == old(self).mechs@[k]
                &&& final(self).mechs@ == old(self).mechs@.update(k, *final(mr))
                &&& *final(self) == (Mission { mechs: final(self).mechs, ..*old(self) })
            }),
    {
        proof {
            lemma_find_unit(self.mechs@, id);
        }
        match self.find_index(id) {
            Some(k) => Some(&mut self.mechs[k]),
            None => None,
        }
    }
}

/// A unit that has spent its action this turn (attacked, waited or locked
/// up) can no longer step, turn or attack until its turn refreshes.
pub proof fn spent_unit_cannot_order(m: Mission, unit_id: u32, to: GridPos, facing: Facing, target_id: u32, limb: LimbKind)
    requires
        find_unit(m.mechs@, unit_id) != -1,
        m.mechs@[find_unit(m.mechs@, unit_id)].acted,
    ensures
        m.spec_check_order(Action::Move { unit_id, to }) is Err,
        m.spec_check_order(Action::Rotate { unit_id, facing }) is Err,
        m.spec_check_order(Action::Attack { attacker_id: unit_id, target_id, limb }) is Err,
{
}

impl Mission {
    /// `(id, position)` of the standing units of `team`, in order.
    pub fn living_mechs(&self, team: Team) -> (r: Vec<(u32, GridPos)>)
        ensures
            r@ == living_of(self.mechs@, team),
    {
        self.living_list(team)
    }
}

/// Distance from `from` to the first unit with id `id`, or `i32::MAX` if
/// there is none.
pub open spec fn distance_to_unit(s: Seq<Mech>, from: GridPos, id: u32) -> int {
    let k = find_unit(s, id);
    if k == -1 {
        i32::MAX as int
    } else {
        spec_manhattan(from, s[k].position)
    }
}

/// The first of the first `n` candidate ids closest to `from` (`n >= 1`).
pub open spec fn closest_upto(s: Seq<Mech>, ids: Seq<u32>, from: GridPos, n: int) -> u32
    decreases n,
{
    if n <= 1 {
        ids[0]
    } else {
        let best = closest_upto(s, ids, from, n - 1);
        if distance_to_unit(s, from, ids[n - 1]) < distance_to_unit(s, from, best) {
            ids[n - 1]
        } else {
            best
        }
    }
}

impl Mission {
    /// The candidate closest to `from` (the first on ties; ids with no unit
    /// count as infinitely far), or `None` when there are no candidates.
    pub fn pick_target(&self, candidates: &Vec<u32>, from: GridPos) -> (r: Option<u32>)
        requires
            self.wf(),
            coord_ok(from),
        ensures
            candidates@.len() == 0 ==> r is None,
            candidates@.len() > 0 ==> r == Some(
                closest_upto(self.mechs@, candidates@, from, candidates@.len() as int),
            ),
            r matches Some(c) ==> candidates@.contains(c) && forall|j: int|
                0 <= j < candidates@.len() ==> distance_to_unit(self.mechs@, from, c)
                    <= distance_to_unit(self.mechs@, from, #[trigger] candidates@[j]),
    {
        if candidates.len() == 0 {
            return None;
        }
        let mut best = candidates[0];
        let mut best_d = self.distance_to(from, best);
        let mut i: usize = 1;
        while i < candidates.len()
            invariant
                1 <= i <= candidates@.len(),
                self.wf(),
                coord_ok(from),
                best == closest_upto(self.mechs@, candidates@, from, i as int),
                best_d == distance_to_unit(self.mechs@, from, best),
            decreases candidates@.len() - i,
        {
            let id = candidates[i];
            let d = self.distance_to(from, id);
            if d < best_d {
                best = id;
                best_d = d;
            }
            i = i + 1;
        }
        proof {
            let k = closest_is_first_nearest(self.mechs@, candidates@, from, candidates@.len() as int);
            assert(candidates@[k] == best);
        }
        Some(best)
    }

    fn distance_to(&self, from: GridPos, id: u32) -> (d: i32)
        requires
            self.wf(),
            coord_ok(from),
        ensures
            d == distance_to_unit(self.mechs@, from, id),
    {
        proof {
            lemma_find_unit(self.mechs@, id);
        }
        match self.find_index(id) {
            Some(k) => {
                proof {
                    distance_fits(from, self.mechs@[k as int].position);
                }
                Grid::manhattan(from, self.mechs[k].position)
            },
            None => i32::MAX,
        }
    }

    /// The tiles a unit could step onto now: its in-bounds compass
    /// neighbours (N, E, S, W order) no other standing unit holds, or none
    /// if it cannot move or does not exist.
    pub fn step_tiles(&self, unit_id: u32) -> (r: Vec<GridPos>)
        requires
            self.wf(),
        ensures
            ({
                let k = find_unit(self.mechs@, unit_id);
                &&& (k == -1 || !self.mechs@[k].spec_can_move()) ==> r@.len() == 0
                &&& k != -1 && self.mechs@[k].spec_can_move() ==> r@ == self.board().free_neighbours(
                    self.mechs@[k].position,
                    unit_id,
                    4,
                )
            }),
    {
        proof {
            lemma_find_unit(self.mechs@, unit_id);
        }
        let mut r: Vec<GridPos> = Vec::new();
        let k = match self.find_index(unit_id) {
            Some(k) => k,
            None => return r,
        };
        if !self.mechs[k].can_move() {
            return r;
        }
        let from = self.mechs[k].position;
        let mut j: usize = 0;
        while j < 4
            invariant
                j <= 4,
                self.wf(),
                0 <= k < self.mechs@.len(),
                from == self.mechs@[k as int].position,
                coord_ok(from),
                r@ == self.board().free_neighbours(from, unit_id, j as int),
            decreases 4 - j,
        {
            let dir = if j == 0 {
                Facing::North
            } else if j == 1 {
                Facing::East
            } else if j == 2 {
                Facing::South
            } else {
                Facing::West
            };
            let to = from.offset(dir.delta());
            if self.grid.in_bounds(to) && !self.occupied(to, Some(unit_id)) {
                r.push(to);
            }
            j = j + 1;
        }
        r
    }

    /// Whether `target_id` stands within `attacker_id`'s attack range.
    pub fn in_attack_range(&self, attacker_id: u32, target_id: u32) -> (r: bool)
        requires
            self.wf(),
        ensures
            ({
                let s = self.mechs@;
                let a = find_unit(s, attacker_id);
                let t = find_unit(s, target_id);
                r == (a != -1 && t != -1 && spec_manhattan(s[a].position, s[t].position)
                    <= spec_attack_range(s[a].alien, s[a].arms_spent))
            }),
    {
        proof {
            lemma_find_unit(self.mechs@, attacker_id);
            lemma_find_unit(self.mechs@, target_id);
        }
        match (self.find_index(attacker_id), self.find_index(target_id)) {
            (Some(a), Some(t)) => {
                proof {
                    distance_fits(self.mechs@[a as int].position, self.mechs@[t as int].position);
                }
                Grid::manhattan(self.mechs[a].position, self.mechs[t].position)
                    <= self.mechs[a].attack_range()
            },
            _ => false,
        }
    }
}

/// What the pilot of a player unit says to an order if a refusal is armed,
/// worked out by the application from the pilot's ratios. The rules only
/// ask when the order is legal and the unit's refusal is armed; a consulted
/// pilot is described by its mood, which words the beat.
#[derive(Debug, Clone, PartialEq, Eq)]
pub enum PilotVerdict {
    /// The pilot obeys without a drama beat.
    Obeys,
    /// The armed refusal fires: the order is skipped and the unit locks up.
    Refuses(PilotMood),
    /// The armed refusal is spent but the pilot obeys.
    Steadies(PilotMood),
}

/// What a strike that reaches the limbs did to the target, worked out by the
/// application from hit points: the target's limb facts afterwards, the
/// damage as the log shows it, the sync note (empty, or a high / low sync or
/// crit remark) that follows it, and whether the attacker's pilot read the
/// target's core (high sync) and struck it for bonus damage.
#[derive(Debug, Clone, PartialEq, Eq)]
pub struct HitReport {
    pub stride: i32,
    pub arms_spent: bool,
    pub torso_functional: bool,
    pub damage: String,
    pub sync_note: String,
    pub core_strike: bool,
}

/// The result of putting an order to the rules.
#[derive(Debug, Clone, Copy, PartialEq, Eq)]
pub struct OrderOutcome {
    pub result: Result<ApplyResult, ActionError>,
    /// The pilot's armed refusal was consulted (and so is spent).
    pub pilot_consulted: bool,
    /// The strike was absorbed by an AT Field.
    pub absorbed: bool,
}

/// The pilot of unit `u` is consulted about an order of `team`: a player
/// unit with a refusal armed.
pub open spec fn consults(team: Team, u: Mech) -> bool {
    team == Team::Player && u.refusal_armed
}

/// `s` with the refusal of unit `k` spent, if `spend`.
pub open spec fn disarmed(s: Seq<Mech>, k: int, spend: bool) -> Seq<Mech> {
    if spend {
        s.update(k, Mech { refusal_armed: false, ..s[k] })
    } else {
        s
    }
}

/// The drama beat a verdict shows, and the pilot it is about.
pub open spec fn verdict_beat(verdict: PilotVerdict) -> Option<(PilotDramaKind, PilotMood)> {
    match verdict {
        PilotVerdict::Obeys => None,
        PilotVerdict::Refuses(m) => Some((PilotDramaKind::Refuse, m)),
        PilotVerdict::Steadies(m) => Some((PilotDramaKind::Steady, m)),
    }
}

/// The verb a drama line uses for an order.
pub open spec fn order_verb_text(action: Action) -> Seq<char> {
    match action {
        Action::Move { .. } => "step"@,
        Action::Rotate { .. } => "turn"@,
        Action::Attack { .. } => "attack"@,
        Action::Wait { .. } => "wait"@,
    }
}

fn order_verb(action: &Action) -> (r: &'static str)
    ensures
        r@ == order_verb_text(*action),
{
    match action {
        Action::Move { .. } => "step",
        Action::Rotate { .. } => "turn",
        Action::Attack { .. } => "attack",
        Action::Wait { .. } => "wait",
    }
}

/// A hit on `t` is a core strike: the report says the core was struck and
/// `t` is an Angel (an alien), whose core a high-sync pilot can read.
pub open spec fn core_hit(t: Mech, hit: HitReport) -> bool {
    hit.core_strike && t.alien is Some
}

/// Combat-log line of a strike that reaches the limbs; a core strike is
/// marked after the sync note.
pub open spec fn hit_text(
    name: Seq<char>,
    target: Seq<char>,
    limb: LimbKind,
    hit: HitReport,
    core: bool,
) -> Seq<char> {
    name + " attacked "@ + target + " ("@ + limb_label_text(limb) + ") for "@ + hit.damage@
        + " dmg"@ + hit.sync_note@ + if core {
        " — CORE STRIKE"@
    } else {
        Seq::<char>::empty()
    } + if hit.torso_functional {
        Seq::<char>::empty()
    } else {
        " — DESTROYED"@
    }
}

/// The unit after a hit report: `Mech::update_from_limbs` with its facts.
pub open spec fn after_hit(t: Mech, hit: HitReport) -> Mech {
    if hit.torso_functional {
        Mech { stride: hit.stride, arms_spent: hit.arms_spent, ..t }
    } else {
        Mech {
            stride: hit.stride,
            arms_spent: hit.arms_spent,
            destroyed: true,
            move_left: 0,
            acted: true,
            ..t
        }
    }
}

impl Mission {
    /// The banner of a `kind` beat about `pilot` in unit `uid`; `detail` is
    /// the order's verb or the trauma reason.
    fn beat_about(&self, uid: u32, kind: PilotDramaKind, pilot: &PilotMood, detail: &str) -> (f:
        PilotHudFlash)
        requires
            find_unit(self.mechs@, uid) != -1,
        ensures
            shows_beat(
                f,
                kind,
                *pilot,
                drama_text(kind, *pilot, self.mechs@[find_unit(self.mechs@, uid)].name@, detail@),
            ),
    {
        proof {
            lemma_find_unit(self.mechs@, uid);
        }
        let k = self.find_index(uid).unwrap();
        let line = drama_line(kind, pilot, self.mechs[k].name.as_str(), detail);
        PilotHudFlash::new(kind, pilot, line)
    }

    /// The log line of a strike by `attacker_id` on `target_id`'s `limb`,
    /// and whether it is a core strike.
    fn hit_line(&self, attacker_id: u32, target_id: u32, limb: LimbKind, hit: &HitReport) -> (r: (
        String,
        bool,
    ))
        requires
            find_unit(self.mechs@, attacker_id) != -1,
            find_unit(self.mechs@, target_id) != -1,
        ensures
            r.1 == core_hit(self.mechs@[find_unit(self.mechs@, target_id)], *hit),
            r.0@ == hit_text(
                self.mechs@[find_unit(self.mechs@, attacker_id)].name@,
                self.mechs@[find_unit(self.mechs@, target_id)].name@,
                limb,
                *hit,
                r.1,
            ),
    {
        proof {
            lemma_find_unit(self.mechs@, attacker_id);
            lemma_find_unit(self.mechs@, target_id);
        }
        let ka = self.find_index(attacker_id).unwrap();
        let kt = self.find_index(target_id).unwrap();
        let mut r = Self::name_then(&self.mechs[ka].name, " attacked ");
        r.append(self.mechs[kt].name.as_str());
        r.append(" (");
        r.append(limb.label());
        r.append(") for ");
        r.append(hit.damage.as_str());
        r.append(" dmg");
        r.append(hit.sync_note.as_str());
        let core = hit.core_strike && self.mechs[kt].alien.is_some();
        if core {
            r.append(" — CORE STRIKE");
        }
        if !hit.torso_functional {
            r.append(" — DESTROYED");
        }
        proof {
            assert(r@ =~= hit_text(
                self.mechs@[find_unit(self.mechs@, attacker_id)].name@,
                self.mechs@[find_unit(self.mechs@, target_id)].name@,
                limb,
                *hit,
                core,
            ));
        }
        (r, core)
    }
}

/// The trauma reason a stress spike names: the wrecked limb, near death, or
/// both.
pub open spec fn spike_reason_text(limb: LimbKind, heavy: bool, near: bool) -> Seq<char> {
    if near && heavy {
        limb_label_text(limb) + " wrecked, near-death"@
    } else if near {
        "near-death"@
    } else {
        limb_label_text(limb) + " wrecked"@
    }
}

fn spike_reason(limb: LimbKind, heavy: bool, near: bool) -> (r: String)
    ensures
        r@ == spike_reason_text(limb, heavy, near),
{
    if near && !heavy {
        String::from_str("near-death")
    } else {
        let mut r = String::from_str(limb.label());
        if near {
            r.append(" wrecked, near-death");
        } else {
            r.append(" wrecked");
        }
        r
    }
}

impl Mission {
    /// The pilot whose stress a hit on unit `target_id` spikes: the pilot of
    /// a player unit that had a limb wrecked (`heavy`) or was brought near
    /// death (`near`) by it.
    pub open spec fn spec_spiked_pilot(&self, target_id: u32, heavy: bool, near: bool) -> Option<
        u32,
    > {
        let k = find_unit(self.mechs@, target_id);
        if k != -1 && self.mechs@[k].team == Team::Player && (heavy || near) {
            self.mechs@[k].pilot_id
        } else {
            None
        }
    }

    /// The pilot whose stress a hit spikes, if any (see `spec_spiked_pilot`).
    pub fn spiked_pilot(&self, target_id: u32, heavy: bool, near: bool) -> (r: Option<u32>)
        ensures
            r == self.spec_spiked_pilot(target_id, heavy, near),
    {
        proof {
            lemma_find_unit(self.mechs@, target_id);
        }
        match self.find_index(target_id) {
            Some(k) => {
                if self.mechs[k].team == Team::Player && (heavy || near) {
                    self.mechs[k].pilot_id
                } else {
                    None
                }
            },
            None => None,
        }
    }

    /// Show the stress spike of a hit on unit `target_id`'s `limb`, for the
    /// pilot it spikes (see `spec_spiked_pilot`), whose mood after the spike
    /// is `pilot`: the beat names the unit and the trauma reason, and the
    /// unit's refusal is armed for its next legal order. Nothing happens
    /// unless `pilot` is that pilot.
    pub fn record_stress_spike(
        &mut self,
        target_id: u32,
        pilot: &PilotMood,
        limb: LimbKind,
        heavy: bool,
        near: bool,
    ) -> (recorded: bool)
        requires
            old(self).wf(),
        ensures
            final(self).wf(),
            recorded == (old(self).spec_spiked_pilot(target_id, heavy, near) == Some(
                pilot.pilot_id,
            )),
            !recorded ==> *final(self) == *old(self),
            recorded ==> ({
                let k = find_unit(old(self).mechs@, target_id);
                let u = old(self).mechs@[k];
                let line = drama_text(
                    PilotDramaKind::StressSpike,
                    *pilot,
                    u.name@,
                    spike_reason_text(limb, heavy, near),
                );
                &&& final(self).pilot_flash matches Some(f) && shows_beat(
                    f,
                    PilotDramaKind::StressSpike,
                    *pilot,
                    line,
                )
                &&& final(self).pending_fx@ == old(self).pending_fx@.push(
                    CombatFx::PilotDrama { unit_id: target_id, kind: PilotDramaKind::StressSpike },
                )
                &&& final(self).log@ == old(self).log@.push(final(self).log@.last())
                &&& final(self).log@.last()@ == line
                &&& final(self).mechs@ == with_unit(
                    old(self).mechs@,
                    k,
                    Mech { refusal_armed: true, ..u },
                )
                &&& *final(self) == (Mission {
                    mechs: final(self).mechs,
                    pilot_flash: final(self).pilot_flash,
                    pending_fx: final(self).pending_fx,
                    log: final(self).log,
                    ..*old(self)
                })
            }),
    {
        match self.spiked_pilot(target_id, heavy, near) {
            Some(pid) => {
                if pid != pilot.pilot_id {
                    return false;
                }
            },
            None => {
                return false;
            },
        }
        let reason = spike_reason(limb, heavy, near);
        let flash = self.beat_about(target_id, PilotDramaKind::StressSpike, pilot, reason.as_str());
        self.record_drama(target_id, flash);
        proof {
            lemma_find_unit(self.mechs@, target_id);
        }
        let k = self.find_index(target_id).unwrap();
        self.mechs[k].refusal_armed = true;
        proof {
            assert forall|i: int| 0 <= i < self.mechs@.len() implies coord_ok(
                #[trigger] self.mechs@[i].position,
            ) by {
                assert(self.mechs@[i].position == old(self).mechs@[i].position);
            }
        }
        true
    }
}

impl Mission {
    /// Whether the rules accept `action` before its pilot is asked: the order
    /// checks (`spec_check_order`) and, for an attack, the target checks
    /// (`spec_aim`). Gives the acting unit's team, or why the order is
    /// illegal.
    pub open spec fn spec_legal(&self, action: Action) -> Result<Team, ActionError> {
        match self.spec_check_order(action) {
            Err(e) => Err(e),
            Ok(team) => match action {
                Action::Attack { attacker_id, target_id, .. } => match self.spec_aim(
                    attacker_id,
                    target_id,
                ) {
                    Err(e) => Err(e),
                    Ok(_) => Ok(team),
                },
                _ => Ok(team),
            },
        }
    }

    /// Spend the refusal armed on the unit at index `k`.
    fn disarm(&mut self, k: usize)
        requires
            old(self).wf(),
            k < old(self).mechs@.len(),
        ensures
            final(self).wf(),
            final(self).mechs@ == disarmed(old(self).mechs@, k as int, true),
            *final(self) == (Mission { mechs: final(self).mechs, ..*old(self) }),
    {
        self.mechs[k].refusal_armed = false;
        proof {
            assert forall|i: int| 0 <= i < self.mechs@.len() implies coord_ok(
                #[trigger] self.mechs@[i].position,
            ) by {
                assert(self.mechs@[i].position == old(self).mechs@[i].position);
            }
        }
    }

    /// Put an order to the rules, in the order the game resolves it:
    /// legality (`spec_legal`: the order, and for an attack its target);
    /// then, for a player unit with a refusal armed, the pilot's verdict,
    /// which spends the refusal (a refusal skips the order and locks the
    /// unit up, nothing else happens; a refusal or a steadied pilot shows
    /// its beat); then the order itself. An attack meets the target's AT
    /// Field (`strike`), otherwise applies `hit` to the target and logs the
    /// hit line (a core strike on an Angel is marked in the line and raises a
    /// `CoreStrike` effect), and ends with `conclude_attack`.
    #[verifier::rlimit(100)]
    #[verifier::spinoff_prover]
    pub fn apply_action(&mut self, action: Action, verdict: PilotVerdict, hit: Option<HitReport>) -> (r: OrderOutcome)
        requires
            old(self).wf(),
            action is Attack ==> hit is Some,
        ensures
            final(self).wf(),
            old(self).spec_legal(action) matches Err(e) ==> r == (OrderOutcome {
                result: Err(e),
                pilot_consulted: false,
                absorbed: false,
            }) && *final(self) == *old(self),
            old(self).spec_legal(action) matches Ok(team) ==> ({
                let s = old(self).mechs@;
                let uid = match action {
                    Action::Move { unit_id, .. } => unit_id,
                    Action::Rotate { unit_id, .. } => unit_id,
                    Action::Attack { attacker_id, .. } => attacker_id,
                    Action::Wait { unit_id } => unit_id,
                };
                let k = find_unit(s, uid);
                let u = s[k];
                let consulted = consults(team, u);
                let shows = consulted && !(verdict is Obeys);
                let refused = consulted && verdict is Refuses;
                let beat = verdict_beat(verdict)->Some_0;
                let beat_line = drama_text(beat.0, beat.1, u.name@, order_verb_text(action));
                let log1 = if shows {
                    texts(old(self).log@).push(beat_line)
                } else {
                    texts(old(self).log@)
                };
                let fx1 = if shows {
                    old(self).pending_fx@.push(CombatFx::PilotDrama { unit_id: uid, kind: beat.0 })
                } else {
                    old(self).pending_fx@
                };
                &&& r.pilot_consulted == consulted
                &&& consulted ==> !final(self).mechs@[k].refusal_armed
                &&& final(self).grid == old(self).grid
                &&& final(self).phase == old(self).phase
                &&& final(self).turn == old(self).turn
                &&& final(self).enemy_queue == old(self).enemy_queue
                &&& shows ==> (final(self).pilot_flash matches Some(f) && shows_beat(
                    f,
                    beat.0,
                    beat.1,
                    beat_line,
                ))
                &&& !shows ==> final(self).pilot_flash == old(self).pilot_flash
                &&& refused ==> r.result == Ok::<ApplyResult, ActionError>(ApplyResult::Skipped)
                    && !r.absorbed && final(self).mechs@ == disarmed(
                    with_unit(s, k, Mech { acted: true, move_left: 0, ..u }),
                    k,
                    true,
                ) && texts(final(self).log@) == log1 && final(self).pending_fx@ == fx1
                    && final(self).city_hp == old(self).city_hp
                &&& !refused ==> match action {
                    Action::Move { to, .. } => {
                        let f = facing_after_step(u.position, to, u.facing);
                        &&& r == (OrderOutcome { result: Ok(ApplyResult::Done), pilot_consulted: consulted, absorbed: false })
                        &&& final(self).mechs@ == disarmed(
                            with_unit(
                                s,
                                k,
                                Mech { position: to, facing: f, move_left: (u.move_left - 1) as i32, ..u },
                            ),
                            k,
                            consulted,
                        )
                        &&& texts(final(self).log@) == log1.push(
                            step_text(u.name@, to, f, (u.move_left - 1) as i32),
                        )
                        &&& final(self).pending_fx@ == fx1
                        &&& final(self).city_hp == old(self).city_hp
                    },
                    Action::Rotate { facing, .. } => {
                        &&& r == (OrderOutcome { result: Ok(ApplyResult::Done), pilot_consulted: consulted, absorbed: false })
                        &&& final(self).mechs@ == disarmed(with_unit(s, k, Mech { facing, ..u }), k, consulted)
                        &&& texts(final(self).log@) == log1.push(turn_text(u.name@, facing))
                        &&& final(self).pending_fx@ == fx1
                        &&& final(self).city_hp == old(self).city_hp
                    },
                    Action::Wait { .. } => {
                        &&& r == (OrderOutcome { result: Ok(ApplyResult::Done), pilot_consulted: consulted, absorbed: false })
                        &&& final(self).mechs@ == disarmed(
                            with_unit(s, k, Mech { acted: true, move_left: 0, ..u }),
                            k,
                            consulted,
                        )
                        &&& texts(final(self).log@) == log1.push(hold_text(u.name@))
                        &&& final(self).pending_fx@ == fx1
                        &&& final(self).city_hp == old(self).city_hp
                    },
                    Action::Attack { attacker_id, target_id, limb } => {
                        let aim = old(self).spec_aim(attacker_id, target_id)->Ok_0;
                        let h = hit->Some_0;
                        let kt = find_unit(s, target_id);
                        let t = s[kt];
                        let absorbed = absorbs(t);
                        let t2 = if absorbed {
                            after_strike(t)
                        } else {
                            after_hit(t, h)
                        };
                        let s2 = with_unit(s, kt, t2);
                        let a2 = s2[k];
                        let left = (t.at_field - 1) as u8;
                        &&& r == (OrderOutcome { result: Ok(ApplyResult::Done), pilot_consulted: consulted, absorbed })
                        &&& final(self).mechs@ == disarmed(
                            with_unit(
                                s2,
                                k,
                                Mech {
                                    acted: true,
                                    move_left: 0,
                                    facing: facing_after_attack(aim.attacker_pos, aim.target_pos, a2.facing),
                                    ..a2
                                },
                            ),
                            k,
                            consulted,
                        )
                        &&& absorbed ==> texts(final(self).log@) == log1.push(
                            absorb_text(u.name@, t.name@, left),
                        )
                        &&& absorbed && left > 0 ==> final(self).pending_fx@ == fx1.push(
                            CombatFx::AtFieldAbsorb { target_id },
                        )
                        &&& absorbed && left == 0 ==> final(self).pending_fx@ == fx1.push(
                            CombatFx::AtFieldAbsorb { target_id },
                        ).push(CombatFx::AtFieldBreak { target_id })
                        &&& !absorbed ==> final(self).pending_fx@ == if core_hit(t, h) {
                            fx1.push(CombatFx::CoreStrike { target_id })
                        } else {
                            fx1
                        }
                        &&& !absorbed ==> texts(final(self).log@) == log1.push(
                            hit_text(u.name@, t.name@, limb, h, core_hit(t, h)),
                        )
                        &&& final(self).city_hp == if t2.destroyed && t2.team == Team::Enemy {
                            vstd::math::min(old(self).city_hp + 2, 100)
                        } else {
                            old(self).city_hp as int
                        }
                    },
                }
            }),
            r.result == Ok::<ApplyResult, ActionError>(ApplyResult::Skipped) ==> r.pilot_consulted,
    {
        let team = match self.check_order(&action) {
            Ok(team) => team,
            Err(e) => return OrderOutcome { result: Err(e), pilot_consulted: false, absorbed: false },
        };
        let aim = match action {
            Action::Attack { attacker_id, target_id, .. } => {
                proof {
                    lemma_find_unit(self.mechs@, attacker_id);
                }
                match self.aim(attacker_id, target_id) {
                    Ok(aim) => Some(aim),
                    Err(e) => return OrderOutcome { result: Err(e), pilot_consulted: false, absorbed: false },
                }
            },
            _ => None,
        };
        let uid = match action {
            Action::Move { unit_id, .. } => unit_id,
            Action::Rotate { unit_id, .. } => unit_id,
            Action::Attack { attacker_id, .. } => attacker_id,
            Action::Wait { unit_id } => unit_id,
        };
        proof {
            lemma_find_unit(self.mechs@, uid);
        }
        let k = self.find_index(uid).unwrap();
        let ghost s = self.mechs@;
        let consulted = team == Team::Player && self.mechs[k].refusal_armed;
        if consulted {
            match verdict {
                PilotVerdict::Obeys => {},
                PilotVerdict::Refuses(mood) => {
                    let flash = self.beat_about(uid, PilotDramaKind::Refuse, &mood, order_verb(&action));
                    self.lock_up(uid);
                    proof {
                        lemma_texts_push(self.log@, flash.line);
                    }
                    self.record_drama(uid, flash);
                    self.disarm(k);
                    return OrderOutcome { result: Ok(ApplyResult::Skipped), pilot_consulted: true, absorbed: false };
                },
                PilotVerdict::Steadies(mood) => {
                    let flash = self.beat_about(uid, PilotDramaKind::Steady, &mood, order_verb(&action));
                    proof {
                        lemma_texts_push(self.log@, flash.line);
                    }
                    self.record_drama(uid, flash);
                },
            }
        }
        assert(self.mechs@ == s);
        assert(self.spec_check_order(action) == old(self).spec_check_order(action));
        let out = match action {
            Action::Move { unit_id, to } => {
                let ghost before = self.log@;
                self.commit_move(unit_id, to);
                proof {
                    assert(self.log@ =~= before.push(self.log@.last()));
                    lemma_texts_push(before, self.log@.last());
                }
                OrderOutcome { result: Ok(ApplyResult::Done), pilot_consulted: consulted, absorbed: false }
            },
            Action::Rotate { unit_id, facing } => {
                let ghost before = self.log@;
                self.commit_rotate(unit_id, facing);
                proof {
                    lemma_texts_push(before, self.log@.last());
                }
                OrderOutcome { result: Ok(ApplyResult::Done), pilot_consulted: consulted, absorbed: false }
            },
            Action::Wait { unit_id } => {
                let ghost before = self.log@;
                self.commit_wait(unit_id);
                proof {
                    lemma_texts_push(before, self.log@.last());
                }
                OrderOutcome { result: Ok(ApplyResult::Done), pilot_consulted: consulted, absorbed: false }
            },
            Action::Attack { attacker_id, target_id, limb } => {
                let aim = aim.unwrap();
                proof {
                    lemma_find_unit(self.mechs@, attacker_id);
                    lemma_find_unit(self.mechs@, target_id);
                }
                let ghost before = self.log@;
                let absorbed = self.strike(attacker_id, target_id);
                if absorbed {
                    proof {
                        lemma_texts_push(before, self.log@.last());
                    }
                } else {
                    let h = hit.unwrap();
                    let (line, core) = self.hit_line(attacker_id, target_id, limb, &h);
                    self.update_from_limbs(target_id, h.stride, h.arms_spent, h.torso_functional);
                    proof {
                        lemma_texts_push(self.log@, line);
                    }
                    self.log.push(line);
                    if core {
                        self.pending_fx.push(CombatFx::CoreStrike { target_id });
                    }
                }
                proof {
                    lemma_find_same_ids(s, self.mechs@, attacker_id);
                    lemma_find_same_ids(s, self.mechs@, target_id);
                }
                self.conclude_attack(attacker_id, target_id, aim);
                OrderOutcome { result: Ok(ApplyResult::Done), pilot_consulted: consulted, absorbed }
            },
        };
        if consulted {
            self.disarm(k);
        }
        out
    }
}

/// A Splinter whose target is beyond its range (and beyond kiting distance)
/// closes in: if it has a move point and some free neighbouring tile is one
/// step closer to the target, its plan opens with a `Move` onto a free
/// neighbouring tile one step closer to the target.
pub proof fn splinter_out_of_range_closes_in(
    m: Board,
    eid: u32,
    epos: GridPos,
    mp: int,
    range: int,
    tid: u32,
    tpos: GridPos,
    n: GridPos,
)
    requires
        m.wf(),
        coord_ok(epos),
        coord_ok(tpos),
        mp > 0,
        spec_manhattan(epos, tpos) > range,
        spec_manhattan(epos, tpos) > 2,
        adjacent(epos, n),
        m.free_step(epos, n, eid),
        spec_manhattan(n, tpos) == spec_manhattan(epos, tpos) - 1,
    ensures
        ({
            let plan = m.spec_plan(eid, epos, mp, range, Some(AlienKind::Splinter), tid, tpos);
            &&& plan.len() >= 2
            &&& plan[0] matches Action::Move { unit_id, to } && unit_id == eid && adjacent(epos, to)
                && m.free_step(epos, to, eid) && spec_manhattan(to, tpos) == spec_manhattan(
                epos,
                tpos,
            ) - 1
        }),
{
    let (c0, c1) = toward_candidates(epos, tpos);
    assert(n == c0 || n == c1);
    assert(m.spec_step_toward(epos, tpos, eid) is Some);
    step_toward_closes_in(m, epos, tpos, eid);
    let path = m.splinter_path(eid, epos, mp, range, tpos);
    assert(path.len() >= 1);
    assert(path[0] == m.spec_step_toward(epos, tpos, eid)->Some_0);
    plan_ends_with_one_action(m, eid, epos, mp, range, Some(AlienKind::Splinter), tid, tpos);
}

/// A unit whose arms are spent can only strike an adjacent tile: any attack
/// the rules aim for it is at distance at most one.
pub proof fn spent_arms_strike_adjacent_only(m: Mission, attacker_id: u32, target_id: u32)
    requires
        find_unit(m.mechs@, attacker_id) != -1,
        m.mechs@[find_unit(m.mechs@, attacker_id)].arms_spent,
        m.spec_aim(attacker_id, target_id) is Ok,
    ensures
        m.spec_aim(attacker_id, target_id)->Ok_0.distance <= 1,
        spec_manhattan(
            m.mechs@[find_unit(m.mechs@, attacker_id)].position,
            m.mechs@[find_unit(m.mechs@, target_id)].position,
        ) <= 1,
{
    spent_arms_reach_one_tile(m.mechs@[find_unit(m.mechs@, attacker_id)].alien);
}

/// After an attack along a row or column, the attacker faces the target:
/// north, south, east or west as the target lies; after a diagonal shot (or
/// one on its own tile) it keeps its facing.
pub proof fn attack_faces_a_target_in_line(from: GridPos, to: GridPos, current: Facing)
    requires
        coord_ok(from),
        coord_ok(to),
    ensures
        from.x == to.x && to.y > from.y ==> facing_after_attack(from, to, current) == Facing::North,
        from.x == to.x && to.y < from.y ==> facing_after_attack(from, to, current) == Facing::South,
        from.y == to.y && to.x > from.x ==> facing_after_attack(from, to, current) == Facing::East,
        from.y == to.y && to.x < from.x ==> facing_after_attack(from, to, current) == Facing::West,
        from.x != to.x && from.y != to.y ==> facing_after_attack(from, to, current) == current,
        from == to ==> facing_after_attack(from, to, current) == current,
        from != to && (from.x == to.x || from.y == to.y) ==> spec_delta(
            facing_after_attack(from, to, current),
        ) == toward(from, to),
{
}

/// The target picked among the first `n` candidates is a nearest one: it is
/// the candidate at index `k`, no candidate is closer, and every candidate
/// before it is farther.
pub proof fn closest_is_first_nearest(s: Seq<Mech>, ids: Seq<u32>, from: GridPos, n: int) -> (k: int)
    requires
        1 <= n <= ids.len(),
    ensures
        0 <= k < n,
        ids[k] == closest_upto(s, ids, from, n),
        forall|j: int|
            0 <= j < n ==> distance_to_unit(s, from, ids[k]) <= distance_to_unit(s, from, #[trigger] ids[j]),
        forall|j: int|
            0 <= j < k ==> distance_to_unit(s, from, ids[k]) < distance_to_unit(s, from, #[trigger] ids[j]),
    decreases n,
{
    if n == 1 {
        0
    } else {
        let k0 = closest_is_first_nearest(s, ids, from, n - 1);
        if distance_to_unit(s, from, ids[n - 1]) < distance_to_unit(s, from, ids[k0]) {
            n - 1
        } else {
            k0
        }
    }
}

} // verus!
