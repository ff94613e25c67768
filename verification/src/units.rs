//! Grid positions, facing, limbs, teams, alien archetypes and the tactical
//! state of a mech.

use vstd::prelude::*;
use vstd::string::*;

verus! {

/// Largest coordinate magnitude for which every distance and one-tile step
/// the rules compute still fits an `i32`.
pub const COORD_LIMIT: i32 = 0x1000_0000;

/// A tile on the tactical grid. +X is east, +Y is north.
#[derive(Debug, Clone, Copy, PartialEq, Eq, Structural)]
pub struct GridPos {
    pub x: i32,
    pub y: i32,
}

/// Both coordinates lie within `COORD_LIMIT` of the origin.
pub open spec fn coord_ok(p: GridPos) -> bool {
    -COORD_LIMIT <= p.x <= COORD_LIMIT && -COORD_LIMIT <= p.y <= COORD_LIMIT
}

/// Sign of an integer: -1, 0 or 1.
pub open spec fn sign(v: int) -> int {
    if v > 0 {
        1
    } else if v < 0 {
        -1
    } else {
        0
    }
}

/// `p` moved by `d`, when the sum fits.
pub open spec fn spec_offset(p: GridPos, d: GridPos) -> GridPos {
    GridPos { x: (p.x + d.x) as i32, y: (p.y + d.y) as i32 }
}

/// `a` and `b` are orthogonal neighbours (Manhattan distance one).
pub open spec fn adjacent(a: GridPos, b: GridPos) -> bool {
    vstd::math::abs(a.x - b.x) + vstd::math::abs(a.y - b.y) == 1
}

impl GridPos {
    pub fn new(x: i32, y: i32) -> (r: GridPos)
        ensures
            r.x == x,
            r.y == y,
    {
        GridPos { x, y }
    }

    /// This tile moved by `d` (componentwise sum).
    pub fn offset(self, d: GridPos) -> (r: GridPos)
        requires
            i32::MIN <= self.x + d.x <= i32::MAX,
            i32::MIN <= self.y + d.y <= i32::MAX,
        ensures
            r == spec_offset(self, d),
            r.x == self.x + d.x,
            r.y == self.y + d.y,
    {
        GridPos { x: self.x + d.x, y: self.y + d.y }
    }
}

/// Sign of a difference of two `i32`s, computed without overflow.
pub fn sign_of_difference(a: i32, b: i32) -> (r: i32)
    ensures
        r == sign(a - b),
{
    if a > b {
        1
    } else if a < b {
        -1
    } else {
        0
    }
}

#[derive(Debug, Clone, Copy, PartialEq, Eq, Structural)]
pub enum LimbKind {
    Torso,
    LeftArm,
    RightArm,
    LeftLeg,
    RightLeg,
}

/// The short name under which a limb appears in the combat log.
pub open spec fn limb_label_text(kind: LimbKind) -> Seq<char> {
    match kind {
        LimbKind::Torso => "Torso"@,
        LimbKind::LeftArm => "L.Arm"@,
        LimbKind::RightArm => "R.Arm"@,
        LimbKind::LeftLeg => "L.Leg"@,
        LimbKind::RightLeg => "R.Leg"@,
    }
}

impl LimbKind {
    /// Short name used in the combat log and HUD.
    pub fn label(self) -> (r: &'static str)
        ensures
            r@ == limb_label_text(self),
    {
        match self {
            LimbKind::Torso => "Torso",
            LimbKind::LeftArm => "L.Arm",
            LimbKind::RightArm => "R.Arm",
            LimbKind::LeftLeg => "L.Leg",
            LimbKind::RightLeg => "R.Leg",
        }
    }
}

/// Cardinal facing on the tactical grid. +X is east, +Y (world +Z) is north.
#[derive(Debug, Clone, Copy, PartialEq, Eq, Structural)]
pub enum Facing {
    North,
    East,
    South,
    West,
}

/// The unit step a facing points along.
pub open spec fn spec_delta(f: Facing) -> GridPos {
    match f {
        Facing::North => GridPos { x: 0, y: 1 },
        Facing::East => GridPos { x: 1, y: 0 },
        Facing::South => GridPos { x: 0, y: -1i32 },
        Facing::West => GridPos { x: -1i32, y: 0 },
    }
}

/// The facing whose direction matches the signs of `d`, if `d` points along
/// an axis.
pub open spec fn spec_from_delta(d: GridPos) -> Option<Facing> {
    let sx = sign(d.x as int);
    let sy = sign(d.y as int);
    if sx == 0 && sy == 1 {
        Some(Facing::North)
    } else if sx == 1 && sy == 0 {
        Some(Facing::East)
    } else if sx == 0 && sy == -1 {
        Some(Facing::South)
    } else if sx == -1 && sy == 0 {
        Some(Facing::West)
    } else {
        None
    }
}

/// The facing one quarter turn clockwise.
pub open spec fn spec_rotate_cw(f: Facing) -> Facing {
    match f {
        Facing::North => Facing::East,
        Facing::East => Facing::South,
        Facing::South => Facing::West,
        Facing::West => Facing::North,
    }
}

/// The facing one quarter turn counter-clockwise.
pub open spec fn spec_rotate_ccw(f: Facing) -> Facing {
    match f {
        Facing::North => Facing::West,
        Facing::West => Facing::South,
        Facing::South => Facing::East,
        Facing::East => Facing::North,
    }
}

/// The one-letter compass label of a facing.
pub open spec fn facing_label_text(f: Facing) -> Seq<char> {
    match f {
        Facing::North => "N"@,
        Facing::East => "E"@,
        Facing::South => "S"@,
        Facing::West => "W"@,
    }
}

impl Facing {
    pub fn delta(self) -> (r: GridPos)
        ensures
            r == spec_delta(self),
    {
        match self {
            Facing::North => GridPos { x: 0, y: 1 },
            Facing::East => GridPos { x: 1, y: 0 },
            Facing::South => GridPos { x: 0, y: -1 },
            Facing::West => GridPos { x: -1, y: 0 },
        }
    }

    pub fn from_delta(d: GridPos) -> (r: Option<Facing>)
        ensures
            r == spec_from_delta(d),
    {
        let sx = sign_of_difference(d.x, 0);
        let sy = sign_of_difference(d.y, 0);
        if sx == 0 && sy == 1 {
            Some(Facing::North)
        } else if sx == 1 && sy == 0 {
            Some(Facing::East)
        } else if sx == 0 && sy == -1 {
            Some(Facing::South)
        } else if sx == -1 && sy == 0 {
            Some(Facing::West)
        } else {
            None
        }
    }

    pub fn rotate_cw(self) -> (r: Facing)
        ensures
            r == spec_rotate_cw(self),
    {
        match self {
            Facing::North => Facing::East,
            Facing::East => Facing::South,
            Facing::South => Facing::West,
            Facing::West => Facing::North,
        }
    }

    pub fn rotate_ccw(self) -> (r: Facing)
        ensures
            r == spec_rotate_ccw(self),
    {
        match self {
            Facing::North => Facing::West,
            Facing::West => Facing::South,
            Facing::South => Facing::East,
            Facing::East => Facing::North,
        }
    }

    pub fn label(self) -> (r: &'static str)
        ensures
            r@ == facing_label_text(self),
    {
        match self {
            Facing::North => "N",
            Facing::East => "E",
            Facing::South => "S",
            Facing::West => "W",
        }
    }
}

/// A quarter turn one way undone by a quarter turn the other way, in either
/// order, gives back the starting facing; four clockwise quarter turns are a
/// full turn.
pub proof fn rotations_undo(f: Facing)
    ensures
        spec_rotate_ccw(spec_rotate_cw(f)) == f,
        spec_rotate_cw(spec_rotate_ccw(f)) == f,
        spec_rotate_cw(spec_rotate_cw(spec_rotate_cw(spec_rotate_cw(f)))) == f,
{
}

/// Reading a facing's unit step back gives the same facing; the step is one
/// tile along an axis, and a clockwise turn maps the step `(x, y)` to
/// `(y, -x)`.
pub proof fn delta_round_trip(f: Facing)
    ensures
        spec_from_delta(spec_delta(f)) == Some(f),
        adjacent(GridPos { x: 0, y: 0 }, spec_delta(f)),
        spec_delta(spec_rotate_cw(f)).x == spec_delta(f).y,
        spec_delta(spec_rotate_cw(f)).y == -spec_delta(f).x,
{
}

#[derive(Debug, Clone, Copy, PartialEq, Eq, Structural)]
pub enum Team {
    Player,
    Enemy,
}

/// Alien combat archetypes. Placeholder visuals; distinct stats + AI.
#[derive(Debug, Clone, Copy, PartialEq, Eq, Structural)]
pub enum AlienKind {
    /// Fragile harasser: kites, chips limbs at long range.
    Splinter,
    /// Slow pressure: closes and smashes at short range.
    Mass,
}

/// The display name of an alien archetype.
pub open spec fn alien_label_text(kind: AlienKind) -> Seq<char> {
    match kind {
        AlienKind::Splinter => "Splinter"@,
        AlienKind::Mass => "Mass"@,
    }
}

impl AlienKind {
    pub fn label(self) -> (r: &'static str)
        ensures
            r@ == alien_label_text(self),
    {
        match self {
            AlienKind::Splinter => "Splinter",
            AlienKind::Mass => "Mass",
        }
    }
}

/// Move points per turn at full leg health: Splinter 3, Mass 1, other mechs 2.
pub open spec fn spec_move_multiplier(alien: Option<AlienKind>) -> i32 {
    match alien {
        Some(AlienKind::Splinter) => 3,
        Some(AlienKind::Mass) => 1,
        None => 2,
    }
}

/// The factor by which leg health turns into move points for a unit of this
/// kind (the application multiplies it by the leg-health ratio and rounds up).
pub fn move_multiplier(alien: Option<AlienKind>) -> (r: i32)
    ensures
        r == spec_move_multiplier(alien),
{
    match alien {
        Some(AlienKind::Splinter) => 3,
        Some(AlienKind::Mass) => 1,
        None => 2,
    }
}

/// Attack range of a unit: one tile once its arms are spent, otherwise
/// Splinter 5, Mass 2, other mechs 4.
pub open spec fn spec_attack_range(alien: Option<AlienKind>, arms_spent: bool) -> i32 {
    if arms_spent {
        1
    } else {
        match alien {
            Some(AlienKind::Splinter) => 5,
            Some(AlienKind::Mass) => 2,
            None => 4,
        }
    }
}

/// Once its arms are spent, a unit of any kind reaches only one tile, the
/// shortest range of all.
pub proof fn spent_arms_reach_one_tile(alien: Option<AlienKind>)
    ensures
        spec_attack_range(alien, true) == 1,
        forall|a: Option<AlienKind>, spent: bool| spec_attack_range(alien, true) <= #[trigger] spec_attack_range(a, spent),
{
}

/// The limb an attacker of this kind aims for.
pub open spec fn spec_preferred_limb(alien: Option<AlienKind>) -> LimbKind {
    match alien {
        Some(AlienKind::Splinter) => LimbKind::LeftArm,
        Some(AlienKind::Mass) => LimbKind::Torso,
        None => LimbKind::Torso,
    }
}

/// Tactical state of a mech or alien: everything the turn rules read.
///
/// Limb hit points stay with the application; it reports what the rules need
/// from them through `update_from_limbs`: the move points a fresh turn grants
/// (`stride`), whether firepower has dropped to nothing (`arms_spent`) and
/// whether the torso still works.
#[derive(Debug)]
pub struct Mech {
    pub id: u32,
    pub name: String,
    pub team: Team,
    pub position: GridPos,
    pub facing: Facing,
    pub pilot_id: Option<u32>,
    pub destroyed: bool,
    /// Orthogonal steps remaining this turn.
    pub move_left: i32,
    /// Attack or Wait already spent this turn.
    pub acted: bool,
    /// `Some` for alien enemies; player mechs stay `None`.
    pub alien: Option<AlienKind>,
    /// Remaining AT Field absorbs (Mass starts charged).
    pub at_field: u8,
    /// Move points granted by a fresh turn before the floor of one:
    /// the move multiplier times the leg-health ratio, rounded up.
    pub stride: i32,
    /// Firepower (mean arm health) has dropped to 5% or less.
    pub arms_spent: bool,
    /// The unit's pilot has a refusal armed by a trauma spike: the next
    /// legal order of the unit is put to the pilot, which spends it.
    pub refusal_armed: bool,
}

/// Move points a fresh turn grants: the stride, but at least one.
pub open spec fn fresh_move_points(stride: i32) -> i32 {
    if stride >= 1 {
        stride
    } else {
        1
    }
}

/// The state of `m` after a turn refresh.
pub open spec fn refreshed(m: Mech) -> Mech {
    if m.destroyed {
        Mech { move_left: 0, acted: true, ..m }
    } else {
        Mech { move_left: fresh_move_points(m.stride), acted: false, ..m }
    }
}

/// A freshly spawned unit: full health, turn refreshed, no pilot, no
/// refusal armed.
pub open spec fn spawned(
    m: Mech,
    id: u32,
    name: Seq<char>,
    team: Team,
    pos: GridPos,
    facing: Facing,
    alien: Option<AlienKind>,
    at_field: u8,
) -> bool {
    &&& m.id == id
    &&& m.name@ == name
    &&& m.team == team
    &&& m.position == pos
    &&& m.facing == facing
    &&& m.pilot_id is None
    &&& !m.destroyed
    &&& m.alien == alien
    &&& m.at_field == at_field
    &&& m.stride == spec_move_multiplier(alien)
    &&& !m.arms_spent
    &&& !m.refusal_armed
    &&& m.move_left == spec_move_multiplier(alien)
    &&& !m.acted
}

impl Mech {
    pub open spec fn spec_can_move(&self) -> bool {
        !self.destroyed && !self.acted && self.move_left > 0
    }

    pub open spec fn spec_can_act(&self) -> bool {
        !self.destroyed && !self.acted
    }

    /// A player mech facing east.
    pub fn new_player(id: u32, name: &str, pos: GridPos) -> (m: Mech)
        ensures
            spawned(m, id, name@, Team::Player, pos, Facing::East, None, 0),
    {
        let mut m = Mech {
            id,
            name: String::from_str(name),
            team: Team::Player,
            position: pos,
            facing: Facing::East,
            pilot_id: None,
            destroyed: false,
            move_left: 0,
            acted: false,
            alien: None,
            at_field: 0,
            stride: move_multiplier(None),
            arms_spent: false,
            refusal_armed: false,
        };
        m.refresh_turn();
        m
    }

    /// Generic enemy mech facing west.
    pub fn new_enemy(id: u32, name: &str, pos: GridPos) -> (m: Mech)
        ensures
            spawned(m, id, name@, Team::Enemy, pos, Facing::West, None, 0),
    {
        let mut m = Mech {
            id,
            name: String::from_str(name),
            team: Team::Enemy,
            position: pos,
            facing: Facing::West,
            pilot_id: None,
            destroyed: false,
            move_left: 0,
            acted: false,
            alien: None,
            at_field: 0,
            stride: move_multiplier(None),
            arms_spent: false,
            refusal_armed: false,
        };
        m.refresh_turn();
        m
    }

    /// An alien of the given archetype facing west, named after it. A Mass
    /// starts with two AT Field charges.
    pub fn new_alien(id: u32, kind: AlienKind, pos: GridPos) -> (m: Mech)
        ensures
            spawned(
                m,
                id,
                alien_label_text(kind),
                Team::Enemy,
                pos,
                Facing::West,
                Some(kind),
                if kind == AlienKind::Mass { 2 } else { 0 },
            ),
    {
        let at_field: u8 = match kind {
            AlienKind::Mass => 2,
            AlienKind::Splinter => 0,
        };
        let mut m = Mech {
            id,
            name: String::from_str(kind.label()),
            team: Team::Enemy,
            position: pos,
            facing: Facing::West,
            pilot_id: None,
            destroyed: false,
            move_left: 0,
            acted: false,
            alien: Some(kind),
            at_field,
            stride: move_multiplier(Some(kind)),
            arms_spent: false,
            refusal_armed: false,
        };
        m.refresh_turn();
        m
    }

    /// Start a new turn: a wreck stays spent; otherwise move points are reset
    /// from the stride (at least one) and the action is available again.
    pub fn refresh_turn(&mut self)
        ensures
            *final(self) == refreshed(*old(self)),
    {
        if self.destroyed {
            self.move_left = 0;
            self.acted = true;
            return;
        }
        self.move_left = if self.stride >= 1 {
            self.stride
        } else {
            1
        };
        self.acted = false;
    }

    pub fn can_move(&self) -> (r: bool)
        ensures
            r == self.spec_can_move(),
    {
        !self.destroyed && !self.acted && self.move_left > 0
    }

    pub fn can_act(&self) -> (r: bool)
        ensures
            r == self.spec_can_act(),
    {
        !self.destroyed && !self.acted
    }

    /// Record what the limbs now say: the stride a fresh turn grants, whether
    /// the arms are spent, and whether the torso still works. A unit whose
    /// torso has failed is destroyed and spends its turn.
    pub fn update_from_limbs(&mut self, stride: i32, arms_spent: bool, torso_functional: bool)
        ensures
            final(self).stride == stride,
            final(self).arms_spent == arms_spent,
            torso_functional ==> *final(self) == (Mech { stride, arms_spent, ..*old(self) }),
            !torso_functional ==> *final(self) == (Mech {
                stride,
                arms_spent,
                destroyed: true,
                move_left: 0,
                acted: true,
                ..*old(self)
            }),
    {
        self.stride = stride;
        self.arms_spent = arms_spent;
        if !torso_functional {
            self.destroyed = true;
            self.move_left = 0;
            self.acted = true;
        }
    }

    /// Spend one AT Field charge. Returns `true` if the strike was absorbed:
    /// exactly when the unit is standing and has a charge left.
    pub fn try_absorb_at_field(&mut self) -> (absorbed: bool)
        ensures
            absorbed == absorbs(*old(self)),
            *final(self) == after_strike(*old(self)),
    {
        if self.destroyed || self.at_field == 0 {
            return false;
        }
        self.at_field = self.at_field - 1;
        true
    }

    pub fn attack_range(&self) -> (r: i32)
        ensures
            r == spec_attack_range(self.alien, self.arms_spent),
    {
        if self.arms_spent {
            return 1;
        }
        match self.alien {
            Some(AlienKind::Splinter) => 5,
            Some(AlienKind::Mass) => 2,
            None => 4,
        }
    }

    /// Preferred limb when this unit attacks (aliens differ).
    pub fn preferred_attack_limb(&self) -> (r: LimbKind)
        ensures
            r == spec_preferred_limb(self.alien),
    {
        match self.alien {
            Some(AlienKind::Splinter) => LimbKind::LeftArm,
            Some(AlienKind::Mass) => LimbKind::Torso,
            None => LimbKind::Torso,
        }
    }

}

/// A standing unit that refreshes its turn can act again, and has at least
/// one move point; a wreck can neither move nor act after a refresh.
pub proof fn refresh_restores_action(m: Mech)
    ensures
        !m.destroyed ==> refreshed(m).spec_can_act() && refreshed(m).spec_can_move(),
        m.destroyed ==> !refreshed(m).spec_can_act() && !refreshed(m).spec_can_move(),
{
}

/// Whether a strike on `m` is absorbed by its AT Field.
pub open spec fn absorbs(m: Mech) -> bool {
    !m.destroyed && m.at_field > 0
}

/// `m` after a strike meets its AT Field: one charge spent if absorbed.
pub open spec fn after_strike(m: Mech) -> Mech {
    if absorbs(m) {
        Mech { at_field: (m.at_field - 1) as u8, ..m }
    } else {
        m
    }
}

/// `m` after `k` strikes have met its AT Field.
pub open spec fn after_strikes(m: Mech, k: nat) -> Mech
    decreases k,
{
    if k == 0 {
        m
    } else {
        after_strike(after_strikes(m, (k - 1) as nat))
    }
}

/// An AT Field with `n` charges on a standing unit absorbs exactly the next
/// `n` strikes: each of them is absorbed, the `k`th leaves `n - k` charges,
/// and the strike after them is not absorbed.
pub proof fn at_field_absorbs_exactly_its_charges(m: Mech, k: nat)
    requires
        !m.destroyed,
    ensures
        k <= m.at_field ==> after_strikes(m, k).at_field == m.at_field - k,
        k < m.at_field ==> absorbs(after_strikes(m, k)),
        k >= m.at_field ==> !absorbs(after_strikes(m, k)),
        after_strikes(m, k).destroyed == m.destroyed,
    decreases k,
{
    if k > 0 {
        at_field_absorbs_exactly_its_charges(m, (k - 1) as nat);
    }
}

} // verus!
