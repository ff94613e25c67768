//! Battle-stage choices the renderer reads from the rules: view modes,
//! animation clips, which mech model a unit wears, and where the surface
//! block's buildings stand.

use vstd::prelude::*;
use crate::units::{AlienKind, Mech, Team, COORD_LIMIT};

verus! {

#[derive(Debug, Clone, Copy, PartialEq, Eq, Structural)]
pub enum ViewMode {
    /// Close-up tactical combat in the surface city block.
    Battle,
    /// Elevated overview of the surface city.
    CitySurface,
    /// Elevated overview of the underground Geofront facility.
    CityUnderground,
}

/// The HUD label of a view mode.
pub open spec fn view_label_text(mode: ViewMode) -> Seq<char> {
    match mode {
        ViewMode::Battle => "Battle"@,
        ViewMode::CitySurface => "City — Surface"@,
        ViewMode::CityUnderground => "City — Underground"@,
    }
}

impl ViewMode {
    pub fn label(self) -> (r: &'static str)
        ensures
            r@ == view_label_text(self),
    {
        match self {
            ViewMode::Battle => "Battle",
            ViewMode::CitySurface => "City — Surface",
            ViewMode::CityUnderground => "City — Underground",
        }
    }
}

/// Animation clips of the skinned mech models.
#[derive(Debug, Clone, Copy, PartialEq, Eq, Structural)]
pub enum MechClip {
    Idle,
    Walk,
    Punch,
    Death,
    Hit,
}

/// Clip slot in the model's animation list; Walk sits at `walk_index`
/// because one model inserts extra clips before it.
pub open spec fn spec_clip_index(clip: MechClip, walk_index: usize) -> usize {
    match clip {
        MechClip::Idle => 5,
        MechClip::Walk => walk_index,
        MechClip::Punch => 10,
        MechClip::Death => 1,
        MechClip::Hit => 3,
    }
}

pub fn clip_index(clip: MechClip, walk_index: usize) -> (r: usize)
    ensures
        r == spec_clip_index(clip, walk_index),
{
    match clip {
        MechClip::Idle => 5,
        MechClip::Walk => walk_index,
        MechClip::Punch => 10,
        MechClip::Death => 1,
        MechClip::Hit => 3,
    }
}

/// The model a unit wears: Mass and Splinter have their own; other mechs
/// alternate by id parity within their team.
pub open spec fn model_path_text(alien: Option<AlienKind>, team: Team, id: u32) -> Seq<char> {
    match alien {
        Some(AlienKind::Mass) => "models/mechs/George.glb"@,
        Some(AlienKind::Splinter) => "models/mechs/Leela.glb"@,
        None => if team == Team::Player {
            if id % 2 == 0 {
                "models/mechs/Stan.glb"@
            } else {
                "models/mechs/Mike.glb"@
            }
        } else {
            if id % 2 == 0 {
                "models/mechs/George.glb"@
            } else {
                "models/mechs/Leela.glb"@
            }
        },
    }
}

pub fn mech_glb_path(mech: &Mech) -> (r: &'static str)
    ensures
        r@ == model_path_text(mech.alien, mech.team, mech.id),
{
    match mech.alien {
        Some(AlienKind::Mass) => "models/mechs/George.glb",
        Some(AlienKind::Splinter) => "models/mechs/Leela.glb",
        None => match (mech.team, mech.id % 2) {
            (Team::Player, 0) => "models/mechs/Stan.glb",
            (Team::Player, _) => "models/mechs/Mike.glb",
            (Team::Enemy, 0) => "models/mechs/George.glb",
            (Team::Enemy, _) => "models/mechs/Leela.glb",
        },
    }
}

/// The building families the surface block uses.
#[derive(Debug, Clone, Copy, PartialEq, Eq, Structural)]
pub enum BuildingKind {
    Skyscraper,
    Midrise,
    Industrial,
}

/// One building of the surface block: the cell it stands on (outside the
/// fight grid), its ring (how many cells outside the grid), its place in the
/// plan, and its family.
#[derive(Debug, Clone, Copy, PartialEq, Eq, Structural)]
pub struct BuildingSlot {
    pub x: i32,
    pub z: i32,
    pub ring: i32,
    pub index: usize,
    pub kind: BuildingKind,
}

/// How many rings of cells around the grid the block fills: four for the
/// dense canyon, two otherwise.
pub open spec fn block_margin(dense: bool) -> int {
    if dense {
        4
    } else {
        2
    }
}

/// How many cells outside a `width` x `height` grid the cell `(x, z)` lies
/// (zero or less inside it).
pub open spec fn ring_of(width: int, height: int, x: int, z: int) -> int {
    let rx = if -x > x - (width - 1) {
        -x
    } else {
        x - (width - 1)
    };
    let rz = if -z > z - (height - 1) {
        -z
    } else {
        z - (height - 1)
    };
    if rx > rz {
        rx
    } else {
        rz
    }
}

/// Whether a building stands on `(x, z)`: only outside the fight grid; the
/// dense canyon fills rings 1 to 4 but keeps ring 1 open on the west, where
/// the camera approaches; the sparse block uses every other cell of ring 2.
pub open spec fn holds_building(width: int, height: int, dense: bool, x: int, z: int) -> bool {
    let outer = x < 0 || z < 0 || x >= width || z >= height;
    let ring = ring_of(width, height, x, z);
    outer && if dense {
        if x < 0 {
            2 <= ring <= 4
        } else {
            1 <= ring <= 4
        }
    } else {
        ring == 2 && (x + z) % 2 == 0
    }
}

/// The family of the `i`th building, on ring `ring`: every fourth building
/// from ring 3 out is industrial, otherwise every seventh is a mid-rise, the
/// rest are skyscrapers.
pub open spec fn building_kind(ring: int, i: int) -> BuildingKind {
    if ring >= 3 && i % 4 == 0 {
        BuildingKind::Industrial
    } else if i % 7 == 0 {
        BuildingKind::Midrise
    } else {
        BuildingKind::Skyscraper
    }
}

/// The `i`th building, standing on `(x, z)`.
pub open spec fn slot_at(width: int, height: int, x: int, z: int, i: int) -> BuildingSlot {
    let ring = ring_of(width, height, x, z);
    BuildingSlot { x: x as i32, z: z as i32, ring: ring as i32, index: i as usize, kind: building_kind(ring, i) }
}

/// `acc` extended with the buildings of column `x` among the first `j`
/// cells of the column (north from `z = -margin`).
pub open spec fn row_plan(
    width: int,
    height: int,
    dense: bool,
    x: int,
    j: int,
    acc: Seq<BuildingSlot>,
) -> Seq<BuildingSlot>
    decreases j,
{
    if j <= 0 {
        acc
    } else {
        let prev = row_plan(width, height, dense, x, j - 1, acc);
        let z = j - 1 - block_margin(dense);
        if holds_building(width, height, dense, x, z) {
            prev.push(slot_at(width, height, x, z, prev.len() as int))
        } else {
            prev
        }
    }
}

/// The buildings of the first `k` columns (east from `x = -margin`).
pub open spec fn rows_plan(width: int, height: int, dense: bool, k: int) -> Seq<BuildingSlot>
    decreases k,
{
    if k <= 0 {
        seq![]
    } else {
        row_plan(
            width,
            height,
            dense,
            k - 1 - block_margin(dense),
            height + 2 * block_margin(dense),
            rows_plan(width, height, dense, k - 1),
        )
    }
}

/// Where the surface block's buildings stand around a `width` x `height`
/// fight grid, column by column from the west and south to north within a
/// column, numbered in that order.
pub open spec fn spec_building_plan(width: int, height: int, dense: bool) -> Seq<BuildingSlot> {
    rows_plan(width, height, dense, width + 2 * block_margin(dense))
}

/// Lay out the surface block's buildings around the fight grid.
pub fn building_plan(width: i32, height: i32, dense: bool) -> (r: Vec<BuildingSlot>)
    requires
        0 <= width <= COORD_LIMIT,
        0 <= height <= COORD_LIMIT,
    ensures
        r@ == spec_building_plan(width as int, height as int, dense),
{
    let margin: i32 = if dense {
        4
    } else {
        2
    };
    let mut plan: Vec<BuildingSlot> = Vec::new();
    let mut x: i32 = -margin;
    while x < width + margin
        invariant
            margin == block_margin(dense),
            0 <= width <= COORD_LIMIT,
            0 <= height <= COORD_LIMIT,
            -margin <= x <= width + margin,
            plan@ == rows_plan(width as int, height as int, dense, x + margin),
        decreases width + margin - x,
    {
        let ghost before = plan@;
        let mut z: i32 = -margin;
        while z < height + margin
            invariant
                margin == block_margin(dense),
                0 <= width <= COORD_LIMIT,
                0 <= height <= COORD_LIMIT,
                -margin <= x < width + margin,
                -margin <= z <= height + margin,
                before == rows_plan(width as int, height as int, dense, x + margin),
                plan@ == row_plan(width as int, height as int, dense, x as int, z + margin, before),
            decreases height + margin - z,
        {
            let rx = if -x > x - (width - 1) {
                -x
            } else {
                x - (width - 1)
            };
            let rz = if -z > z - (height - 1) {
                -z
            } else {
                z - (height - 1)
            };
            let ring = if rx > rz {
                rx
            } else {
                rz
            };
            let outer = x < 0 || z < 0 || x >= width || z >= height;
            let even = ((x + margin + z + margin) as u32) % 2 == 0;
            assert(even == ((x + z) % 2 == 0));
            let place = outer && if dense {
                if x < 0 {
                    2 <= ring && ring <= 4
                } else {
                    1 <= ring && ring <= 4
                }
            } else {
                ring == 2 && even
            };
            if place {
                let i = plan.len();
                let kind = if ring >= 3 && i % 4 == 0 {
                    BuildingKind::Industrial
                } else if i % 7 == 0 {
                    BuildingKind::Midrise
                } else {
                    BuildingKind::Skyscraper
                };
                plan.push(BuildingSlot { x, z, ring, index: i, kind });
            }
            z = z + 1;
        }
        x = x + 1;
    }
    plan
}

/// The model file of the `i`th building of a family.
pub open spec fn building_model_text(kind: BuildingKind, i: usize) -> Seq<char> {
    match kind {
        BuildingKind::Skyscraper => if i % 5 == 0 {
            "models/commercial/building-skyscraper-a.glb"@
        } else if i % 5 == 1 {
            "models/commercial/building-skyscraper-b.glb"@
        } else if i % 5 == 2 {
            "models/commercial/building-skyscraper-c.glb"@
        } else if i % 5 == 3 {
            "models/commercial/building-skyscraper-d.glb"@
        } else {
            "models/commercial/building-skyscraper-e.glb"@
        },
        BuildingKind::Midrise => if i % 6 == 0 {
            "models/commercial/building-a.glb"@
        } else if i % 6 == 1 {
            "models/commercial/building-c.glb"@
        } else if i % 6 == 2 {
            "models/commercial/building-e.glb"@
        } else if i % 6 == 3 {
            "models/commercial/building-i.glb"@
        } else if i % 6 == 4 {
            "models/commercial/building-l.glb"@
        } else {
            "models/commercial/building-n.glb"@
        },
        BuildingKind::Industrial => if i % 4 == 0 {
            "models/industrial/building-a.glb"@
        } else if i % 4 == 1 {
            "models/industrial/building-d.glb"@
        } else if i % 4 == 2 {
            "models/industrial/building-h.glb"@
        } else {
            "models/industrial/chimney-large.glb"@
        },
    }
}

/// The model a planned building wears: its family's models, taken in turn
/// by the building's place in the plan.
pub fn building_model(slot: &BuildingSlot) -> (r: &'static str)
    ensures
        r@ == building_model_text(slot.kind, slot.index),
{
    let i = slot.index;
    match slot.kind {
        BuildingKind::Skyscraper => if i % 5 == 0 {
            "models/commercial/building-skyscraper-a.glb"
        } else if i % 5 == 1 {
            "models/commercial/building-skyscraper-b.glb"
        } else if i % 5 == 2 {
            "models/commercial/building-skyscraper-c.glb"
        } else if i % 5 == 3 {
            "models/commercial/building-skyscraper-d.glb"
        } else {
            "models/commercial/building-skyscraper-e.glb"
        },
        BuildingKind::Midrise => if i % 6 == 0 {
            "models/commercial/building-a.glb"
        } else if i % 6 == 1 {
            "models/commercial/building-c.glb"
        } else if i % 6 == 2 {
            "models/commercial/building-e.glb"
        } else if i % 6 == 3 {
            "models/commercial/building-i.glb"
        } else if i % 6 == 4 {
            "models/commercial/building-l.glb"
        } else {
            "models/commercial/building-n.glb"
        },
        BuildingKind::Industrial => if i % 4 == 0 {
            "models/industrial/building-a.glb"
        } else if i % 4 == 1 {
            "models/industrial/building-d.glb"
        } else if i % 4 == 2 {
            "models/industrial/building-h.glb"
        } else {
            "models/industrial/chimney-large.glb"
        },
    }
}

} // verus!
