//! Geofront: the rules of a turn-based mecha skirmish on a small street grid.
//!
//! The tactical core (grid geometry, facing, unit turn economy, AT Field
//! charges, enemy planning, turn cycle, pilot drama banners and HUD orders)
//! is verified here. Limb hit points, pilot psychology ratios and all
//! presentation live with the application, which hands the library the
//! plain values it reads.

pub mod characters;
pub mod combat;
pub mod render;
pub mod text;
pub mod ui;
pub mod units;

