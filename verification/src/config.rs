//! Settings, and the defaults that stand in for what a settings file
//! leaves out.

use crate::text::opt_view;
use vstd::prelude::*;

verus! {

/// Where records are kept if the settings name no place.
pub const DATA_DIR: &'static str = "data";

/// After how many days without news an application counts as ghosted, if
/// the settings do not say.
pub const DAYS_TO_GHOST: u16 = 90;

/// The settings in force.
#[derive(Debug, PartialEq, Eq)]
pub struct PlyConfig {
    pub data_dir: String,
    pub days_to_ghost: u16,
    pub cycle: Option<String>,
}

/// The settings as a file gives them: each may be left out.
#[derive(Debug, PartialEq, Eq)]
pub struct PartialPlyConfig {
    pub data_dir: Option<String>,
    pub days_to_ghost: Option<u16>,
    pub cycle: Option<String>,
}

/// `PlyConfig` as plain values.
pub ghost struct PlyConfigView {
    pub data_dir: Seq<char>,
    pub days_to_ghost: u16,
    pub cycle: Option<Seq<char>>,
}

impl View for PlyConfig {
    type V = PlyConfigView;

    open spec fn view(&self) -> PlyConfigView {
        PlyConfigView {
            data_dir: self.data_dir@,
            days_to_ghost: self.days_to_ghost,
            cycle: opt_view(self.cycle),
        }
    }
}

impl PlyConfig {
    /// The settings in force, given what a file says: what it leaves out
    /// takes its default, and no default stands for the cycle.
    pub fn from_partial(config: PartialPlyConfig) -> (r: PlyConfig)
        ensures
            r@.data_dir == match config.data_dir {
                Some(dir) => dir@,
                None => DATA_DIR@,
            },
            r@.days_to_ghost == match config.days_to_ghost {
                Some(days) => days,
                None => DAYS_TO_GHOST,
            },
            r@.cycle == opt_view(config.cycle),
    {
        let data_dir = match config.data_dir {
            Some(dir) => dir,
            None => DATA_DIR.to_owned(),
        };
        let days_to_ghost = match config.days_to_ghost {
            Some(days) => days,
            None => DAYS_TO_GHOST,
        };
        PlyConfig { data_dir, days_to_ghost, cycle: config.cycle }
    }
}

} // verus!
