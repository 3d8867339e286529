use vstd::prelude::*;

verus! {

/// The pages of the application.
#[derive(Debug, Clone, Copy, PartialEq, Eq, Structural)]
pub enum Tab {
    EnterPurgeValues,
    NewFilament,
    FilamentGrid,
    History,
    CalibrationList,
    Options,
}

impl Default for Tab {
    /// The page shown first: the filament grid.
    fn default() -> (t: Self)
        ensures
            t == Tab::FilamentGrid,
    {
        Tab::FilamentGrid
    }
}

/// The search keywords of the filaments. The search keeps no data of its own.
pub struct Keywords {}

impl Keywords {
    /// Keywords for the given names and colors, each with its filament id; neither is
    /// kept.
    pub fn new(names: Vec<(u32, String)>, colors: Vec<(u32, String)>) -> (k: Self) {
        Keywords {}
    }
}

} // verus!
