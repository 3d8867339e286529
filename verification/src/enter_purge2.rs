use vstd::prelude::*;

use crate::grid::FilamentGridData;

verus! {

/// The grid page for entering purge values: a grid of its own.
#[derive(Debug)]
pub struct EnterPurge {
    pub data: FilamentGridData,
}

impl Default for EnterPurge {
    /// An empty grid of four filaments.
    fn default() -> (e: Self)
        ensures
            e.data@.num_filaments == 4,
            e.data@.choices.len() == 16,
            forall|i: int| 0 <= i < 16 ==> (#[trigger] e.data@.choices[i]) is None,
    {
        EnterPurge { data: FilamentGridData::default() }
    }
}

} // verus!
