use vstd::prelude::*;

use crate::filament::{Filament, FilamentMap, FilamentView, opt_view};
use crate::history::{HistoryRow, row_decodes, row_ids, slot_ok};
use crate::picker::{FilamentPicker, choice_id};

verus! {

/// The number of filament slots of a grid.
pub const GRID_SLOTS: usize = 16;

/// The number of saved grids.
pub const SAVE_SLOTS: usize = 4;

/// The bit pattern of the `f32` value `1.0`, the multiplier a new grid starts with.
pub const ONE_BITS: u32 = 0x3F80_0000;

/// A grid of filaments for which purge values are shown and sent.
#[derive(Debug)]
pub struct FilamentGridData {
    pub pickers: [FilamentPicker; 16],
    pub num_filaments: usize,
    /// The bit pattern of the `f32` multiplier.
    pub multiplier: u32,
    pub use_multiplier: bool,
    pub offset: u32,
    pub use_offset: bool,
}

/// What a grid holds, as mathematical values.
pub struct GridDataView {
    pub choices: Seq<Option<FilamentView>>,
    pub num_filaments: usize,
    pub multiplier: u32,
    pub use_multiplier: bool,
    pub offset: u32,
    pub use_offset: bool,
}

/// The chosen filaments of a row of pickers.
pub open spec fn choices_of(pickers: Seq<FilamentPicker>) -> Seq<Option<FilamentView>> {
    pickers.map_values(|p: FilamentPicker| p.choice())
}

/// The ids of chosen filaments.
pub open spec fn ids_of(choices: Seq<Option<FilamentView>>) -> Seq<Option<u32>> {
    choices.map_values(|c: Option<FilamentView>| choice_id(c))
}

impl View for FilamentGridData {
    type V = GridDataView;

    open spec fn view(&self) -> GridDataView {
        GridDataView {
            choices: choices_of(self.pickers@),
            num_filaments: self.num_filaments,
            multiplier: self.multiplier,
            use_multiplier: self.use_multiplier,
            offset: self.offset,
            use_offset: self.use_offset,
        }
    }
}

fn new_pickers() -> (res: [FilamentPicker; 16])
    ensures
        forall|i: int| 0 <= i < 16 ==> (#[trigger] res@[i]).choice() is None,
{
    [
        FilamentPicker::default(),
        FilamentPicker::default(),
        FilamentPicker::default(),
        FilamentPicker::default(),
        FilamentPicker::default(),
        FilamentPicker::default(),
        FilamentPicker::default(),
        FilamentPicker::default(),
        FilamentPicker::default(),
        FilamentPicker::default(),
        FilamentPicker::default(),
        FilamentPicker::default(),
        FilamentPicker::default(),
        FilamentPicker::default(),
        FilamentPicker::default(),
        FilamentPicker::default(),
    ]
}

impl Default for FilamentGridData {
    /// An empty grid of four filaments, multiplier one, no offset.
    fn default() -> (g: Self)
        ensures
            forall|i: int| 0 <= i < 16 ==> (#[trigger] g@.choices[i]) is None,
            g@.choices.len() == 16,
            g@.num_filaments == 4,
            g@.multiplier == ONE_BITS,
            !g@.use_multiplier,
            g@.offset == 0,
            !g@.use_offset,
    {
        FilamentGridData {
            pickers: new_pickers(),
            num_filaments: 4,
            multiplier: ONE_BITS,
            use_multiplier: false,
            offset: 0,
            use_offset: false,
        }
    }
}

/// The scalar settings of two grids are the same.
pub open spec fn same_settings(a: GridDataView, b: GridDataView) -> bool {
    &&& a.num_filaments == b.num_filaments
    &&& a.multiplier == b.multiplier
    &&& a.use_multiplier == b.use_multiplier
    &&& a.offset == b.offset
    &&& a.use_offset == b.use_offset
}

/// The choices after loading a history row: for each of the row's filaments, the map's
/// filament of that id, or none where the map has none; the later slots keep theirs.
pub open spec fn history_choices(
    old_choices: Seq<Option<FilamentView>>,
    ids: Seq<u32>,
    m: Map<u32, FilamentView>,
) -> Seq<Option<FilamentView>> {
    Seq::new(
        old_choices.len(),
        |i: int|
            if i < ids.len() {
                if m.contains_key(ids[i]) {
                    Some(m[ids[i]])
                } else {
                    None
                }
            } else {
                old_choices[i]
            },
    )
}

/// Loading a history row decides each of the row's slots by the map alone: the map's
/// filament of the slot's id, or an empty slot where the map has none (a deleted
/// filament), whatever the slot showed before; the later slots keep what they showed.
pub proof fn lemma_history_choices(
    old_choices: Seq<Option<FilamentView>>,
    ids: Seq<u32>,
    m: Map<u32, FilamentView>,
)
    requires
        ids.len() <= old_choices.len(),
    ensures
        history_choices(old_choices, ids, m).len() == old_choices.len(),
        forall|i: int|
            0 <= i < ids.len() ==> (m.contains_key(ids[i]) ==> #[trigger] history_choices(
                old_choices,
                ids,
                m,
            )[i] == Some(m[ids[i]])) && (!m.contains_key(ids[i]) ==> history_choices(
                old_choices,
                ids,
                m,
            )[i] is None),
        forall|i: int|
            ids.len() <= i < old_choices.len() ==> #[trigger] history_choices(old_choices, ids, m)[i]
                == old_choices[i],
        forall|other: Seq<Option<FilamentView>>, i: int|
            other.len() == old_choices.len() && 0 <= i < ids.len() ==> #[trigger] history_choices(
                other,
                ids,
                m,
            )[i] == history_choices(old_choices, ids, m)[i],
{
}

/// Picker `i` of `new` keeps the box id of picker `i` of `old` and shows its choice.
pub open spec fn keeps_id_and_shows(new: Seq<FilamentPicker>, old: Seq<FilamentPicker>, i: int) -> bool {
    new[i].id == old[i].id && new[i].shows_choice()
}

/// Every picker of `new` keeps its box id from `old` and shows its choice.
pub open spec fn all_show(new: Seq<FilamentPicker>, old: Seq<FilamentPicker>) -> bool {
    &&& new.len() == old.len()
    &&& forall|i: int| 0 <= i < new.len() ==> #[trigger] keeps_id_and_shows(new, old, i)
}

impl FilamentGridData {
    /// The id of the filament in slot `n`, or none for an empty or missing slot.
    pub fn id(&self, n: usize) -> (res: Option<u32>)
        ensures
            n >= 16 ==> res is None,
            n < 16 ==> res == choice_id(self@.choices[n as int]),
    {
        if n >= self.pickers.len() {
            None
        } else {
            self.pickers[n].filament_id()
        }
    }

    pub fn num_filaments(&self) -> (res: usize)
        ensures
            res == self@.num_filaments,
    {
        self.num_filaments
    }

    /// The pickers of the grid.
    pub fn pickers(&self) -> (res: &[FilamentPicker])
        ensures
            res@ == self.pickers@,
    {
        self.pickers.as_slice()
    }

    /// The picker of slot `i`.
    pub fn picker(&self, i: usize) -> (res: &FilamentPicker)
        requires
            i < 16,
        ensures
            *res == self.pickers@[i as int],
    {
        &self.pickers[i]
    }

    /// The picker of slot `i`, to change.
    pub fn picker_mut(&mut self, i: usize) -> (res: &mut FilamentPicker)
        requires
            i < 16,
        ensures
            *res == old(self).pickers@[i as int],
            final(self).pickers@ == old(self).pickers@.update(i as int, *final(res)),
            final(self).num_filaments == old(self).num_filaments,
            final(self).multiplier == old(self).multiplier,
            final(self).use_multiplier == old(self).use_multiplier,
            final(self).offset == old(self).offset,
            final(self).use_offset == old(self).use_offset,
    {
        &mut self.pickers[i]
    }

    /// The ids of all sixteen slots, as a sent grid is recorded.
    pub fn slot_ids(&self) -> (res: Vec<Option<u32>>)
        ensures
            res@ == ids_of(self@.choices),
    {
        let mut res: Vec<Option<u32>> = Vec::new();
        for i in 0..16
            invariant
                res@ == ids_of(self@.choices).subrange(0, i as int),
        {
            res.push(self.pickers[i].filament_id());
            assert(res@ =~= ids_of(self@.choices).subrange(0, i + 1));
        }
        assert(res@ =~= ids_of(self@.choices));
        res
    }

    /// Loads a grid that was sent before: its filaments (each looked up by id), its
    /// number of filaments, multiplier and offset. A missing multiplier is zero and off,
    /// a missing offset zero and off.
    pub fn load_from_history(&mut self, filaments: &FilamentMap, history: &HistoryRow)
        requires
            history.filaments@.len() <= 16,
        ensures
            final(self)@.choices == history_choices(
                old(self)@.choices,
                history.filaments@,
                filaments@,
            ),
            final(self)@.num_filaments == history.num_filaments,
            final(self)@.multiplier == (match history.multiplier {
                Some(m) => m,
                None => 0,
            }),
            final(self)@.use_multiplier == history.multiplier is Some,
            final(self)@.offset == (match history.offset {
                Some(o) => o,
                None => 0,
            }),
            final(self)@.use_offset == history.offset is Some,
            forall|i: int|
                0 <= i < history.filaments@.len() ==> #[trigger] keeps_id_and_shows(
                    final(self).pickers@,
                    old(self).pickers@,
                    i,
                ),
            forall|i: int|
                history.filaments@.len() <= i < 16 ==> #[trigger] final(self).pickers@[i]
                    == old(self).pickers@[i],
            forall|i: int|
                0 <= i < history.filaments@.len() ==> (filaments@.contains_key(
                    history.filaments@[i],
                ) ==> (#[trigger] final(self).pickers@[i]).choice() == Some(
                    filaments@[history.filaments@[i]],
                )) && (!filaments@.contains_key(history.filaments@[i])
                    ==> final(self).pickers@[i].choice() is None),
    {
        proof {
            lemma_history_choices(old(self)@.choices, history.filaments@, filaments@);
        }
        self.num_filaments = history.num_filaments;
        let n = history.filaments.len();
        let ghost old_choices = old(self)@.choices;
        for i in 0..n
            invariant
                n == history.filaments@.len(),
                n <= 16,
                self.num_filaments == history.num_filaments,
                old_choices.len() == 16,
                self.pickers@.len() == 16,
                forall|j: int|
                    #![trigger self.pickers@[j]]
                    0 <= j < 16 ==> self.pickers@[j].choice() == if j < i {
                        if filaments@.contains_key(history.filaments@[j]) {
                            Some(filaments@[history.filaments@[j]])
                        } else {
                            None
                        }
                    } else {
                        old_choices[j]
                    },
                forall|j: int|
                    0 <= j < i ==> #[trigger] keeps_id_and_shows(self.pickers@, old(self).pickers@, j),
                forall|j: int| i <= j < 16 ==> #[trigger] self.pickers@[j] == old(self).pickers@[j],
        {
            let id = history.filaments[i];
            let ghost prev = self.pickers@;
            match filaments.get(&id) {
                Some(f) => {
                    let f = f.clone();
                    self.pickers[i].set_selected(Some(f));
                },
                None => {
                    self.pickers[i].reset();
                },
            }
            assert(keeps_id_and_shows(self.pickers@, old(self).pickers@, i as int));
            assert forall|j: int| 0 <= j < i implies #[trigger] keeps_id_and_shows(self.pickers@, old(self).pickers@, j) by {
                assert(self.pickers@[j] == prev[j]);
                assert(keeps_id_and_shows(prev, old(self).pickers@, j));
            }
        }
        match history.multiplier {
            Some(m) => {
                self.multiplier = m;
                self.use_multiplier = true;
            },
            None => {
                self.multiplier = 0;
                self.use_multiplier = false;
            },
        }
        match history.offset {
            Some(o) => {
                self.offset = o;
                self.use_offset = true;
            },
            None => {
                self.offset = 0;
                self.use_offset = false;
            },
        }
        assert(self@.choices =~= history_choices(old_choices, history.filaments@, filaments@));
    }
}

/// A grid as it is saved: the ids of its filaments and its settings.
#[derive(Clone, Copy, Debug)]
pub struct FilamentGridSave {
    pub pickers: [Option<u32>; 16],
    pub num_filaments: usize,
    /// The bit pattern of the `f32` multiplier.
    pub multiplier: u32,
    pub use_multiplier: bool,
    pub offset: u32,
    pub use_offset: bool,
}

/// What a saved grid holds, as mathematical values.
pub struct GridSaveView {
    pub pickers: Seq<Option<u32>>,
    pub num_filaments: usize,
    pub multiplier: u32,
    pub use_multiplier: bool,
    pub offset: u32,
    pub use_offset: bool,
}

impl View for FilamentGridSave {
    type V = GridSaveView;

    open spec fn view(&self) -> GridSaveView {
        GridSaveView {
            pickers: self.pickers@,
            num_filaments: self.num_filaments,
            multiplier: self.multiplier,
            use_multiplier: self.use_multiplier,
            offset: self.offset,
            use_offset: self.use_offset,
        }
    }
}

/// What saving a grid keeps of it.
pub open spec fn saved_view(d: GridDataView) -> GridSaveView {
    GridSaveView {
        pickers: ids_of(d.choices),
        num_filaments: d.num_filaments,
        multiplier: d.multiplier,
        use_multiplier: d.use_multiplier,
        offset: d.offset,
        use_offset: d.use_offset,
    }
}

/// The choices a saved grid loads to: each saved id's filament in the map.
pub open spec fn loaded_choices(ids: Seq<Option<u32>>, m: Map<u32, FilamentView>) -> Seq<
    Option<FilamentView>,
> {
    ids.map_values(
        |o: Option<u32>|
            match o {
                Some(id) => Some(m[id]),
                None => None,
            },
    )
}

/// Every saved id names a filament of the map.
pub open spec fn ids_in_map(ids: Seq<Option<u32>>, m: Map<u32, FilamentView>) -> bool {
    forall|i: int| 0 <= i < ids.len() ==> (#[trigger] ids[i] matches Some(id) ==> m.contains_key(id))
}

impl FilamentGridSave {
    /// A saved grid of four empty slots, multiplier one, no offset.
    pub fn new() -> (s: Self)
        ensures
            s@.pickers == Seq::new(16, |i: int| None::<u32>),
            s@.num_filaments == 4,
            s@.multiplier == ONE_BITS,
            !s@.use_multiplier,
            s@.offset == 0,
            !s@.use_offset,
    {
        let s = FilamentGridSave {
            pickers: [None; 16],
            num_filaments: 4,
            multiplier: ONE_BITS,
            use_multiplier: false,
            offset: 0,
            use_offset: false,
        };
        assert(s@.pickers =~= Seq::new(16, |i: int| None::<u32>));
        s
    }

    /// What is saved of a grid.
    pub fn from_grid(grid: &FilamentGridData) -> (s: Self)
        ensures
            s@ == saved_view(grid@),
    {
        let mut pickers: [Option<u32>; 16] = [None; 16];
        for i in 0..16
            invariant
                pickers@.len() == 16,
                forall|j: int| 0 <= j < i ==> pickers@[j] == choice_id(#[trigger] grid@.choices[j]),
        {
            pickers[i] = grid.pickers[i].to_saved();
        }
        let s = FilamentGridSave {
            pickers,
            num_filaments: grid.num_filaments,
            multiplier: grid.multiplier,
            use_multiplier: grid.use_multiplier,
            offset: grid.offset,
            use_offset: grid.use_offset,
        };
        assert(s@.pickers =~= ids_of(grid@.choices));
        s
    }

    /// Loads a saved grid into `grid`: each saved id's filament from the map, the rest of
    /// the settings as saved.
    pub fn to_grid(&self, filaments: &FilamentMap, grid: &mut FilamentGridData)
        requires
            ids_in_map(self@.pickers, filaments@),
        ensures
            final(grid)@.choices == loaded_choices(self@.pickers, filaments@),
            final(grid)@.num_filaments == self.num_filaments,
            final(grid)@.multiplier == self.multiplier,
            final(grid)@.use_multiplier == self.use_multiplier,
            final(grid)@.offset == self.offset,
            final(grid)@.use_offset == self.use_offset,
            all_show(final(grid).pickers@, old(grid).pickers@),
    {
        for i in 0..16
            invariant
                ids_in_map(self@.pickers, filaments@),
                grid.pickers@.len() == 16,
                old(grid).pickers@.len() == 16,
                forall|j: int| 0 <= j < i ==> #[trigger] keeps_id_and_shows(grid.pickers@, old(grid).pickers@, j),
                forall|j: int| i <= j < 16 ==> #[trigger] grid.pickers@[j] == old(grid).pickers@[j],
                forall|j: int|
                    0 <= j < i ==> (#[trigger] grid.pickers@[j]).choice() == match self.pickers@[j] {
                        Some(id) => Some(filaments@[id]),
                        None => None,
                    },
        {
            let ghost prev = grid.pickers@;
            match self.pickers[i] {
                Some(id) => {
                    assert(self@.pickers[i as int] matches Some(id) ==> filaments@.contains_key(id));
                    let f = filaments.get(&id);
                    match f {
                        Some(f) => {
                            let f = f.clone();
                            grid.pickers[i].set_selected(Some(f));
                        },
                        None => {},
                    }
                },
                None => {
                    grid.pickers[i].reset();
                },
            }
            assert(keeps_id_and_shows(grid.pickers@, old(grid).pickers@, i as int));
            assert forall|j: int| 0 <= j < i implies #[trigger] keeps_id_and_shows(grid.pickers@, old(grid).pickers@, j) by {
                assert(grid.pickers@[j] == prev[j]);
                assert(keeps_id_and_shows(prev, old(grid).pickers@, j));
            }
        }
        grid.num_filaments = self.num_filaments;
        grid.multiplier = self.multiplier;
        grid.use_multiplier = self.use_multiplier;
        grid.offset = self.offset;
        grid.use_offset = self.use_offset;
        assert(grid@.choices =~= loaded_choices(self@.pickers, filaments@));
    }
}

/// The filament grid: the grid being edited and four saved grids.
#[derive(Debug)]
pub struct FilamentGrid {
    pub current: FilamentGridData,
    pub grids: [Option<FilamentGridSave>; 4],
}

impl Default for FilamentGrid {
    fn default() -> (g: Self)
        ensures
            g.grids@ == seq![None::<FilamentGridSave>, None, None, None],
            g.current@.num_filaments == 4,
            g.current@.choices.len() == 16,
            forall|i: int| 0 <= i < 16 ==> (#[trigger] g.current@.choices[i]) is None,
    {
        let g = FilamentGrid { current: FilamentGridData::default(), grids: [None, None, None, None] };
        assert(g.grids@ =~= seq![None::<FilamentGridSave>, None, None, None]);
        g
    }
}

/// The view of an optional saved grid.
pub open spec fn opt_save_view(s: Option<FilamentGridSave>) -> Option<GridSaveView> {
    match s {
        Some(s) => Some(s@),
        None => None,
    }
}

impl FilamentGrid {
    /// Saves the current grid in save slot `index`.
    pub fn save_picker(&mut self, index: usize)
        requires
            index < 4,
        ensures
            opt_save_view(final(self).grids@[index as int]) == Some(saved_view(old(self).current@)),
            forall|j: int| 0 <= j < 4 && j != index ==> final(self).grids@[j] == old(self).grids@[j],
            final(self).current == old(self).current,
    {
        self.grids[index] = Some(FilamentGridSave::from_grid(&self.current));
    }

    /// Loads save slot `index` into the current grid, where it holds a grid.
    pub fn load_picker(&mut self, filaments: &FilamentMap, index: usize)
        requires
            index < 4,
            old(self).grids@[index as int] matches Some(s) ==> ids_in_map(s@.pickers, filaments@),
        ensures
            final(self).grids == old(self).grids,
            old(self).grids@[index as int] is None ==> final(self).current == old(self).current,
            old(self).grids@[index as int] matches Some(s) ==> {
                &&& final(self).current@.choices == loaded_choices(s@.pickers, filaments@)
                &&& final(self).current@.num_filaments == s.num_filaments
                &&& final(self).current@.multiplier == s.multiplier
                &&& final(self).current@.use_multiplier == s.use_multiplier
                &&& final(self).current@.offset == s.offset
                &&& final(self).current@.use_offset == s.use_offset
                &&& all_show(final(self).current.pickers@, old(self).current.pickers@)
            },
    {
        match self.grids[index] {
            Some(data) => {
                data.to_grid(filaments, &mut self.current);
            },
            None => {},
        }
    }

    /// Empties save slot `index`.
    pub fn delete_saved(&mut self, index: usize)
        requires
            index < 4,
        ensures
            final(self).grids@ == old(self).grids@.update(index as int, None),
            final(self).current == old(self).current,
    {
        self.grids[index] = None;
    }

    /// One more filament in the grid, up to sixteen.
    pub fn add_filament(&mut self)
        ensures
            final(self).current.num_filaments == if old(self).current.num_filaments < 16 {
                (old(self).current.num_filaments + 1) as usize
            } else {
                old(self).current.num_filaments
            },
            final(self).current.pickers == old(self).current.pickers,
            final(self).current.multiplier == old(self).current.multiplier,
            final(self).current.use_multiplier == old(self).current.use_multiplier,
            final(self).current.offset == old(self).current.offset,
            final(self).current.use_offset == old(self).current.use_offset,
            final(self).grids == old(self).grids,
    {
        if self.current.num_filaments < 16 {
            self.current.num_filaments = self.current.num_filaments + 1;
        }
    }

    /// One filament less in the grid, down to two.
    pub fn remove_filament(&mut self)
        ensures
            final(self).current.num_filaments == if old(self).current.num_filaments > 2 {
                (old(self).current.num_filaments - 1) as usize
            } else {
                old(self).current.num_filaments
            },
            final(self).current.pickers == old(self).current.pickers,
            final(self).current.multiplier == old(self).current.multiplier,
            final(self).current.use_multiplier == old(self).current.use_multiplier,
            final(self).current.offset == old(self).current.offset,
            final(self).current.use_offset == old(self).current.use_offset,
            final(self).grids == old(self).grids,
    {
        if self.current.num_filaments > 2 {
            self.current.num_filaments = self.current.num_filaments - 1;
        }
    }

    /// Empties every picker of the grid.
    pub fn clear(&mut self)
        ensures
            forall|i: int| 0 <= i < 16 ==> (#[trigger] final(self).current@.choices[i]) is None,
            all_show(final(self).current.pickers@, old(self).current.pickers@),
            final(self).current.num_filaments == old(self).current.num_filaments,
            final(self).current.multiplier == old(self).current.multiplier,
            final(self).current.use_multiplier == old(self).current.use_multiplier,
            final(self).current.offset == old(self).current.offset,
            final(self).current.use_offset == old(self).current.use_offset,
            final(self).grids == old(self).grids,
    {
        for i in 0..16
            invariant
                self.current.pickers@.len() == 16,
                old(self).current.pickers@.len() == 16,
                self.current.num_filaments == old(self).current.num_filaments,
                self.current.multiplier == old(self).current.multiplier,
                self.current.use_multiplier == old(self).current.use_multiplier,
                self.current.offset == old(self).current.offset,
                self.current.use_offset == old(self).current.use_offset,
                self.grids == old(self).grids,
                forall|j: int| 0 <= j < i ==> (#[trigger] self.current.pickers@[j]).choice() is None,
                forall|j: int|
                    0 <= j < i ==> #[trigger] keeps_id_and_shows(self.current.pickers@, old(self).current.pickers@, j),
                forall|j: int| i <= j < 16 ==> #[trigger] self.current.pickers@[j] == old(self).current.pickers@[j],
        {
            let ghost prev = self.current.pickers@;
            self.current.pickers[i].reset();
            assert(keeps_id_and_shows(self.current.pickers@, old(self).current.pickers@, i as int));
            assert forall|j: int| 0 <= j < i implies #[trigger] keeps_id_and_shows(self.current.pickers@, old(self).current.pickers@, j) by {
                assert(self.current.pickers@[j] == prev[j]);
                assert(keeps_id_and_shows(prev, old(self).current.pickers@, j));
            }
        }
    }

    /// Shows a filament, or none, in picker `i`.
    pub fn set_picker(&mut self, i: usize, f: Option<Filament>)
        requires
            i < 16,
        ensures
            final(self).current@.choices == old(self).current@.choices.update(i as int, opt_view(f)),
            keeps_id_and_shows(final(self).current.pickers@, old(self).current.pickers@, i as int),
            forall|j: int|
                0 <= j < 16 && j != i ==> #[trigger] final(self).current.pickers@[j]
                    == old(self).current.pickers@[j],
            final(self).current.num_filaments == old(self).current.num_filaments,
            final(self).current.multiplier == old(self).current.multiplier,
            final(self).current.use_multiplier == old(self).current.use_multiplier,
            final(self).current.offset == old(self).current.offset,
            final(self).current.use_offset == old(self).current.use_offset,
            final(self).grids == old(self).grids,
    {
        self.current.pickers[i].set_selected(f);
        assert(self.current@.choices =~= old(self).current@.choices.update(i as int, opt_view(f)));
    }

    pub fn pickers(&self) -> (res: &[FilamentPicker])
        ensures
            res@ == self.current.pickers@,
    {
        self.current.pickers()
    }

    pub fn pickers_mut(&mut self) -> (res: &mut [FilamentPicker])
        ensures
            res@ == old(self).current.pickers@,
            final(self).current.pickers@ == final(res)@,
            final(self).current.num_filaments == old(self).current.num_filaments,
            final(self).current.multiplier == old(self).current.multiplier,
            final(self).current.use_multiplier == old(self).current.use_multiplier,
            final(self).current.offset == old(self).current.offset,
            final(self).current.use_offset == old(self).current.use_offset,
            final(self).grids == old(self).grids,
    {
        &mut self.current.pickers
    }

    pub fn num_filaments(&self) -> (res: usize)
        ensures
            res == self.current@.num_filaments,
    {
        self.current.num_filaments
    }

    pub fn num_filaments_mut(&mut self) -> (res: &mut usize)
        ensures
            *res == old(self).current.num_filaments,
            final(self).current.num_filaments == *final(res),
            final(self).current.pickers == old(self).current.pickers,
            final(self).current.multiplier == old(self).current.multiplier,
            final(self).current.use_multiplier == old(self).current.use_multiplier,
            final(self).current.offset == old(self).current.offset,
            final(self).current.use_offset == old(self).current.use_offset,
            final(self).grids == old(self).grids,
    {
        &mut self.current.num_filaments
    }

    pub fn offset(&self) -> (res: u32)
        ensures
            res == self.current.offset,
    {
        self.current.offset
    }

    pub fn offset_mut(&mut self) -> (res: &mut u32)
        ensures
            *res == old(self).current.offset,
            final(self).current.offset == *final(res),
            final(self).current.pickers == old(self).current.pickers,
            final(self).current.num_filaments == old(self).current.num_filaments,
            final(self).current.multiplier == old(self).current.multiplier,
            final(self).current.use_multiplier == old(self).current.use_multiplier,
            final(self).current.use_offset == old(self).current.use_offset,
            final(self).grids == old(self).grids,
    {
        &mut self.current.offset
    }

    pub fn use_offset(&self) -> (res: bool)
        ensures
            res == self.current.use_offset,
    {
        self.current.use_offset
    }

    pub fn use_offset_mut(&mut self) -> (res: &mut bool)
        ensures
            *res == old(self).current.use_offset,
            final(self).current.use_offset == *final(res),
            final(self).current.pickers == old(self).current.pickers,
            final(self).current.num_filaments == old(self).current.num_filaments,
            final(self).current.multiplier == old(self).current.multiplier,
            final(self).current.use_multiplier == old(self).current.use_multiplier,
            final(self).current.offset == old(self).current.offset,
            final(self).grids == old(self).grids,
    {
        &mut self.current.use_offset
    }

    /// The bit pattern of the `f32` multiplier.
    pub fn multiplier(&self) -> (res: u32)
        ensures
            res == self.current.multiplier,
    {
        self.current.multiplier
    }

    pub fn multiplier_mut(&mut self) -> (res: &mut u32)
        ensures
            *res == old(self).current.multiplier,
            final(self).current.multiplier == *final(res),
            final(self).current.pickers == old(self).current.pickers,
            final(self).current.num_filaments == old(self).current.num_filaments,
            final(self).current.use_multiplier == old(self).current.use_multiplier,
            final(self).current.offset == old(self).current.offset,
            final(self).current.use_offset == old(self).current.use_offset,
            final(self).grids == old(self).grids,
    {
        &mut self.current.multiplier
    }

    pub fn use_multiplier(&self) -> (res: bool)
        ensures
            res == self.current.use_multiplier,
    {
        self.current.use_multiplier
    }

    pub fn use_multiplier_mut(&mut self) -> (res: &mut bool)
        ensures
            *res == old(self).current.use_multiplier,
            final(self).current.use_multiplier == *final(res),
            final(self).current.pickers == old(self).current.pickers,
            final(self).current.num_filaments == old(self).current.num_filaments,
            final(self).current.multiplier == old(self).current.multiplier,
            final(self).current.offset == old(self).current.offset,
            final(self).current.use_offset == old(self).current.use_offset,
            final(self).grids == old(self).grids,
    {
        &mut self.current.use_multiplier
    }
}

/// Loading what was saved of a grid, from a map that holds each chosen filament under
/// its id, gives the grid's filaments and settings back.
pub proof fn lemma_save_load_round_trip(d: GridDataView, m: Map<u32, FilamentView>)
    requires
        forall|i: int|
            0 <= i < d.choices.len() ==> (#[trigger] d.choices[i] matches Some(f) ==> (
            m.contains_key(f.id) && m[f.id] == f)),
    ensures
        ids_in_map(saved_view(d).pickers, m),
        loaded_choices(saved_view(d).pickers, m) == d.choices,
        same_settings(
            GridDataView {
                choices: loaded_choices(saved_view(d).pickers, m),
                num_filaments: saved_view(d).num_filaments,
                multiplier: saved_view(d).multiplier,
                use_multiplier: saved_view(d).use_multiplier,
                offset: saved_view(d).offset,
                use_offset: saved_view(d).use_offset,
            },
            d,
        ),
{
    let ids = saved_view(d).pickers;
    assert forall|i: int| 0 <= i < ids.len() implies (#[trigger] ids[i] matches Some(id)
        ==> m.contains_key(id)) by {
        assert(ids[i] == choice_id(d.choices[i]));
    }
    assert(loaded_choices(ids, m) =~= d.choices);
}

/// The slot columns a sent grid is kept with in the history: each slot's filament id,
/// none where the slot is empty.
pub open spec fn slot_columns(d: GridDataView) -> Seq<Option<i64>> {
    ids_of(d.choices).map_values(
        |id: Option<u32>|
            match id {
                Some(x) => Some(x as i64),
                None => None::<i64>,
            },
    )
}

/// A grid sent and then loaded back from the history (its slot ids as `slot_ids` gives
/// them, the row as `decode_history_row` reads it, the grid as `load_from_history` fills
/// it) shows the same filaments in its first slots, where the map still holds each of
/// them under its id. The row is shown in the history exactly when none of the grid's
/// first slots is empty.
pub proof fn lemma_history_round_trip(
    d: GridDataView,
    old_choices: Seq<Option<FilamentView>>,
    m: Map<u32, FilamentView>,
)
    requires
        d.choices.len() == 16,
        old_choices.len() == 16,
        d.num_filaments <= 16,
        forall|i: int|
            0 <= i < d.num_filaments ==> (#[trigger] d.choices[i] matches Some(f) ==> (
            m.contains_key(f.id) && m[f.id] == f)),
    ensures
        row_decodes(d.num_filaments as i64, slot_columns(d)) <==> (forall|i: int|
            0 <= i < d.num_filaments ==> #[trigger] d.choices[i] is Some),
        row_decodes(d.num_filaments as i64, slot_columns(d)) ==> (forall|i: int|
            0 <= i < d.num_filaments ==> #[trigger] history_choices(
                old_choices,
                row_ids(d.num_filaments as int, slot_columns(d)),
                m,
            )[i] == d.choices[i]),
{
    let cols = slot_columns(d);
    let n = d.num_filaments as int;
    assert forall|i: int| 0 <= i < n implies (slot_ok(#[trigger] cols[i]) <==> d.choices[i] is Some) by {
        assert(cols[i] == match choice_id(d.choices[i]) {
            Some(x) => Some(x as i64),
            None => None::<i64>,
        });
    }
    if row_decodes(n as i64, cols) {
        assert forall|i: int| 0 <= i < n implies #[trigger] d.choices[i] is Some by {
            assert(slot_ok(cols[i]));
        }
    }
    if forall|i: int| 0 <= i < n ==> #[trigger] d.choices[i] is Some {
        assert forall|i: int| 0 <= i < n implies slot_ok(#[trigger] cols[i]) by {
            assert(d.choices[i] is Some);
        }
        let ids = row_ids(n, cols);
        assert forall|i: int| 0 <= i < n implies #[trigger] history_choices(old_choices, ids, m)[i]
            == d.choices[i] by {
            assert(d.choices[i] is Some);
            assert(cols[i] == Some(d.choices[i]->Some_0.id as i64));
            assert(ids[i] == d.choices[i]->Some_0.id);
        }
    }
}

} // verus!
