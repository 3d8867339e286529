use vstd::prelude::*;

use crate::color::{
    Color, color_code, color_hex_text, color_to_bytes, hex_text, parse_color_text, hex_parse_result,
    lemma_code_color_round_trip, spec_color_code, spec_from_u24,
};
use crate::filament::{Filament, row_colors, valid_color_code};

verus! {

/// A color being edited: its channels and the text of its field.
pub type ColorEntry = ([u8; 3], String);

/// A color being edited, as mathematical values.
pub open spec fn entry_view(e: ColorEntry) -> (Seq<u8>, Seq<char>) {
    (e.0@, e.1@)
}

/// The entry of a color given by its channels: the channels and their text.
pub open spec fn entry_of(c: Seq<u8>) -> (Seq<u8>, Seq<char>) {
    (c, hex_text(c))
}

/// The form for adding or updating a filament.
#[derive(Debug)]
pub struct NewFilament {
    /// The database row the form updates; none for a new filament.
    pub row_id: Option<u32>,
    pub name: String,
    pub manufacturer: String,
    pub color_base: ColorEntry,
    pub colors: Vec<ColorEntry>,
    pub material: String,
    pub notes: String,
    /// The filament chosen in the list beside the form.
    pub selected: Option<u32>,
    /// The filament whose deletion waits for a second click.
    pub confirm_delete: Option<u32>,
}

/// What the form holds, as mathematical values.
pub struct NewFilamentView {
    pub row_id: Option<u32>,
    pub name: Seq<char>,
    pub manufacturer: Seq<char>,
    pub color_base: (Seq<u8>, Seq<char>),
    pub colors: Seq<(Seq<u8>, Seq<char>)>,
    pub material: Seq<char>,
    pub notes: Seq<char>,
    pub selected: Option<u32>,
    pub confirm_delete: Option<u32>,
}

impl View for NewFilament {
    type V = NewFilamentView;

    open spec fn view(&self) -> NewFilamentView {
        NewFilamentView {
            row_id: self.row_id,
            name: self.name@,
            manufacturer: self.manufacturer@,
            color_base: entry_view(self.color_base),
            colors: self.colors@.map_values(|e: ColorEntry| entry_view(e)),
            material: self.material@,
            notes: self.notes@,
            selected: self.selected,
            confirm_delete: self.confirm_delete,
        }
    }
}

/// The empty form: no row, no text, black as `000000`, no extra colors, nothing chosen.
pub open spec fn empty_form() -> NewFilamentView {
    NewFilamentView {
        row_id: None,
        name: Seq::empty(),
        manufacturer: Seq::empty(),
        color_base: (seq![0u8, 0u8, 0u8], "000000"@),
        colors: Seq::empty(),
        material: Seq::empty(),
        notes: Seq::empty(),
        selected: None,
        confirm_delete: None,
    }
}

impl Default for NewFilament {
    fn default() -> (f: Self)
        ensures
            f@ == empty_form(),
    {
        let f = NewFilament {
            row_id: None,
            name: String::new(),
            manufacturer: String::new(),
            color_base: ([0, 0, 0], String::from_str("000000")),
            colors: Vec::new(),
            material: String::new(),
            notes: String::new(),
            selected: None,
            confirm_delete: None,
        };
        assert(f@.colors =~= Seq::<(Seq<u8>, Seq<char>)>::empty());
        assert(f@.color_base.0 =~= seq![0u8, 0u8, 0u8]);
        f
    }
}

/// The entries of colors given by their channels.
pub open spec fn entries_of(cs: Seq<[u8; 3]>) -> Seq<(Seq<u8>, Seq<char>)> {
    cs.map_values(|c: [u8; 3]| entry_of(c@))
}

impl NewFilament {
    /// A form for a filament of this name, manufacturer and colors; the rest empty.
    pub fn new(name: &str, manufacturer: &str, color_base: [u8; 3], colors: &[[u8; 3]]) -> (f: Self)
        ensures
            f@ == (NewFilamentView {
                name: name@,
                manufacturer: manufacturer@,
                color_base: entry_of(color_base@),
                colors: entries_of(colors@),
                ..empty_form()
            }),
    {
        let mut entries: Vec<ColorEntry> = Vec::new();
        for i in 0..colors.len()
            invariant
                entries@.len() == i,
                forall|j: int| 0 <= j < i ==> entry_view(#[trigger] entries@[j]) == entry_of(colors@[j]@),
        {
            let c = colors[i];
            entries.push((c, color_hex_text(c)));
        }
        assert(entries@.map_values(|e: ColorEntry| entry_view(e)) =~= entries_of(colors@));
        let f = NewFilament {
            row_id: None,
            name: String::from_str(name),
            manufacturer: String::from_str(manufacturer),
            color_base: (color_base, color_hex_text(color_base)),
            colors: entries,
            material: String::new(),
            notes: String::new(),
            selected: None,
            confirm_delete: None,
        };
        f
    }

    /// Empties the form, keeping the chosen filament.
    pub fn clear(&mut self)
        ensures
            final(self)@ == (NewFilamentView { selected: old(self).selected, ..empty_form() }),
    {
        let p = self.selected;
        *self = Self::default();
        self.selected = p;
    }

    /// Whether the form has a name and a manufacturer, which a filament needs.
    pub fn not_empty(&self) -> (res: bool)
        ensures
            res == (self.name@.len() > 0 && self.manufacturer@.len() > 0),
    {
        !self.name.as_str().is_empty() && !self.manufacturer.as_str().is_empty()
    }

    /// Fills the form from a filament: its row, text fields and colors.
    pub fn load_filament(&mut self, f: &Filament)
        ensures
            final(self)@ == (NewFilamentView {
                row_id: Some(f.id),
                name: f.name@,
                manufacturer: f.manufacturer@,
                color_base: entry_of(seq![f.color_base.r, f.color_base.g, f.color_base.b]),
                colors: f.colors@.map_values(|c: crate::color::Color| entry_of(seq![c.r, c.g, c.b])),
                material: f.material@,
                notes: f.notes@,
                ..old(self)@
            }),
    {
        self.row_id = Some(f.id);
        self.name = f.name.clone();
        self.manufacturer = f.manufacturer.clone();
        self.material = f.material.clone();
        self.notes = f.notes.clone();
        self.color_base = color_to_bytes(f.color_base);
        let mut entries: Vec<ColorEntry> = Vec::new();
        for i in 0..f.colors.len()
            invariant
                entries@.len() == i,
                forall|j: int|
                    0 <= j < i ==> entry_view(#[trigger] entries@[j]) == entry_of(
                        seq![f.colors@[j].r, f.colors@[j].g, f.colors@[j].b],
                    ),
        {
            let e = color_to_bytes(f.colors[i]);
            entries.push(e);
        }
        assert(entries@.map_values(|e: ColorEntry| entry_view(e)) =~= f.colors@.map_values(
            |c: crate::color::Color| entry_of(seq![c.r, c.g, c.b]),
        ));
        self.colors = entries;
        assert(self@.color_base.0 =~= seq![f.color_base.r, f.color_base.g, f.color_base.b]);
    }

    /// Takes only the row of a filament, to save the form over it.
    pub fn load_id(&mut self, f: &Filament)
        ensures
            final(self)@ == (NewFilamentView { row_id: Some(f.id), ..old(self)@ }),
    {
        self.row_id = Some(f.id);
    }

    /// Forgets the row, so that saving adds a new filament.
    pub fn clear_row_id(&mut self)
        ensures
            final(self)@ == (NewFilamentView { row_id: None, ..old(self)@ }),
    {
        self.row_id = None;
    }

    /// Adds an extra color, black with empty text, where there are fewer than two.
    pub fn add_color(&mut self)
        ensures
            old(self)@.colors.len() < 2 ==> final(self)@ == (NewFilamentView {
                colors: old(self)@.colors.push((seq![0u8, 0u8, 0u8], Seq::<char>::empty())),
                ..old(self)@
            }),
            old(self)@.colors.len() >= 2 ==> final(self)@ == old(self)@,
    {
        if self.colors.len() < 2 {
            let z: [u8; 3] = [0, 0, 0];
            assert(z@ =~= seq![0u8, 0u8, 0u8]);
            self.colors.push((z, String::new()));
            assert(self@.colors =~= old(self)@.colors.push(
                (seq![0u8, 0u8, 0u8], Seq::<char>::empty()),
            ));
        }
    }

    /// Removes the last extra color, if there is one.
    pub fn remove_color(&mut self)
        ensures
            final(self)@ == (NewFilamentView {
                colors: if old(self)@.colors.len() > 0 {
                    old(self)@.colors.drop_last()
                } else {
                    old(self)@.colors
                },
                ..old(self)@
            }),
    {
        let _ = self.colors.pop();
        assert(self@.colors =~= if old(self)@.colors.len() > 0 {
            old(self)@.colors.drop_last()
        } else {
            old(self)@.colors
        });
    }

    /// The delete button lost the pointer: a waiting confirmation is dropped.
    pub fn delete_unhovered(&mut self, hovered: bool)
        ensures
            final(self)@ == (NewFilamentView {
                confirm_delete: if hovered { old(self).confirm_delete } else { None },
                ..old(self)@
            }),
    {
        if self.confirm_delete.is_some() && !hovered {
            self.confirm_delete = None;
        }
    }

    /// The delete button was clicked: the first click on a chosen filament asks for
    /// confirmation, a second click on the same filament gives its id to delete.
    pub fn delete_clicked(&mut self) -> (res: Option<u32>)
        ensures
            res == (match (old(self).selected, old(self).confirm_delete) {
                (Some(s), Some(d)) => if s == d {
                    Some(d)
                } else {
                    None
                },
                _ => None,
            }),
            final(self)@ == (NewFilamentView {
                confirm_delete: match (old(self).selected, old(self).confirm_delete) {
                    (Some(s), None) => Some(s),
                    _ => old(self).confirm_delete,
                },
                ..old(self)@
            }),
    {
        match self.selected {
            Some(sel_id) => match self.confirm_delete {
                Some(del_id) => {
                    if del_id == sel_id {
                        Some(del_id)
                    } else {
                        None
                    }
                },
                None => {
                    self.confirm_delete = Some(sel_id);
                    None
                },
            },
            None => None,
        }
    }

    /// The three color columns of the database row: the main color, then the first and
    /// second extra color, `-1` where missing.
    pub fn color_codes(&self) -> (res: (i32, i32, i32))
        ensures
            res.0 as int == spec_color_code(Some(self.color_base.0@)),
            res.1 as int == spec_color_code(
                if self.colors@.len() > 0 {
                    Some(self.colors@[0].0@)
                } else {
                    None
                },
            ),
            res.2 as int == spec_color_code(
                if self.colors@.len() > 1 {
                    Some(self.colors@[1].0@)
                } else {
                    None
                },
            ),
    {
        let c1 = color_code(Some(self.color_base.0));
        let c2 = color_code(if self.colors.len() > 0 { Some(self.colors[0].0) } else { None });
        let c3 = color_code(if self.colors.len() > 1 { Some(self.colors[1].0) } else { None });
        (c1, c2, c3)
    }
}

/// The color picker changed the channels: the text follows them.
pub fn color_picked(entry: &mut ColorEntry)
    ensures
        entry_view(*final(entry)) == entry_of(old(entry).0@),
{
    entry.1 = color_hex_text(entry.0);
}

/// The text of a color changed: where `#` and the text parse as a color, the channels
/// follow it; else they stay. Returns whether the text parsed.
pub fn color_typed(entry: &mut ColorEntry) -> (parsed: bool)
    ensures
        final(entry).1@ == old(entry).1@,
        match hex_parse_result(seq!['#'] + old(entry).1@) {
            Some(p) => parsed && final(entry).0@ == seq![p.0, p.1, p.2],
            None => !parsed && final(entry).0 == old(entry).0,
        },
{
    match parse_color_text(entry.1.as_str()) {
        Some(c) => {
            entry.0 = c;
            true
        },
        None => false,
    }
}

/// The channels of a color, as the form's color entries hold them.
pub open spec fn channels_of(c: Color) -> Seq<u8> {
    seq![c.r, c.g, c.b]
}

/// A filament row read from the database and loaded into the form is saved back with the
/// same three color columns: the row's main color and extra colors (as
/// `filament_from_row` reads them) taken as the form's entries (as `load_filament` fills
/// them) give the row's codes (as `color_codes` computes them). A row with a third color
/// but no second one is read as having one extra color, which is saved in the second
/// column, so it is left out.
pub proof fn lemma_row_form_round_trip(c1: i32, c2: i32, c3: i32)
    requires
        valid_color_code(c1, false),
        valid_color_code(c2, true),
        valid_color_code(c3, true),
        !(c2 == -1 && c3 != -1),
    ensures
        ({
            let colors = row_colors(c2, c3);
            &&& spec_color_code(Some(channels_of(spec_from_u24(c1 as int)))) == c1
            &&& spec_color_code(
                if colors.len() > 0 {
                    Some(channels_of(colors[0]))
                } else {
                    None
                },
            ) == c2
            &&& spec_color_code(
                if colors.len() > 1 {
                    Some(channels_of(colors[1]))
                } else {
                    None
                },
            ) == c3
        }),
{
    lemma_code_color_round_trip(c1 as int);
    if c2 != -1 {
        lemma_code_color_round_trip(c2 as int);
    }
    if c3 != -1 {
        lemma_code_color_round_trip(c3 as int);
    }
}

} // verus!
