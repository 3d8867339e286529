use vstd::prelude::*;

use crate::filament::{Filament, FilamentView, opt_view};

verus! {

/// Calls `rand::random::<u32>()`. Nothing is claimed of the number it returns.
#[verifier::external_body]
fn random_u32() -> (res: u32) {
    rand::random::<u32>()
}

/// A choice of one filament, as a drop-down box shows it.
#[derive(Debug)]
pub struct FilamentPicker {
    /// The id of the drop-down box.
    pub id: u32,
    /// The chosen filament.
    pub selected: Option<Filament>,
    /// The text of the box.
    pub buf: String,
}

impl Default for FilamentPicker {
    /// A picker with nothing chosen and a random box id.
    fn default() -> (p: Self)
        ensures
            p.selected is None,
            p.buf@ == Seq::<char>::empty(),
    {
        FilamentPicker { id: random_u32(), selected: None, buf: String::new() }
    }
}

/// The text a picker shows for a choice: the filament's name, or nothing.
pub open spec fn choice_text(f: Option<FilamentView>) -> Seq<char> {
    match f {
        Some(f) => f.name,
        None => Seq::empty(),
    }
}

/// The id of an optional filament.
pub open spec fn choice_id(f: Option<FilamentView>) -> Option<u32> {
    match f {
        Some(f) => Some(f.id),
        None => None,
    }
}

impl FilamentPicker {
    /// The chosen filament, as mathematical values.
    pub open spec fn choice(&self) -> Option<FilamentView> {
        opt_view(self.selected)
    }

    /// The box shows the choice: its text is the chosen filament's name, or empty when
    /// nothing is chosen.
    pub open spec fn shows_choice(&self) -> bool {
        self.buf@ == choice_text(self.choice())
    }

    /// The id of the chosen filament.
    pub fn filament_id(&self) -> (res: Option<u32>)
        ensures
            res == choice_id(self.choice()),
    {
        match &self.selected {
            Some(f) => Some(f.id),
            None => None,
        }
    }

    /// What is saved of a picker: the id of the chosen filament.
    pub fn to_saved(&self) -> (res: Option<u32>)
        ensures
            res == choice_id(self.choice()),
    {
        match &self.selected {
            Some(f) => Some(f.id),
            None => None,
        }
    }

    /// The chosen filament.
    pub fn selected(&self) -> (res: Option<&Filament>)
        ensures
            match res {
                Some(f) => self.choice() == Some(f@),
                None => self.choice() is None,
            },
    {
        match &self.selected {
            Some(f) => Some(f),
            None => None,
        }
    }

    /// Chooses a filament, or none, and shows its name.
    pub fn set_selected(&mut self, f: Option<Filament>)
        ensures
            final(self).choice() == opt_view(f),
            final(self).buf@ == choice_text(opt_view(f)),
            final(self).id == old(self).id,
    {
        self.buf = match &f {
            Some(f) => f.name.clone(),
            None => String::new(),
        };
        self.selected = f;
    }

    /// Sets the text of the box.
    pub fn set_buf(&mut self, buf: String)
        ensures
            final(self).buf@ == buf@,
            final(self).choice() == old(self).choice(),
            final(self).id == old(self).id,
    {
        self.buf = buf;
    }

    /// Chooses nothing and empties the text.
    pub fn reset(&mut self)
        ensures
            final(self).choice() is None,
            final(self).buf@ == Seq::<char>::empty(),
            final(self).id == old(self).id,
    {
        self.selected = None;
        self.buf = String::new();
    }
}

impl Clone for FilamentPicker {
    fn clone(&self) -> (res: Self)
        ensures
            res.id == self.id,
            res.choice() == self.choice(),
            res.buf@ == self.buf@,
    {
        let selected = match &self.selected {
            Some(f) => Some(f.clone()),
            None => None,
        };
        FilamentPicker { id: self.id, selected, buf: self.buf.clone() }
    }
}

} // verus!
