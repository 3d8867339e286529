use vstd::prelude::*;

use crate::filament::{Filament, FilamentView, opt_view};
use crate::picker::FilamentPicker;
use crate::purge::{PurgeValue, spec_stored, stored_purge};

verus! {

/// Whether a character is a decimal digit.
pub open spec fn is_decimal_digit(c: char) -> bool {
    '0' <= c && c <= '9'
}

/// The number that decimal digit characters spell.
pub open spec fn decimal_value(ds: Seq<char>) -> nat
    decreases ds.len(),
{
    if ds.len() == 0 {
        0
    } else {
        decimal_value(ds.drop_last()) * 10 + (ds.last() as nat - '0' as nat) as nat
    }
}

/// What `str::parse::<u32>` gives: an optional `+` followed by one or more decimal
/// digits whose value fits a `u32`; anything else, whitespace too, is an error.
pub open spec fn spec_parse_u32(s: Seq<char>) -> Option<u32> {
    let d = if s.len() > 0 && s[0] == '+' {
        s.drop_first()
    } else {
        s
    };
    if d.len() > 0 && (forall|i: int| 0 <= i < d.len() ==> is_decimal_digit(#[trigger] d[i]))
        && decimal_value(d) <= u32::MAX {
        Some(decimal_value(d) as u32)
    } else {
        None
    }
}

/// Calls `str::parse::<u32>` and keeps the number of an `Ok`. Claimed, as the standard
/// library documents it: an optional `+` and decimal digits whose value fits, else an
/// error.
#[verifier::external_body]
pub(crate) fn parse_u32(s: &str) -> (res: Option<u32>)
    ensures
        res == spec_parse_u32(s@),
{
    s.parse::<u32>().ok()
}

/// The page for entering purge values between two filaments.
#[derive(Debug)]
pub struct EnterPurge {
    pub picker1: FilamentPicker,
    pub picker2: FilamentPicker,
    /// The filaments the pickers showed when the value fields were last emptied.
    pub prev1: Option<Filament>,
    pub prev2: Option<Filament>,
    /// The value typed for the first filament into the second.
    pub purge1: String,
    /// The value typed for the second filament into the first.
    pub purge2: String,
}

impl Default for EnterPurge {
    fn default() -> (e: Self)
        ensures
            e.picker1.choice() is None,
            e.picker2.choice() is None,
            e.prev1 is None,
            e.prev2 is None,
            e.purge1@ == Seq::<char>::empty(),
            e.purge2@ == Seq::<char>::empty(),
    {
        EnterPurge {
            picker1: FilamentPicker::default(),
            picker2: FilamentPicker::default(),
            prev1: None,
            prev2: None,
            purge1: String::new(),
            purge2: String::new(),
        }
    }
}

fn copy_choice(f: Option<&Filament>) -> (res: Option<Filament>)
    ensures
        opt_view(res) == match f {
            Some(f) => Some(f@),
            None => None::<FilamentView>,
        },
{
    match f {
        Some(f) => Some(f.clone()),
        None => None,
    }
}

fn same_choice(a: Option<&Filament>, b: &Option<Filament>) -> (res: bool)
    ensures
        res == (match a {
            Some(f) => Some(f@),
            None => None::<FilamentView>,
        } == opt_view(*b)),
{
    match (a, b) {
        (Some(x), Some(y)) => x.same_as(y),
        (None, None) => true,
        _ => false,
    }
}

/// A value to store: from one filament into another, before scaling.
#[derive(Debug)]
pub struct PurgeEntry {
    pub from: u32,
    pub to: u32,
    pub value: PurgeValue,
}

/// The entries that saving a typed value gives: none when it does not parse, else the
/// value as it is stored.
pub open spec fn typed_entries(
    text: Seq<char>,
    from: u32,
    to: u32,
    use_multiplier: bool,
    use_offset: bool,
    offset: u32,
) -> Seq<(u32, u32, PurgeValue)> {
    match spec_parse_u32(text) {
        Some(p) => seq![(from, to, spec_stored(p, use_multiplier, use_offset, offset))],
        None => Seq::empty(),
    }
}

/// Whether a typed value that parses can be lowered by the offset when the offset alone
/// is on.
pub open spec fn storable(text: Seq<char>, use_multiplier: bool, use_offset: bool, offset: u32) -> bool {
    spec_parse_u32(text) matches Some(p) ==> (!use_multiplier && use_offset ==> p >= offset)
}

/// The view of purge entries.
pub open spec fn entries_view(es: Seq<PurgeEntry>) -> Seq<(u32, u32, PurgeValue)> {
    es.map_values(|e: PurgeEntry| (e.from, e.to, e.value))
}

impl EnterPurge {
    /// Shows the filament of another picker in the first picker.
    pub fn set_picker1(&mut self, picker: &FilamentPicker)
        ensures
            final(self).picker1.choice() == picker.choice(),
            final(self).picker1.shows_choice(),
            final(self).picker1.id == old(self).picker1.id,
            final(self).picker2 == old(self).picker2,
            final(self).prev1 == old(self).prev1,
            final(self).prev2 == old(self).prev2,
            final(self).purge1 == old(self).purge1,
            final(self).purge2 == old(self).purge2,
    {
        let f = copy_choice(picker.selected());
        self.picker1.set_selected(f);
    }

    /// Shows the filament of another picker in the second picker.
    pub fn set_picker2(&mut self, picker: &FilamentPicker)
        ensures
            final(self).picker2.choice() == picker.choice(),
            final(self).picker2.shows_choice(),
            final(self).picker2.id == old(self).picker2.id,
            final(self).picker1 == old(self).picker1,
            final(self).prev1 == old(self).prev1,
            final(self).prev2 == old(self).prev2,
            final(self).purge1 == old(self).purge1,
            final(self).purge2 == old(self).purge2,
    {
        let f = copy_choice(picker.selected());
        self.picker2.set_selected(f);
    }

    /// Swaps the two pickers.
    pub fn swap_pickers(&mut self)
        ensures
            final(self).picker1 == old(self).picker2,
            final(self).picker2 == old(self).picker1,
    {
        std::mem::swap(&mut self.picker1, &mut self.picker2);
    }

    /// Empties both value fields when a picker shows another filament than before, and
    /// notes what the pickers show.
    pub fn sync_selection(&mut self)
        ensures
            opt_view(final(self).prev1) == old(self).picker1.choice(),
            opt_view(final(self).prev2) == old(self).picker2.choice(),
            final(self).picker1 == old(self).picker1,
            final(self).picker2 == old(self).picker2,
            (old(self).picker1.choice() != opt_view(old(self).prev1) || old(self).picker2.choice()
                != opt_view(old(self).prev2)) ==> (final(self).purge1@ == Seq::<char>::empty()
                && final(self).purge2@ == Seq::<char>::empty()),
            (old(self).picker1.choice() == opt_view(old(self).prev1) && old(self).picker2.choice()
                == opt_view(old(self).prev2)) ==> (final(self).purge1@ == old(self).purge1@
                && final(self).purge2@ == old(self).purge2@),
    {
        if !same_choice(self.picker1.selected(), &self.prev1) {
            self.prev1 = copy_choice(self.picker1.selected());
            self.purge1 = String::new();
            self.purge2 = String::new();
        }
        if !same_choice(self.picker2.selected(), &self.prev2) {
            self.prev2 = copy_choice(self.picker2.selected());
            self.purge1 = String::new();
            self.purge2 = String::new();
        }
    }

    /// The values that saving stores: with two different filaments chosen, the typed
    /// value from the first into the second and the one back, each where it parses, as
    /// the grid's multiplier and offset store it.
    pub fn values_to_save(&self, use_multiplier: bool, use_offset: bool, offset: u32) -> (res: Vec<PurgeEntry>)
        requires
            storable(self.purge1@, use_multiplier, use_offset, offset),
            storable(self.purge2@, use_multiplier, use_offset, offset),
        ensures
            entries_view(res@) == match (self.picker1.choice(), self.picker2.choice()) {
                (Some(f1), Some(f2)) => if f1 == f2 {
                    Seq::empty()
                } else {
                    typed_entries(self.purge1@, f1.id, f2.id, use_multiplier, use_offset, offset)
                        + typed_entries(self.purge2@, f2.id, f1.id, use_multiplier, use_offset, offset)
                },
                _ => Seq::empty(),
            },
    {
        let mut res: Vec<PurgeEntry> = Vec::new();
        match (self.picker1.selected(), self.picker2.selected()) {
            (Some(f1), Some(f2)) => {
                if f1.same_as(f2) {
                    assert(entries_view(res@) =~= Seq::empty());
                    return res;
                }
                if let Some(p) = parse_u32(self.purge1.as_str()) {
                    res.push(PurgeEntry { from: f1.id, to: f2.id, value: stored_purge(p, use_multiplier, use_offset, offset) });
                }
                let ghost first = entries_view(res@);
                if let Some(p) = parse_u32(self.purge2.as_str()) {
                    res.push(PurgeEntry { from: f2.id, to: f1.id, value: stored_purge(p, use_multiplier, use_offset, offset) });
                }
                assert(entries_view(res@) =~= typed_entries(self.purge1@, f1.id, f2.id, use_multiplier, use_offset, offset)
                    + typed_entries(self.purge2@, f2.id, f1.id, use_multiplier, use_offset, offset));
                res
            },
            _ => {
                assert(entries_view(res@) =~= Seq::empty());
                res
            },
        }
    }
}

} // verus!
