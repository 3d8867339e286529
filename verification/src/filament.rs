use vstd::prelude::*;
use std::collections::HashMap;

use crate::color::{Color, spec_from_u24, color_from_code, color_hash_text, hex_text};

verus! {

broadcast use vstd::std_specs::hash::group_hash_axioms;

/// A filament: a spool of printing material with its colors.
#[derive(Debug)]
pub struct Filament {
    pub id: u32,
    pub name: String,
    pub manufacturer: String,
    /// The main color.
    pub color_base: Color,
    /// Further colors of a multi-colored filament.
    pub colors: Vec<Color>,
    pub material: String,
    pub notes: String,
}

/// What a filament holds, as mathematical values.
pub struct FilamentView {
    pub id: u32,
    pub name: Seq<char>,
    pub manufacturer: Seq<char>,
    pub color_base: Color,
    pub colors: Seq<Color>,
    pub material: Seq<char>,
    pub notes: Seq<char>,
}

impl View for Filament {
    type V = FilamentView;

    open spec fn view(&self) -> FilamentView {
        FilamentView {
            id: self.id,
            name: self.name@,
            manufacturer: self.manufacturer@,
            color_base: self.color_base,
            colors: self.colors@,
            material: self.material@,
            notes: self.notes@,
        }
    }
}

/// The view of an optional filament.
pub open spec fn opt_view(f: Option<Filament>) -> Option<FilamentView> {
    match f {
        Some(f) => Some(f@),
        None => None,
    }
}

impl Clone for Filament {
    fn clone(&self) -> (res: Self)
        ensures
            res@ == self@,
    {
        let colors = self.colors.clone();
        assert(colors@ =~= self.colors@);
        Filament {
            id: self.id,
            name: self.name.clone(),
            manufacturer: self.manufacturer.clone(),
            color_base: self.color_base,
            colors,
            material: self.material.clone(),
            notes: self.notes.clone(),
        }
    }
}

/// A copy of a list of colors.
pub fn copy_colors(colors: &[Color]) -> (res: Vec<Color>)
    ensures
        res@ == colors@,
{
    let mut res: Vec<Color> = Vec::new();
    for i in 0..colors.len()
        invariant
            res@ == colors@.subrange(0, i as int),
    {
        res.push(colors[i]);
        assert(res@ =~= colors@.subrange(0, i + 1));
    }
    assert(res@ =~= colors@);
    res
}

fn colors_equal(a: &Vec<Color>, b: &Vec<Color>) -> (res: bool)
    ensures
        res == (a@ == b@),
{
    if a.len() != b.len() {
        assert(a@.len() != b@.len());
        return false;
    }
    for i in 0..a.len()
        invariant
            a@.len() == b@.len(),
            forall|j: int| 0 <= j < i ==> a@[j] == b@[j],
    {
        if a[i] != b[i] {
            return false;
        }
    }
    assert(a@ =~= b@);
    true
}

impl Filament {
    pub fn new(
        id: u32,
        name: String,
        manufacturer: String,
        color_base: Color,
        colors: &[Color],
        material: String,
        notes: String,
    ) -> (f: Self)
        ensures
            f@ == (FilamentView {
                id,
                name: name@,
                manufacturer: manufacturer@,
                color_base,
                colors: colors@,
                material: material@,
                notes: notes@,
            }),
    {
        Filament {
            id,
            name,
            manufacturer,
            color_base,
            colors: copy_colors(colors),
            material,
            notes,
        }
    }

    /// Whether two filaments hold the same values in every field.
    pub fn same_as(&self, other: &Filament) -> (res: bool)
        ensures
            res == (self@ == other@),
    {
        self.id == other.id && self.name == other.name && self.manufacturer == other.manufacturer
            && self.color_base == other.color_base && colors_equal(&self.colors, &other.colors)
            && self.material == other.material && self.notes == other.notes
    }

    /// `manufacturer name`: the text shown for a filament.
    pub fn display(&self) -> (s: String)
        ensures
            s@ == self.manufacturer@ + seq![' '] + self.name@,
    {
        let mut s = self.manufacturer.clone();
        crate::color::push_char(&mut s, ' ');
        s.append(self.name.as_str());
        s
    }

    /// The main color as `#RRGGBB`.
    pub fn display_color(&self) -> (s: String)
        ensures
            s@ == seq!['#'] + hex_text(seq![self.color_base.r, self.color_base.g, self.color_base.b]),
    {
        color_hash_text([self.color_base.r, self.color_base.g, self.color_base.b])
    }

    /// The colors of the three squares of a colored box, left to right: the second extra
    /// color, the first extra color (each `None`, drawn transparent, when missing), and
    /// the main color.
    pub fn box_colors(&self) -> (res: (Option<Color>, Option<Color>, Color))
        ensures
            res.0 == (if self.colors@.len() > 1 { Some(self.colors@[1]) } else { None }),
            res.1 == (if self.colors@.len() > 0 { Some(self.colors@[0]) } else { None }),
            res.2 == self.color_base,
    {
        let second = if self.colors.len() > 1 { Some(self.colors[1]) } else { None };
        let first = if self.colors.len() > 0 { Some(self.colors[0]) } else { None };
        (second, first, self.color_base)
    }

    /// The colors of the stripes of a stacked box, left to right: the main color, then
    /// the extra colors; `None` for a filament with more than two extra colors, which is
    /// not drawn.
    pub fn stack_colors(&self) -> (res: Option<Vec<Color>>)
        ensures
            self.colors@.len() <= 2 ==> (res matches Some(v) && v@ == seq![self.color_base]
                + self.colors@),
            self.colors@.len() > 2 ==> res is None,
    {
        if self.colors.len() > 2 {
            return None;
        }
        let mut v: Vec<Color> = Vec::new();
        v.push(self.color_base);
        for i in 0..self.colors.len()
            invariant
                v@ == seq![self.color_base] + self.colors@.subrange(0, i as int),
        {
            v.push(self.colors[i]);
            assert(v@ =~= seq![self.color_base] + self.colors@.subrange(0, i + 1));
        }
        assert(self.colors@.subrange(0, self.colors@.len() as int) =~= self.colors@);
        Some(v)
    }
}

/// Whether a color column holds a color (`0..=0xFFFFFF`) or no color (`-1`).
pub open spec fn valid_color_code(code: i32, optional: bool) -> bool {
    (0 <= code <= 0x00FF_FFFF) || (optional && code == -1)
}

/// The extra colors that the second and third color columns of a filament row hold.
pub open spec fn row_colors(color2: i32, color3: i32) -> Seq<Color> {
    let first: Seq<Color> = if color2 != -1 { seq![spec_from_u24(color2 as int)] } else { seq![] };
    let second: Seq<Color> = if color3 != -1 { seq![spec_from_u24(color3 as int)] } else { seq![] };
    first + second
}

/// The filament that a row of the filament table describes.
pub fn filament_from_row(
    id: u32,
    name: String,
    manufacturer: String,
    color1: i32,
    color2: i32,
    color3: i32,
    material: String,
    notes: String,
) -> (f: Filament)
    requires
        valid_color_code(color1, false),
        valid_color_code(color2, true),
        valid_color_code(color3, true),
    ensures
        f@ == (FilamentView {
            id,
            name: name@,
            manufacturer: manufacturer@,
            color_base: spec_from_u24(color1 as int),
            colors: row_colors(color2, color3),
            material: material@,
            notes: notes@,
        }),
{
    let color = color_from_code(color1);
    let mut colors: Vec<Color> = Vec::new();
    if color2 != -1 {
        colors.push(color_from_code(color2));
    }
    if color3 != -1 {
        colors.push(color_from_code(color3));
    }
    assert(colors@ =~= row_colors(color2, color3));
    Filament::new(id, name, manufacturer, color, colors.as_slice(), material, notes)
}

/// The material of a filament.
#[derive(Debug, PartialEq, Eq, Structural, Clone, Copy)]
pub enum Material {
    PLA,
    PETG,
    ABS,
    ASA,
}

/// The filaments, found by id.
#[derive(Debug)]
pub struct FilamentMap {
    pub filaments: HashMap<u32, Filament>,
}

/// What a filament map holds: each id with its filament.
pub open spec fn map_view(m: Map<u32, Filament>) -> Map<u32, FilamentView> {
    Map::new(|k: u32| m.dom().contains(k), |k: u32| m[k]@)
}

impl View for FilamentMap {
    type V = Map<u32, FilamentView>;

    open spec fn view(&self) -> Map<u32, FilamentView> {
        map_view(self.filaments@)
    }
}

impl FilamentMap {
    pub fn new(filaments: HashMap<u32, Filament>) -> (m: Self)
        ensures
            m.filaments@ == filaments@,
    {
        FilamentMap { filaments }
    }

    /// An empty map.
    pub fn empty() -> (m: Self)
        ensures
            m@ == Map::<u32, FilamentView>::empty(),
    {
        let m = FilamentMap { filaments: HashMap::new() };
        assert(m@ =~= Map::<u32, FilamentView>::empty());
        m
    }

    /// The filament with the given id, if there is one.
    pub fn get(&self, id: &u32) -> (res: Option<&Filament>)
        ensures
            match res {
                Some(f) => self@.contains_key(*id) && f@ == self@[*id],
                None => !self@.contains_key(*id),
            },
    {
        self.filaments.get(id)
    }

    /// The ids the map holds.
    pub open spec fn contains(&self, id: u32) -> bool {
        self@.contains_key(id)
    }
}

/// The map that a list of filaments makes, the later of two entries with one id winning.
pub open spec fn map_of_list(xs: Seq<(u32, FilamentView)>) -> Map<u32, FilamentView>
    decreases xs.len(),
{
    if xs.len() == 0 {
        Map::empty()
    } else {
        map_of_list(xs.drop_last()).insert(xs.last().0, xs.last().1)
    }
}

/// The view of a list of filaments with their ids.
pub open spec fn list_view(xs: Seq<(u32, Filament)>) -> Seq<(u32, FilamentView)> {
    xs.map_values(|p: (u32, Filament)| (p.0, p.1@))
}

/// The map of all filaments, made from the list that the filament query returned.
pub fn filament_map_from_list(xs: &Vec<(u32, Filament)>) -> (m: FilamentMap)
    ensures
        m@ == map_of_list(list_view(xs@)),
{
    let mut map: HashMap<u32, Filament> = HashMap::new();
    let ghost lv = list_view(xs@);
    for i in 0..xs.len()
        invariant
            lv == list_view(xs@),
            map_view(map@) == map_of_list(lv.subrange(0, i as int)),
    {
        let f = xs[i].1.clone();
        map.insert(xs[i].0, f);
        proof {
            let sub = lv.subrange(0, i + 1);
            assert(sub.drop_last() =~= lv.subrange(0, i as int));
            assert(map_view(map@) =~= map_of_list(sub));
        }
    }
    assert(lv.subrange(0, xs@.len() as int) =~= lv);
    FilamentMap { filaments: map }
}

/// The map of a list holds exactly the listed ids.
pub proof fn lemma_map_of_list_ids(xs: Seq<(u32, FilamentView)>, id: u32)
    ensures
        map_of_list(xs).contains_key(id) <==> exists|i: int| 0 <= i < xs.len() && #[trigger] xs[i].0 == id,
    decreases xs.len(),
{
    if xs.len() > 0 {
        let rest = xs.drop_last();
        lemma_map_of_list_ids(rest, id);
        if xs.last().0 == id {
            assert(xs[xs.len() - 1].0 == id);
        } else if map_of_list(rest).contains_key(id) {
            let i = choose|i: int| 0 <= i < rest.len() && #[trigger] rest[i].0 == id;
            assert(xs[i].0 == id);
        } else {
            assert forall|i: int| 0 <= i < xs.len() implies #[trigger] xs[i].0 != id by {
                if i < rest.len() {
                    assert(rest[i].0 == xs[i].0);
                }
            }
        }
    }
}

/// The map of a list gives, for a listed id, the last filament listed under it; the
/// cache and the lookups by id answer from this map.
pub proof fn lemma_map_of_list_last(xs: Seq<(u32, FilamentView)>, i: int)
    requires
        0 <= i < xs.len(),
        forall|j: int| i < j < xs.len() ==> #[trigger] xs[j].0 != xs[i].0,
    ensures
        map_of_list(xs).contains_key(xs[i].0),
        map_of_list(xs)[xs[i].0] == xs[i].1,
    decreases xs.len(),
{
    if i < xs.len() - 1 {
        let rest = xs.drop_last();
        assert forall|j: int| i < j < rest.len() implies #[trigger] rest[j].0 != rest[i].0 by {
            assert(xs[j].0 != xs[i].0);
        }
        lemma_map_of_list_last(rest, i);
        assert(xs[xs.len() - 1].0 != xs[i].0);
    }
}

} // verus!
