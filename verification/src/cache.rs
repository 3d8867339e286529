use vstd::prelude::*;

use crate::filament::{Filament, FilamentMap, FilamentView, filament_map_from_list, list_view, map_of_list};
use crate::purge::CACHE_NANOS;

verus! {

/// The filaments as last read from the database, with a mark for when they must be read
/// again.
pub struct FilamentCache {
    pub map: FilamentMap,
    pub list: Vec<(u32, Filament)>,
    /// Set when the database changed since the last read.
    pub stale: bool,
}

/// Copies a list of filaments with their ids.
pub fn copy_list(xs: &Vec<(u32, Filament)>) -> (res: Vec<(u32, Filament)>)
    ensures
        list_view(res@) == list_view(xs@),
{
    let mut res: Vec<(u32, Filament)> = Vec::new();
    for i in 0..xs.len()
        invariant
            res@.len() == i,
            forall|j: int| #![trigger res@[j]] 0 <= j < i ==> res@[j].0 == xs@[j].0 && res@[j].1@ == xs@[j].1@,
    {
        let f = xs[i].1.clone();
        res.push((xs[i].0, f));
    }
    assert(list_view(res@) =~= list_view(xs@));
    res
}

impl FilamentCache {
    /// The map holds the filaments of the list, found by id.
    pub open spec fn wf(&self) -> bool {
        self.map@ == map_of_list(list_view(self.list@))
    }

    /// An empty cache, to be read first.
    pub fn new() -> (c: Self)
        ensures
            c.wf(),
            c.stale,
            c.map@ == Map::<u32, FilamentView>::empty(),
            c.list@.len() == 0,
    {
        let c = FilamentCache { map: FilamentMap::empty(), list: Vec::new(), stale: true };
        assert(list_view(c.list@) =~= Seq::<(u32, FilamentView)>::empty());
        c
    }

    /// Whether the filaments must be read again: marked stale, or read more than thirty
    /// seconds ago.
    pub fn is_stale(&self, elapsed_nanos: u128) -> (res: bool)
        ensures
            res == (self.stale || elapsed_nanos > CACHE_NANOS),
    {
        self.stale || elapsed_nanos > CACHE_NANOS
    }

    /// The filament of an id from the cache, where the cache is fresh and holds it;
    /// `None` means it must be read from the database.
    pub fn cached(&self, id: u32, elapsed_nanos: u128) -> (res: Option<Filament>)
        ensures
            (self.stale || elapsed_nanos > CACHE_NANOS) ==> res is None,
            !(self.stale || elapsed_nanos > CACHE_NANOS) ==> match res {
                Some(f) => self.map@.contains_key(id) && f@ == self.map@[id],
                None => !self.map@.contains_key(id),
            },
    {
        if !self.is_stale(elapsed_nanos) {
            match self.map.get(&id) {
                Some(f) => Some(f.clone()),
                None => None,
            }
        } else {
            None
        }
    }

    /// The cached filaments, as a map and as the list in query order, where the cache is
    /// fresh; `None` means they must be read from the database.
    pub fn cached_all(&self, elapsed_nanos: u128) -> (res: Option<(FilamentMap, Vec<(u32, Filament)>)>)
        ensures
            (self.stale || elapsed_nanos > CACHE_NANOS) ==> res is None,
            !(self.stale || elapsed_nanos > CACHE_NANOS) ==> (res matches Some((m, l)) && m@
                == self.map@ && list_view(l@) == list_view(self.list@)),
    {
        if !self.is_stale(elapsed_nanos) {
            let m = FilamentMap::new(self.map.filaments.clone());
            Some((m, copy_list(&self.list)))
        } else {
            None
        }
    }

    /// Keeps the filaments just read, in query order, and marks the cache fresh.
    pub fn refresh(&mut self, xs: Vec<(u32, Filament)>)
        ensures
            final(self).wf(),
            !final(self).stale,
            final(self).map@ == map_of_list(list_view(xs@)),
            list_view(final(self).list@) == list_view(xs@),
    {
        self.map = filament_map_from_list(&xs);
        self.list = xs;
        self.stale = false;
    }

    /// Marks the cache stale after the database changed.
    pub fn mark_stale(&mut self)
        ensures
            old(self).wf() ==> final(self).wf(),
            final(self).stale,
            final(self).map@ == old(self).map@,
            list_view(final(self).list@) == list_view(old(self).list@),
    {
        self.stale = true;
    }
}

/// The default white and black filament ids the application starts with: the ones the
/// database marks, where it could be read, else `1` for white and `2` for black.
/// `marked` is `(black, white)` as the default filament table gives them.
pub fn initial_defaults(marked: Option<(Option<u32>, Option<u32>)>) -> (res: (u32, u32))
    ensures
        res == (match marked {
            Some((b, w)) => (
                match w {
                    Some(w) => w,
                    None => 1u32,
                },
                match b {
                    Some(b) => b,
                    None => 2u32,
                },
            ),
            None => (1u32, 2u32),
        }),
{
    match marked {
        Some((b, w)) => {
            let white = match w {
                Some(w) => w,
                None => 1,
            };
            let black = match b {
                Some(b) => b,
                None => 2,
            };
            (white, black)
        },
        None => (1, 2),
    }
}

} // verus!
