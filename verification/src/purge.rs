use vstd::prelude::*;

use crate::keys::{
    KeyStep, DELAY, KEY_TAB, MISSING_PURGE, number_keys, press, press_all, repeat, send_number, tab,
};

verus! {

/// A purge value after the grid's multiplier and offset are applied.
#[derive(Debug, Clone, Copy, PartialEq, Eq, Structural)]
pub enum PurgeValue {
    /// This number.
    Exact(u32),
    /// This number times the grid's `f32` multiplier, cut to a `u32`.
    Scaled(u32),
}

/// The value a purge value is shown and sent as: scaled when only the multiplier is on,
/// raised by the offset when only the offset is on, else unchanged.
pub open spec fn spec_displayed(p: u32, use_multiplier: bool, use_offset: bool, offset: u32) -> PurgeValue {
    if use_multiplier && !use_offset {
        PurgeValue::Scaled(p)
    } else if !use_multiplier && use_offset {
        PurgeValue::Exact((p + offset) as u32)
    } else {
        PurgeValue::Exact(p)
    }
}

/// The value an entered purge value is stored as: scaled when only the multiplier is on,
/// lowered by the offset when only the offset is on, else unchanged.
pub open spec fn spec_stored(p: u32, use_multiplier: bool, use_offset: bool, offset: u32) -> PurgeValue {
    if use_multiplier && !use_offset {
        PurgeValue::Scaled(p)
    } else if !use_multiplier && use_offset {
        PurgeValue::Exact((p - offset) as u32)
    } else {
        PurgeValue::Exact(p)
    }
}

/// The value a stored purge value is shown and sent as.
pub fn displayed_purge(p: u32, use_multiplier: bool, use_offset: bool, offset: u32) -> (res:
    PurgeValue)
    requires
        !use_multiplier && use_offset ==> p + offset <= u32::MAX,
    ensures
        res == spec_displayed(p, use_multiplier, use_offset, offset),
{
    match (use_multiplier, use_offset) {
        (true, true) => PurgeValue::Exact(p),
        (true, false) => PurgeValue::Scaled(p),
        (false, true) => PurgeValue::Exact(p + offset),
        (false, false) => PurgeValue::Exact(p),
    }
}

/// The value an entered purge value is stored as.
pub fn stored_purge(p: u32, use_multiplier: bool, use_offset: bool, offset: u32) -> (res:
    PurgeValue)
    requires
        !use_multiplier && use_offset ==> p >= offset,
    ensures
        res == spec_stored(p, use_multiplier, use_offset, offset),
{
    match (use_multiplier, use_offset) {
        (true, true) => PurgeValue::Exact(p),
        (true, false) => PurgeValue::Scaled(p),
        (false, true) => PurgeValue::Exact(p - offset),
        (false, false) => PurgeValue::Exact(p),
    }
}

/// Without the multiplier, a value entered as shown is stored as the value it was shown
/// for, and a stored value is shown as it was entered: the offset cancels out.
pub proof fn lemma_offset_round_trip(p: u32, use_offset: bool, offset: u32)
    ensures
        p + offset <= u32::MAX ==> (spec_displayed(p, false, use_offset, offset) matches PurgeValue::Exact(
            q,
        ) && spec_stored(q, false, use_offset, offset) == PurgeValue::Exact(p)),
        p >= offset ==> (spec_stored(p, false, use_offset, offset) matches PurgeValue::Exact(q)
            && spec_displayed(q, false, use_offset, offset) == PurgeValue::Exact(p)),
{
}

/// The purge table of one filament: for each filament it purges into, that filament's
/// id, the purge value into it and the purge value back, `999` where there is none back.
pub open spec fn spec_combined(froms: Seq<(u32, u32)>, backs: Seq<Option<u32>>) -> Seq<
    (u32, (u32, u32)),
> {
    Seq::new(
        froms.len(),
        |i: int|
            (
                froms[i].0,
                (
                    froms[i].1,
                    match backs[i] {
                        Some(b) => b,
                        None => MISSING_PURGE,
                    },
                ),
            ),
    )
}

/// Each row of the purge table is made of its own entry alone: the filament id and the
/// value into it, with the value back where there is one and `999` exactly where there
/// is none; no other row bears on it, so the table of one row is that row.
pub proof fn lemma_combined_rows(froms: Seq<(u32, u32)>, backs: Seq<Option<u32>>)
    requires
        froms.len() == backs.len(),
    ensures
        spec_combined(froms, backs).len() == froms.len(),
        forall|i: int|
            0 <= i < froms.len() ==> {
                let r = #[trigger] spec_combined(froms, backs)[i];
                &&& r.0 == froms[i].0
                &&& r.1.0 == froms[i].1
                &&& (backs[i] matches Some(b) ==> r.1.1 == b)
                &&& (backs[i] is None ==> r.1.1 == MISSING_PURGE)
                &&& r == spec_combined(seq![froms[i]], seq![backs[i]])[0]
            },
{
}

/// Pairs the purge values out of a filament with the ones back into it.
pub fn combine_purges(froms: &Vec<(u32, u32)>, backs: &Vec<Option<u32>>) -> (out: Vec<
    (u32, (u32, u32)),
>)
    requires
        froms@.len() == backs@.len(),
    ensures
        out@ == spec_combined(froms@, backs@),
        out@.len() == froms@.len(),
        forall|i: int|
            0 <= i < froms@.len() ==> (#[trigger] out@[i]).0 == froms@[i].0 && out@[i].1.0
                == froms@[i].1 && (backs@[i] matches Some(b) ==> out@[i].1.1 == b) && (backs@[i] is None
                ==> out@[i].1.1 == MISSING_PURGE),
{
    proof {
        lemma_combined_rows(froms@, backs@);
    }
    let mut out: Vec<(u32, (u32, u32))> = Vec::new();
    for i in 0..froms.len()
        invariant
            froms@.len() == backs@.len(),
            out@ == spec_combined(froms@, backs@).subrange(0, i as int),
    {
        let (to_id, p_to) = froms[i];
        let p_from = match backs[i] {
            Some(b) => b,
            None => MISSING_PURGE,
        };
        out.push((to_id, (p_to, p_from)));
        assert(out@ =~= spec_combined(froms@, backs@).subrange(0, i + 1));
    }
    assert(out@ =~= spec_combined(froms@, backs@));
    out
}

/// The id of the last row of the given color.
pub open spec fn last_with_color(rows: Seq<(u32, Seq<char>)>, color: Seq<char>) -> Option<u32>
    decreases rows.len(),
{
    if rows.len() == 0 {
        None
    } else if rows.last().1 == color {
        Some(rows.last().0)
    } else {
        last_with_color(rows.drop_last(), color)
    }
}

/// `res` is what the rows give for a color: the id of the row of that color with the
/// largest index, or none exactly when no row has that color.
pub open spec fn is_last_with(rows: Seq<(u32, Seq<char>)>, color: Seq<char>, res: Option<u32>) -> bool {
    match res {
        Some(id) => exists|i: int|
            0 <= i < rows.len() && #[trigger] rows[i] == (id, color) && forall|j: int|
                i < j < rows.len() ==> (#[trigger] rows[j]).1 != color,
        None => forall|i: int| 0 <= i < rows.len() ==> (#[trigger] rows[i]).1 != color,
    }
}

/// The default filament of a color is the one on the last row of that color: a row of
/// that color with no later row of it, and none only when no row has the color. In
/// particular a table whose last row has the color gives that row's id.
pub proof fn lemma_last_with_color(rows: Seq<(u32, Seq<char>)>, color: Seq<char>)
    ensures
        is_last_with(rows, color, last_with_color(rows, color)),
        rows.len() > 0 && rows.last().1 == color ==> last_with_color(rows, color) == Some(
            rows.last().0,
        ),
    decreases rows.len(),
{
    if rows.len() > 0 {
        let rest = rows.drop_last();
        lemma_last_with_color(rest, color);
        let n = rows.len() - 1;
        if rows.last().1 == color {
            assert(rows[n] == (rows.last().0, color));
        } else {
            match last_with_color(rest, color) {
                Some(id) => {
                    let i = choose|i: int|
                        0 <= i < rest.len() && #[trigger] rest[i] == (id, color) && forall|j: int|
                            i < j < rest.len() ==> (#[trigger] rest[j]).1 != color;
                    assert(rows[i] == (id, color));
                    assert forall|j: int| i < j < rows.len() implies (#[trigger] rows[j]).1 != color by {
                        if j < n {
                            assert(rest[j] == rows[j]);
                        }
                    }
                },
                None => {
                    assert forall|i: int| 0 <= i < rows.len() implies (#[trigger] rows[i]).1 != color by {
                        if i < n {
                            assert(rest[i] == rows[i]);
                        }
                    }
                },
            }
        }
    }
}

/// The view of rows of the default filament table.
pub open spec fn rows_view(rows: Seq<(u32, String)>) -> Seq<(u32, Seq<char>)> {
    rows.map_values(|r: (u32, String)| (r.0, r.1@))
}

/// The default black and the default white filament: of the rows of the default
/// filament table, the id of the last one marked `black` and of the last one marked
/// `white`.
pub fn pick_default_black_white(rows: &Vec<(u32, String)>) -> (res: (Option<u32>, Option<u32>))
    ensures
        res.0 == last_with_color(rows_view(rows@), "black"@),
        res.1 == last_with_color(rows_view(rows@), "white"@),
        is_last_with(rows_view(rows@), "black"@, res.0),
        is_last_with(rows_view(rows@), "white"@, res.1),
{
    proof {
        lemma_last_with_color(rows_view(rows@), "black"@);
        lemma_last_with_color(rows_view(rows@), "white"@);
    }
    let black = String::from_str("black");
    let white = String::from_str("white");
    let mut out_b: Option<u32> = None;
    let mut out_w: Option<u32> = None;
    let ghost rv = rows_view(rows@);
    for i in 0..rows.len()
        invariant
            rv == rows_view(rows@),
            black@ == "black"@,
            white@ == "white"@,
            out_b == last_with_color(rv.subrange(0, i as int), "black"@),
            out_w == last_with_color(rv.subrange(0, i as int), "white"@),
    {
        let x = rows[i].0;
        proof {
            reveal_strlit("black");
            reveal_strlit("white");
            let sub = rv.subrange(0, i + 1);
            assert(sub.drop_last() =~= rv.subrange(0, i as int));
            assert(sub.last() == (rows@[i as int].0, rows@[i as int].1@));
            assert("black"@[0] != "white"@[0]);
        }
        if rows[i].1 == black {
            out_b = Some(x);
        } else if rows[i].1 == white {
            out_w = Some(x);
        }
    }
    assert(rv.subrange(0, rows@.len() as int) =~= rv);
    (out_b, out_w)
}

/// How long cached data stays fresh, in nanoseconds: thirty seconds.
pub const CACHE_NANOS: u128 = 30_000_000_000;

/// Whether cached data must be fetched again: marked stale, or older than thirty seconds.
pub fn is_stale(stale: bool, elapsed_nanos: u128) -> (res: bool)
    ensures
        res == (stale || elapsed_nanos > CACHE_NANOS),
{
    stale || elapsed_nanos > CACHE_NANOS
}

/// The number sent for a cell: its purge value, or `999` where there is none.
pub open spec fn cell_number(v: Option<u32>) -> u32 {
    match v {
        Some(v) => v,
        None => MISSING_PURGE,
    }
}

/// The steps of one tab with its pause.
pub open spec fn tab_steps() -> Seq<KeyStep> {
    press(KEY_TAB) + seq![KeyStep::Pause(DELAY)]
}

/// The steps for the first `k` cells of row `from`: each cell but the diagonal one gets
/// its number followed by a tab.
pub open spec fn row_steps(n: nat, values: Seq<Option<u32>>, from: nat, k: nat) -> Seq<KeyStep>
    decreases k,
{
    if k == 0 {
        Seq::empty()
    } else {
        row_steps(n, values, from, (k - 1) as nat) + if (k - 1) as nat == from {
            Seq::empty()
        } else {
            press_all(number_keys(cell_number(values[(from * n + (k - 1)) as int]), true))
        }
    }
}

/// The steps for the first `rows` rows: each row's cells, then a tab for each of the
/// `4 - n` columns the purge window has beyond the grid, then one more tab.
pub open spec fn grid_steps(n: nat, values: Seq<Option<u32>>, rows: nat) -> Seq<KeyStep>
    decreases rows,
{
    if rows == 0 {
        Seq::empty()
    } else {
        grid_steps(n, values, (rows - 1) as nat) + row_steps(n, values, (rows - 1) as nat, n)
            + repeat(tab_steps(), (4 - n) as nat) + tab_steps()
    }
}

/// The key steps that type the purge values of an `n`-filament grid into a purge window
/// of four filaments, row by row. `values[from * n + to]` is the value from filament
/// `from` to filament `to`, `None` where there is none.
pub fn send_purge_keys(n: usize, values: &Vec<Option<u32>>) -> (steps: Vec<KeyStep>)
    requires
        n <= 4,
        values@.len() == n * n,
    ensures
        steps@ == grid_steps(n as nat, values@, n as nat),
{
    let mut steps: Vec<KeyStep> = Vec::new();
    for from in 0..n
        invariant
            n <= 4,
            values@.len() == n * n,
            steps@ == grid_steps(n as nat, values@, from as nat),
    {
        let ghost before_row = steps@;
        for to in 0..n
            invariant
                n <= 4,
                from < n,
                values@.len() == n * n,
                steps@ == before_row + row_steps(n as nat, values@, from as nat, to as nat),
        {
            if from != to {
                assert(from * n + to < n * n && n * n <= 16) by (nonlinear_arith)
                    requires
                        from < n,
                        to < n,
                        n <= 4,
                ;
                let v = match values[from * n + to] {
                    Some(v) => v,
                    None => MISSING_PURGE,
                };
                let keys = send_number(v, true);
                let mut k = keys;
                steps.append(&mut k);
            }
            assert(steps@ =~= before_row + row_steps(n as nat, values@, from as nat, (to + 1) as nat));
        }
        let ghost after_cells = steps@;
        for j in 0..(4 - n)
            invariant
                steps@ == after_cells + repeat(tab_steps(), j as nat),
        {
            let mut t = tab();
            steps.append(&mut t);
            assert(steps@ =~= after_cells + repeat(tab_steps(), (j + 1) as nat));
        }
        let mut t = tab();
        steps.append(&mut t);
        assert(steps@ =~= grid_steps(n as nat, values@, (from + 1) as nat));
    }
    steps
}

} // verus!
