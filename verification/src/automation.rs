use vstd::prelude::*;

verus! {

/// The integer square root: the largest `r` with `r * r <= n`.
pub open spec fn spec_isqrt(n: nat) -> nat
    decreases n,
{
    if n == 0 {
        0
    } else {
        let r = spec_isqrt((n - 1) as nat);
        if (r + 1) * (r + 1) <= n {
            r + 1
        } else {
            r
        }
    }
}

proof fn lemma_isqrt_bounds(n: nat)
    ensures
        spec_isqrt(n) * spec_isqrt(n) <= n < (spec_isqrt(n) + 1) * (spec_isqrt(n) + 1),
    decreases n,
{
    if n > 0 {
        lemma_isqrt_bounds((n - 1) as nat);
        let r = spec_isqrt((n - 1) as nat);
        let s = spec_isqrt(n);
        if (r + 1) * (r + 1) > n {
            assert(s == r);
            assert(s * s <= n);
            assert(n < (s + 1) * (s + 1));
        } else {
            assert(s == r + 1);
            assert((r + 1) * (r + 1) == n);
            assert(n < (s + 1) * (s + 1)) by (nonlinear_arith)
                requires
                    s * s == n,
                    s >= 1,
            ;
            assert(s * s <= n);
        }
    } else {
        assert(spec_isqrt(n) == 0);
        let z = spec_isqrt(n);
        assert(z * z <= n < (z + 1) * (z + 1)) by (nonlinear_arith)
            requires
                z == 0,
                n == 0,
        ;
    }
}

proof fn lemma_isqrt_unique(n: nat, r: nat)
    requires
        r * r <= n < (r + 1) * (r + 1),
    ensures
        r == spec_isqrt(n),
{
    lemma_isqrt_bounds(n);
    let s = spec_isqrt(n);
    if r < s {
        assert((r + 1) * (r + 1) <= s * s) by (nonlinear_arith)
            requires
                r + 1 <= s,
        ;
    } else if r > s {
        assert((s + 1) * (s + 1) <= r * r) by (nonlinear_arith)
            requires
                s + 1 <= r,
        ;
    }
}

/// The integer square root of a count: the side of the largest square grid it fills.
pub fn isqrt(n: usize) -> (r: usize)
    ensures
        r == spec_isqrt(n as nat),
        r * r <= n < (r + 1) * (r + 1),
        r < usize::MAX,
        n >= 1 ==> r >= 1,
{
    let mut r: usize = 0;
    while r < n && r + 1 <= n / (r + 1)
        invariant
            r * r <= n,
            r <= n,
        decreases n - r,
    {
        assert((r + 1) * (r + 1) <= n) by (nonlinear_arith)
            requires
                r + 1 <= n as int / (r + 1),
                r + 1 > 0,
        ;
        assert(r + 1 <= n) by (nonlinear_arith)
            requires
                (r + 1) * (r + 1) <= n,
        ;
        r = r + 1;
    }
    if r < n {
        assert(n < (r + 1) * (r + 1)) by (nonlinear_arith)
            requires
                r + 1 > n as int / (r + 1),
                r + 1 > 0,
        ;
    } else {
        assert(n < (r + 1) * (r + 1)) by (nonlinear_arith)
            requires
                r >= n,
                r * r <= n,
        ;
    }
    assert(r < usize::MAX) by (nonlinear_arith)
        requires
            r * r <= n,
            n <= usize::MAX,
    ;
    assert(n >= 1 ==> r >= 1) by (nonlinear_arith)
        requires
            n < (r + 1) * (r + 1),
    ;
    proof {
        lemma_isqrt_unique(n as nat, r as nat);
    }
    r
}

/// The index of the cell at `row`, `col` of a grid stored row by row.
pub fn get_cell_index(grid_size: usize, row: usize, col: usize) -> (res: usize)
    requires
        row * grid_size + col <= usize::MAX,
    ensures
        res == row * grid_size + col,
{
    row * grid_size + col
}

/// The side of the grid of purge cells that a purge window shows: the square root of the
/// number of its value controls but the last, which is the multiplier.
pub open spec fn window_grid(num_controls: nat) -> nat {
    spec_isqrt((num_controls - 1) as nat)
}

/// The side of the part of the grid that the purge values fill: one more than the
/// square root of their number.
pub open spec fn filled_grid(num_vals: nat) -> nat {
    spec_isqrt(num_vals) + 1
}

/// Whether the values fit an OrcaSlicer purge window: a grid of side one or more, as
/// many rows and columns as the values need.
pub open spec fn orca_fits(num_controls: nat, num_vals: nat) -> bool {
    let g = window_grid(num_controls);
    &&& num_controls >= 2
    &&& g >= 1
    &&& filled_grid(num_vals) <= g
    &&& filled_grid(num_vals) <= num_controls / g
}

/// The controls of an OrcaSlicer purge window in the order the values go into them: row
/// by row, each row from its last column back.
pub open spec fn spec_orca_cells(num_controls: nat, num_vals: nat) -> Seq<usize> {
    let g = window_grid(num_controls);
    let k = filled_grid(num_vals);
    Seq::new(k * k, |i: int| ((i / k as int) * g + (g - 1 - i % k as int)) as usize)
}

/// The controls of an OrcaSlicer purge window that receive the values, in order.
pub fn orca_cells(num_controls: usize, num_vals: usize) -> (cells: Vec<usize>)
    requires
        orca_fits(num_controls as nat, num_vals as nat),
    ensures
        cells@ == spec_orca_cells(num_controls as nat, num_vals as nat),
        forall|i: int| 0 <= i < cells@.len() ==> #[trigger] cells@[i] < num_controls,
{
    let g = isqrt(num_controls - 1);
    let k = isqrt(num_vals) + 1;
    let ghost spec_cells = spec_orca_cells(num_controls as nat, num_vals as nat);
    assert(k * g <= num_controls) by (nonlinear_arith)
        requires
            k <= num_controls / g,
            g >= 1,
    ;
    assert(k * k <= k * g) by (nonlinear_arith)
        requires
            k <= g,
    ;
    let mut cells: Vec<usize> = Vec::new();
    assert(0 * k == 0);
    for row in 0..k
        invariant
            g == window_grid(num_controls as nat),
            k == filled_grid(num_vals as nat),
            1 <= k <= g,
            k * g <= num_controls,
            row * k <= k * k,
            spec_cells.len() == k * k,
            spec_cells == spec_orca_cells(num_controls as nat, num_vals as nat),
            cells@ == spec_cells.subrange(0, (row * k) as int),
            forall|i: int| 0 <= i < cells@.len() ==> #[trigger] cells@[i] < num_controls,
    {
        for col in 0..k
            invariant
                g == window_grid(num_controls as nat),
                k == filled_grid(num_vals as nat),
                1 <= k <= g,
                k * g <= num_controls,
                row < k,
                row * k + col <= k * k,
                spec_cells.len() == k * k,
                spec_cells == spec_orca_cells(num_controls as nat, num_vals as nat),
                cells@ == spec_cells.subrange(0, (row * k + col) as int),
                forall|i: int| 0 <= i < cells@.len() ==> #[trigger] cells@[i] < num_controls,
        {
            assert(row * g + (g - 1 - col) < num_controls) by (nonlinear_arith)
                requires
                    row < k,
                    col < k,
                    k <= g,
                    k * g <= num_controls,
            ;
            let idx = row * g + (g - 1 - col);
            cells.push(idx);
            proof {
                let i = (row * k + col) as int;
                assert(i / k as int == row as int && i % k as int == col as int) by (nonlinear_arith)
                    requires
                        i == row * k + col,
                        col < k,
                ;
                assert(row * k + col + 1 <= k * k) by (nonlinear_arith)
                    requires
                        row < k,
                        col < k,
                ;
                assert(cells@ =~= spec_cells.subrange(0, (row * k + col + 1) as int));
            }
        }
        assert(row * k + k == (row + 1) * k && (row + 1) * k <= k * k) by (nonlinear_arith)
            requires
                row < k,
        ;
    }
    assert(cells@ =~= spec_cells);
    cells
}

/// Whether the values fit a BambuStudio purge window: at least one cell besides the
/// multiplier.
pub open spec fn bambu_fits(num_controls: nat) -> bool {
    num_controls >= 2
}

/// Whether control `i` of a BambuStudio purge window receives a value: its row and column
/// of the window's grid both fall within the part the values fill.
pub open spec fn bambu_in_grid(i: nat, num_controls: nat, num_vals: nat) -> bool {
    let g = window_grid(num_controls);
    let k = filled_grid(num_vals);
    i % g < k && i / g < k
}

/// The controls among the first `count` that receive values, in order.
pub open spec fn spec_bambu_cells(count: nat, num_controls: nat, num_vals: nat) -> Seq<usize>
    decreases count,
{
    if count == 0 {
        Seq::empty()
    } else {
        let rest = spec_bambu_cells((count - 1) as nat, num_controls, num_vals);
        if bambu_in_grid((count - 1) as nat, num_controls, num_vals) {
            rest.push((count - 1) as usize)
        } else {
            rest
        }
    }
}

/// The controls of a BambuStudio purge window that receive the values, in order: every
/// control, the multiplier too, whose grid position falls within the filled part.
pub fn bambu_cells(num_controls: usize, num_vals: usize) -> (cells: Vec<usize>)
    requires
        bambu_fits(num_controls as nat),
    ensures
        cells@ == spec_bambu_cells(num_controls as nat, num_controls as nat, num_vals as nat),
        forall|i: int| 0 <= i < cells@.len() ==> #[trigger] cells@[i] < num_controls,
{
    let g = isqrt(num_controls - 1);
    let k = isqrt(num_vals) + 1;
    let mut cells: Vec<usize> = Vec::new();
    for i in 0..num_controls
        invariant
            g == window_grid(num_controls as nat),
            k == filled_grid(num_vals as nat),
            g >= 1,
            cells@ == spec_bambu_cells(i as nat, num_controls as nat, num_vals as nat),
            forall|j: int| 0 <= j < cells@.len() ==> #[trigger] cells@[j] < i,
    {
        let row = i / g;
        let col = i % g;
        if !(col >= k || row >= k) {
            cells.push(i);
        }
    }
    cells
}

/// The cells that can be written, in order.
pub open spec fn writable(cells: Seq<usize>, readonly: Seq<bool>) -> Seq<usize>
    decreases cells.len(),
{
    if cells.len() == 0 {
        Seq::empty()
    } else {
        let rest = writable(cells.drop_last(), readonly.take(cells.len() - 1));
        if readonly[cells.len() - 1] {
            rest
        } else {
            rest.push(cells.last())
        }
    }
}

/// The writes that fill the writable cells with the values in order, as far as the
/// values reach.
pub open spec fn spec_writes(cells: Seq<usize>, readonly: Seq<bool>, vals: Seq<u32>) -> Seq<
    (usize, u32),
> {
    let w = writable(cells, readonly);
    let n = if w.len() <= vals.len() { w.len() } else { vals.len() };
    Seq::new(n, |i: int| (w[i], vals[i]))
}

proof fn lemma_writable_take(cells: Seq<usize>, readonly: Seq<bool>, k: int)
    requires
        0 <= k < cells.len(),
        readonly.len() == cells.len(),
    ensures
        writable(cells.take(k + 1), readonly.take(k + 1)) == if readonly[k] {
            writable(cells.take(k), readonly.take(k))
        } else {
            writable(cells.take(k), readonly.take(k)).push(cells[k])
        },
{
    assert(cells.take(k + 1).drop_last() =~= cells.take(k));
    assert(readonly.take(k + 1).take(k) =~= readonly.take(k));
}

/// Pairs the writable cells with the values, in order. `readonly[k]` tells whether
/// `cells[k]` is read-only. The flag is false when the values ran out before the
/// writable cells did.
pub fn assign_values(cells: &Vec<usize>, readonly: &Vec<bool>, vals: &Vec<u32>) -> (res: (
    Vec<(usize, u32)>,
    bool,
))
    requires
        readonly@.len() == cells@.len(),
    ensures
        res.0@ == spec_writes(cells@, readonly@, vals@),
        res.1 <==> writable(cells@, readonly@).len() <= vals@.len(),
{
    let mut out: Vec<(usize, u32)> = Vec::new();
    let mut complete = true;
    let ghost mut w: Seq<usize> = Seq::empty();
    for k in 0..cells.len()
        invariant
            readonly@.len() == cells@.len(),
            w == writable(cells@.take(k as int), readonly@.take(k as int)),
            complete <==> w.len() <= vals@.len(),
            out@ == Seq::new(
                if w.len() <= vals@.len() { w.len() } else { vals@.len() },
                |i: int| (w[i], vals@[i]),
            ),
    {
        proof {
            lemma_writable_take(cells@, readonly@, k as int);
        }
        if !readonly[k] {
            let used = out.len();
            if complete && used < vals.len() {
                out.push((cells[k], vals[used]));
            } else {
                complete = false;
            }
            proof {
                w = w.push(cells@[k as int]);
            }
        }
        assert(out@ =~= Seq::new(
            if w.len() <= vals@.len() { w.len() } else { vals@.len() },
            |i: int| (w[i], vals@[i]),
        ));
    }
    assert(cells@.take(cells@.len() as int) =~= cells@);
    assert(readonly@.take(cells@.len() as int) =~= readonly@);
    (out, complete)
}

/// The read-only flags of the given controls, `readonly[c]` being the flag of control `c`.
pub open spec fn flags_at(cells: Seq<usize>, readonly: Seq<bool>) -> Seq<bool> {
    cells.map_values(|c: usize| readonly[c as int])
}

fn cell_flags(cells: &Vec<usize>, readonly: &Vec<bool>) -> (flags: Vec<bool>)
    requires
        forall|i: int| 0 <= i < cells@.len() ==> #[trigger] cells@[i] < readonly@.len(),
    ensures
        flags@ == flags_at(cells@, readonly@),
{
    let mut flags: Vec<bool> = Vec::new();
    for i in 0..cells.len()
        invariant
            forall|j: int| 0 <= j < cells@.len() ==> #[trigger] cells@[j] < readonly@.len(),
            flags@ == flags_at(cells@, readonly@).subrange(0, i as int),
    {
        flags.push(readonly[cells[i]]);
        assert(flags@ =~= flags_at(cells@, readonly@).subrange(0, i + 1));
    }
    assert(flags@ =~= flags_at(cells@, readonly@));
    flags
}

/// The writes that send the purge values into an OrcaSlicer purge window of
/// `num_controls` edit controls, `readonly[c]` telling whether control `c` is read-only:
/// the writable controls of the filled grid, row by row from the last column back, each
/// with the next value. The flag is false when the values ran out before the writable
/// controls did.
pub fn send_purge_values_orca(num_controls: usize, readonly: &Vec<bool>, vals: &Vec<u32>) -> (res: (
    Vec<(usize, u32)>,
    bool,
))
    requires
        orca_fits(num_controls as nat, vals@.len() as nat),
        readonly@.len() == num_controls,
    ensures
        ({
            let cells = spec_orca_cells(num_controls as nat, vals@.len() as nat);
            &&& res.0@ == spec_writes(cells, flags_at(cells, readonly@), vals@)
            &&& res.1 <==> writable(cells, flags_at(cells, readonly@)).len() <= vals@.len()
        }),
{
    let cells = orca_cells(num_controls, vals.len());
    let flags = cell_flags(&cells, readonly);
    assign_values(&cells, &flags, vals)
}

/// The value the multiplier control of a BambuStudio purge window is set to before the
/// cells are filled: one, written as `1`.
pub const BAMBU_MULTIPLIER: u32 = 1;

/// The writes that send the purge values into a BambuStudio purge window of
/// `num_controls` spinner controls, `readonly[c]` telling whether control `c` is
/// read-only: first the multiplier control, the last one, set to one; then the writable
/// controls whose grid position falls within the filled grid, in order, each with the
/// next value. The flag is false when the values ran out before the writable controls
/// did.
pub fn send_purge_values_bambu(num_controls: usize, readonly: &Vec<bool>, vals: &Vec<u32>) -> (res: (
    Vec<(usize, u32)>,
    bool,
))
    requires
        bambu_fits(num_controls as nat),
        readonly@.len() == num_controls,
    ensures
        ({
            let cells = spec_bambu_cells(num_controls as nat, num_controls as nat, vals@.len() as nat);
            &&& res.0@ == seq![((num_controls - 1) as usize, BAMBU_MULTIPLIER)] + spec_writes(
                cells,
                flags_at(cells, readonly@),
                vals@,
            )
            &&& res.1 <==> writable(cells, flags_at(cells, readonly@)).len() <= vals@.len()
        }),
{
    let cells = bambu_cells(num_controls, vals.len());
    let flags = cell_flags(&cells, readonly);
    let (mut cell_writes, complete) = assign_values(&cells, &flags, vals);
    let mut writes: Vec<(usize, u32)> = Vec::new();
    writes.push((num_controls - 1, BAMBU_MULTIPLIER));
    writes.append(&mut cell_writes);
    (writes, complete)
}

/// The two extruders of a BambuStudio printer.
#[derive(Debug, Clone, Copy, PartialEq, Eq, Structural)]
pub enum Extruder {
    Left,
    Right,
}

/// What switching the extruder box to an extruder takes.
#[derive(Debug, Clone, Copy, PartialEq, Eq, Structural)]
pub enum ExtruderMove {
    /// The box shows that extruder already.
    Stay,
    /// Press the up key in the box.
    Up,
    /// Press the down key in the box.
    Down,
    /// The box shows neither extruder.
    Unexpected,
}

/// The text the extruder box shows for an extruder.
pub open spec fn extruder_text(e: Extruder) -> Seq<char> {
    match e {
        Extruder::Left => "Left extruder"@,
        Extruder::Right => "Right extruder"@,
    }
}

/// The move that switches an extruder box showing `current` to `target`.
pub open spec fn spec_extruder_move(current: Seq<char>, target: Extruder) -> ExtruderMove {
    match target {
        Extruder::Left => if current == "Left extruder"@ {
            ExtruderMove::Stay
        } else if current == "Right extruder"@ {
            ExtruderMove::Up
        } else {
            ExtruderMove::Unexpected
        },
        Extruder::Right => if current == "Right extruder"@ {
            ExtruderMove::Stay
        } else if current == "Left extruder"@ {
            ExtruderMove::Down
        } else {
            ExtruderMove::Unexpected
        },
    }
}

/// The move that switches an extruder box showing `current` to `target`: the left
/// extruder is above the right one.
pub fn extruder_move(current: &str, target: Extruder) -> (res: ExtruderMove)
    ensures
        res == spec_extruder_move(current@, target),
{
    let v = String::from_str(current);
    let left = String::from_str("Left extruder");
    let right = String::from_str("Right extruder");
    match target {
        Extruder::Left => {
            if v == left {
                ExtruderMove::Stay
            } else if v == right {
                ExtruderMove::Up
            } else {
                ExtruderMove::Unexpected
            }
        },
        Extruder::Right => {
            if v == right {
                ExtruderMove::Stay
            } else if v == left {
                ExtruderMove::Down
            } else {
                ExtruderMove::Unexpected
            }
        },
    }
}

/// Whether a child window of the OrcaSlicer purge window is its OK button: class
/// `wxWindowNR`, caption `OK`.
pub fn is_orca_ok_button(class_name: &str, caption: &str) -> (res: bool)
    ensures
        res == (class_name@ == "wxWindowNR"@ && caption@ == "OK"@),
{
    let class = String::from_str(class_name);
    let text = String::from_str(caption);
    class == String::from_str("wxWindowNR") && text == String::from_str("OK")
}

/// One step of filling a BambuStudio purge window.
#[derive(Debug, Clone, Copy, PartialEq, Eq, Structural)]
pub enum BambuStep {
    /// Switch the extruder box to this extruder, as `extruder_move` says; a box that
    /// shows neither extruder ends the run with an error.
    Select(Extruder),
    /// Fill the window's grid as `send_purge_values_bambu` plans it.
    Fill,
}

/// The steps of filling a BambuStudio purge window.
pub open spec fn spec_bambu_steps(both: bool) -> Seq<BambuStep> {
    if both {
        seq![
            BambuStep::Select(Extruder::Left),
            BambuStep::Fill,
            BambuStep::Select(Extruder::Right),
            BambuStep::Fill,
        ]
    } else {
        seq![BambuStep::Fill]
    }
}

/// The steps of filling a BambuStudio purge window: for both extruders, select the left
/// one, fill, select the right one and fill again; else fill once, without touching the
/// extruder box.
pub fn bambu_steps(both: bool) -> (steps: Vec<BambuStep>)
    ensures
        steps@ == spec_bambu_steps(both),
{
    let mut steps: Vec<BambuStep> = Vec::new();
    if both {
        steps.push(BambuStep::Select(Extruder::Left));
        steps.push(BambuStep::Fill);
        steps.push(BambuStep::Select(Extruder::Right));
        steps.push(BambuStep::Fill);
    } else {
        steps.push(BambuStep::Fill);
    }
    assert(steps@ =~= spec_bambu_steps(both));
    steps
}

/// What running steps does to an extruder box that first shows `shown`, where the up key
/// selects the left extruder and the down key the right one (the left one is above): the
/// moves made, in order, and the number of fills done. The run stops at a move that finds
/// neither extruder shown, which is the last move.
pub open spec fn run_steps(steps: Seq<BambuStep>, shown: Seq<char>) -> (Seq<ExtruderMove>, nat)
    decreases steps.len(),
{
    if steps.len() == 0 {
        (Seq::empty(), 0)
    } else {
        match steps[0] {
            BambuStep::Fill => {
                let rest = run_steps(steps.drop_first(), shown);
                (rest.0, rest.1 + 1)
            },
            BambuStep::Select(e) => {
                let m = spec_extruder_move(shown, e);
                if m == ExtruderMove::Unexpected {
                    (seq![m], 0)
                } else {
                    let rest = run_steps(steps.drop_first(), extruder_text(e));
                    (seq![m] + rest.0, rest.1)
                }
            },
        }
    }
}

/// A run for both extruders fills twice, pressing up and then down when the box shows
/// the right extruder, and only down when it shows the left one; when it shows neither,
/// the run stops before any fill. A run for one extruder fills once and makes no move.
pub proof fn lemma_bambu_run(shown: Seq<char>)
    ensures
        run_steps(spec_bambu_steps(false), shown) == (Seq::<ExtruderMove>::empty(), 1nat),
        shown == "Right extruder"@ ==> run_steps(spec_bambu_steps(true), shown) == (
            seq![ExtruderMove::Up, ExtruderMove::Down],
            2nat,
        ),
        shown == "Left extruder"@ ==> run_steps(spec_bambu_steps(true), shown) == (
            seq![ExtruderMove::Stay, ExtruderMove::Down],
            2nat,
        ),
        (shown != "Left extruder"@ && shown != "Right extruder"@) ==> run_steps(
            spec_bambu_steps(true),
            shown,
        ) == (seq![ExtruderMove::Unexpected], 0nat),
{
    reveal_strlit("Left extruder");
    reveal_strlit("Right extruder");
    assert("Left extruder"@ != "Right extruder"@) by {
        assert("Left extruder"@[0] != "Right extruder"@[0]);
    }
    let one = spec_bambu_steps(false);
    assert(one.drop_first() =~= Seq::<BambuStep>::empty());
    assert(run_steps(one.drop_first(), shown).0 =~= Seq::<ExtruderMove>::empty());
    assert(run_steps(one, shown).0 =~= Seq::<ExtruderMove>::empty());
    let t = spec_bambu_steps(true);
    let t1 = t.drop_first();
    let t2 = t1.drop_first();
    let t3 = t2.drop_first();
    assert(t1 =~= seq![BambuStep::Fill, BambuStep::Select(Extruder::Right), BambuStep::Fill]);
    assert(t2 =~= seq![BambuStep::Select(Extruder::Right), BambuStep::Fill]);
    assert(t3 =~= seq![BambuStep::Fill]);
    assert(t3.drop_first() =~= Seq::<BambuStep>::empty());
    let r3 = run_steps(t3, "Right extruder"@);
    assert(run_steps(t3.drop_first(), "Right extruder"@).0 =~= Seq::<ExtruderMove>::empty());
    assert(r3.0 =~= Seq::<ExtruderMove>::empty());
    assert(r3.1 == 1);
    let r2 = run_steps(t2, "Left extruder"@);
    assert(r2.0 =~= seq![ExtruderMove::Down]);
    assert(r2.1 == 1);
    let r1 = run_steps(t1, "Left extruder"@);
    assert(r1.0 == r2.0);
    assert(r1.1 == 2);
    if shown == "Right extruder"@ {
        assert(run_steps(t, shown).0 =~= seq![ExtruderMove::Up, ExtruderMove::Down]);
    }
    if shown == "Left extruder"@ {
        assert(run_steps(t, shown).0 =~= seq![ExtruderMove::Stay, ExtruderMove::Down]);
    }
    if shown != "Left extruder"@ && shown != "Right extruder"@ {
        assert(run_steps(t, shown).0 =~= seq![ExtruderMove::Unexpected]);
    }
}

} // verus!
