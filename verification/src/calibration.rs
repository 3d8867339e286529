use vstd::prelude::*;

use crate::filament::{FilamentMap, FilamentView};
use crate::history::SortOrder;
use crate::picker::{FilamentPicker, choice_id};

verus! {

/// A row of the calibration table: the other filament's id, the purge value into it and
/// the purge value back.
pub type CalibrationRow = (u32, (u32, u32));

/// The three-way comparison of two numbers: `-1`, `0` or `1`.
pub open spec fn order_num(a: u32, b: u32) -> int {
    if a < b {
        -1
    } else if a > b {
        1
    } else {
        0
    }
}

/// The lexicographic comparison of two texts by character code: `-1`, `0` or `1`. This is
/// the order of Rust's `String`, whose byte order agrees with the order of code points.
pub open spec fn lex_order(a: Seq<char>, b: Seq<char>) -> int
    decreases a.len(),
{
    if a.len() == 0 && b.len() == 0 {
        0
    } else if a.len() == 0 {
        -1
    } else if b.len() == 0 {
        1
    } else if (a[0] as u32) < (b[0] as u32) {
        -1
    } else if (a[0] as u32) > (b[0] as u32) {
        1
    } else {
        lex_order(a.drop_first(), b.drop_first())
    }
}

proof fn lemma_lex_antisym(a: Seq<char>, b: Seq<char>)
    ensures
        lex_order(a, b) == -lex_order(b, a),
        -1 <= lex_order(a, b) <= 1,
    decreases a.len(),
{
    if a.len() > 0 && b.len() > 0 && a[0] as u32 == b[0] as u32 {
        lemma_lex_antisym(a.drop_first(), b.drop_first());
    }
}

proof fn lemma_lex_trans(a: Seq<char>, b: Seq<char>, c: Seq<char>)
    requires
        lex_order(a, b) <= 0,
        lex_order(b, c) <= 0,
    ensures
        lex_order(a, c) <= 0,
    decreases a.len(),
{
    if a.len() > 0 && b.len() > 0 && c.len() > 0 && a[0] as u32 == b[0] as u32 && b[0] as u32
        == c[0] as u32 {
        lemma_lex_trans(a.drop_first(), b.drop_first(), c.drop_first());
    }
}

/// The name of a row's filament, if the map has it.
pub open spec fn row_name(r: CalibrationRow, m: Map<u32, FilamentView>) -> Option<Seq<char>> {
    if m.contains_key(r.0) {
        Some(m[r.0].name)
    } else {
        None
    }
}

/// The comparison of two rows by filament name: named rows first, names in the given
/// direction, rows without a name by id in the given direction.
pub open spec fn order_by_name(a: CalibrationRow, b: CalibrationRow, m: Map<u32, FilamentView>, descending: bool) -> int {
    match (row_name(a, m), row_name(b, m)) {
        (Some(na), Some(nb)) => if descending {
            lex_order(nb, na)
        } else {
            lex_order(na, nb)
        },
        (Some(_), None) => -1,
        (None, Some(_)) => 1,
        (None, None) => if descending {
            order_num(b.0, a.0)
        } else {
            order_num(a.0, b.0)
        },
    }
}

/// The comparison of two rows under a table sort: column 0 by name, column 1 by the
/// purge value into the filament, column 2 by the value back; `0` for any other sort.
pub open spec fn order_rows(
    a: CalibrationRow,
    b: CalibrationRow,
    m: Map<u32, FilamentView>,
    sort: Option<(usize, SortOrder)>,
) -> int {
    match sort {
        Some((0, SortOrder::Ascending)) => order_by_name(a, b, m, false),
        Some((0, SortOrder::Descending)) => order_by_name(a, b, m, true),
        Some((1, SortOrder::Ascending)) => order_num(a.1.0, b.1.0),
        Some((1, SortOrder::Descending)) => order_num(b.1.0, a.1.0),
        Some((2, SortOrder::Ascending)) => order_num(a.1.1, b.1.1),
        Some((2, SortOrder::Descending)) => order_num(b.1.1, a.1.1),
        _ => 0,
    }
}

proof fn lemma_order_antisym(
    a: CalibrationRow,
    b: CalibrationRow,
    m: Map<u32, FilamentView>,
    sort: Option<(usize, SortOrder)>,
)
    ensures
        order_rows(a, b, m, sort) == -order_rows(b, a, m, sort),
        -1 <= order_rows(a, b, m, sort) <= 1,
{
    if let (Some(na), Some(nb)) = (row_name(a, m), row_name(b, m)) {
        lemma_lex_antisym(na, nb);
    }
}

proof fn lemma_order_trans(
    a: CalibrationRow,
    b: CalibrationRow,
    c: CalibrationRow,
    m: Map<u32, FilamentView>,
    sort: Option<(usize, SortOrder)>,
)
    requires
        order_rows(a, b, m, sort) <= 0,
        order_rows(b, c, m, sort) <= 0,
    ensures
        order_rows(a, c, m, sort) <= 0,
{
    match (row_name(a, m), row_name(b, m), row_name(c, m)) {
        (Some(na), Some(nb), Some(nc)) => {
            match sort {
                Some((0, SortOrder::Ascending)) => lemma_lex_trans(na, nb, nc),
                Some((0, SortOrder::Descending)) => lemma_lex_trans(nc, nb, na),
                _ => {},
            }
        },
        _ => {},
    }
}

/// Whether position `i` of the sorted rows may come before position `j`: it compares
/// lower, or equal and it came earlier in the table.
pub open spec fn before(
    out: Seq<CalibrationRow>,
    p: Seq<int>,
    i: int,
    j: int,
    m: Map<u32, FilamentView>,
    sort: Option<(usize, SortOrder)>,
) -> bool {
    order_rows(out[i], out[j], m, sort) < 0 || (order_rows(out[i], out[j], m, sort) == 0 && p[i]
        < p[j])
}

/// `out` is `inp` sorted stably: `p` maps each position of `out` to the position of
/// `inp` it came from, one to one, and the rows are in order, equal rows in their order
/// of the table.
pub open spec fn stably_sorted(
    inp: Seq<CalibrationRow>,
    out: Seq<CalibrationRow>,
    p: Seq<int>,
    m: Map<u32, FilamentView>,
    sort: Option<(usize, SortOrder)>,
) -> bool {
    &&& out.len() == inp.len()
    &&& p.len() == inp.len()
    &&& forall|i: int| 0 <= i < p.len() ==> 0 <= #[trigger] p[i] < inp.len()
    &&& forall|i: int, j: int| 0 <= i < j < p.len() ==> #[trigger] p[i] != #[trigger] p[j]
    &&& forall|i: int| 0 <= i < out.len() ==> #[trigger] out[i] == inp[p[i]]
    &&& forall|i: int, j: int| 0 <= i < j < out.len() ==> #[trigger] before(out, p, i, j, m, sort)
}

proof fn lemma_before_trans(
    out: Seq<CalibrationRow>,
    p: Seq<int>,
    i: int,
    j: int,
    k: int,
    m: Map<u32, FilamentView>,
    sort: Option<(usize, SortOrder)>,
)
    requires
        before(out, p, i, j, m, sort),
        before(out, p, j, k, m, sort),
    ensures
        before(out, p, i, k, m, sort),
{
    lemma_order_trans(out[i], out[j], out[k], m, sort);
    lemma_order_antisym(out[i], out[j], m, sort);
    lemma_order_antisym(out[j], out[k], m, sort);
    lemma_order_antisym(out[i], out[k], m, sort);
    if order_rows(out[i], out[k], m, sort) == 0 {
        lemma_order_trans(out[k], out[i], out[j], m, sort);
        lemma_order_trans(out[j], out[k], out[i], m, sort);
        lemma_order_antisym(out[k], out[j], m, sort);
        lemma_order_antisym(out[j], out[i], m, sort);
    }
}

/// Compares two texts as Rust's `String` order does, by character code.
pub fn compare_text(a: &str, b: &str) -> (res: i8)
    ensures
        res as int == lex_order(a@, b@),
{
    let la = a.unicode_len();
    let lb = b.unicode_len();
    let mut i: usize = 0;
    assert(a@.skip(0) =~= a@);
    assert(b@.skip(0) =~= b@);
    while i < la && i < lb
        invariant
            la == a@.len(),
            lb == b@.len(),
            i <= la,
            i <= lb,
            lex_order(a@, b@) == lex_order(a@.skip(i as int), b@.skip(i as int)),
        decreases la - i,
    {
        let ca = a.get_char(i);
        let cb = b.get_char(i);
        assert(a@.skip(i as int)[0] == ca && b@.skip(i as int)[0] == cb);
        if (ca as u32) < (cb as u32) {
            return -1;
        }
        if (ca as u32) > (cb as u32) {
            return 1;
        }
        assert(a@.skip(i as int).drop_first() =~= a@.skip(i + 1));
        assert(b@.skip(i as int).drop_first() =~= b@.skip(i + 1));
        i = i + 1;
    }
    if i == la && i == lb {
        0
    } else if i == la {
        -1
    } else {
        1
    }
}

fn order_u32(a: u32, b: u32) -> (res: i8)
    ensures
        res as int == order_num(a, b),
{
    if a < b {
        -1
    } else if a > b {
        1
    } else {
        0
    }
}

/// Compares two rows under a table sort.
pub fn compare_rows(
    a: CalibrationRow,
    b: CalibrationRow,
    filaments: &FilamentMap,
    sort: Option<(usize, SortOrder)>,
) -> (res: i8)
    ensures
        res as int == order_rows(a, b, filaments@, sort),
{
    match sort {
        Some((col, order)) => {
            let desc = match order {
                SortOrder::Ascending => false,
                SortOrder::Descending => true,
            };
            if col == 0 {
                match (filaments.get(&a.0), filaments.get(&b.0)) {
                    (Some(f1), Some(f2)) => {
                        if desc {
                            compare_text(f2.name.as_str(), f1.name.as_str())
                        } else {
                            compare_text(f1.name.as_str(), f2.name.as_str())
                        }
                    },
                    (Some(_), None) => -1,
                    (None, Some(_)) => 1,
                    (None, None) => {
                        if desc {
                            order_u32(b.0, a.0)
                        } else {
                            order_u32(a.0, b.0)
                        }
                    },
                }
            } else if col == 1 {
                if desc {
                    order_u32(b.1.0, a.1.0)
                } else {
                    order_u32(a.1.0, b.1.0)
                }
            } else if col == 2 {
                if desc {
                    order_u32(b.1.1, a.1.1)
                } else {
                    order_u32(a.1.1, b.1.1)
                }
            } else {
                0
            }
        },
        None => 0,
    }
}

/// Sorts the calibration table stably by the given column and direction, as a click on a
/// column header asks; any other sort leaves the table as it is.
pub fn sort_table(table: &mut Vec<CalibrationRow>, filaments: &FilamentMap, sort: Option<(usize, SortOrder)>)
    ensures
        exists|p: Seq<int>| stably_sorted(old(table)@, final(table)@, p, filaments@, sort),
{
    let ghost inp = table@;
    let ghost m = filaments@;
    let ghost mut p: Seq<int> = Seq::new(inp.len(), |k: int| k);
    let n = table.len();
    if n == 0 {
        assert(stably_sorted(inp, table@, p, m, sort));
        return;
    }
    let mut i: usize = 1;
    while i < n
        invariant
            1 <= i <= n,
            m == filaments@,
            n == inp.len(),
            table@.len() == n,
            p.len() == n,
            forall|k: int| 0 <= k < i ==> 0 <= #[trigger] p[k] < i,
            forall|k: int| i <= k < n ==> #[trigger] p[k] == k,
            forall|a: int, b: int| 0 <= a < b < n ==> #[trigger] p[a] != #[trigger] p[b],
            forall|k: int| 0 <= k < n ==> #[trigger] table@[k] == inp[p[k]],
            forall|a: int, b: int| 0 <= a < b < i ==> #[trigger] before(table@, p, a, b, m, sort),
        decreases n - i,
    {
        let mut j: usize = i;
        loop
            invariant
                1 <= i < n,
                m == filaments@,
                j <= i,
                n == inp.len(),
                table@.len() == n,
                p.len() == n,
                p[j as int] == i,
                forall|k: int| 0 <= k <= i && k != j ==> 0 <= #[trigger] p[k] < i,
                forall|k: int| i < k < n ==> #[trigger] p[k] == k,
                forall|a: int, b: int| 0 <= a < b < n ==> #[trigger] p[a] != #[trigger] p[b],
                forall|k: int| 0 <= k < n ==> #[trigger] table@[k] == inp[p[k]],
                forall|a: int, b: int|
                    0 <= a < b <= i && a != j && b != j ==> #[trigger] before(table@, p, a, b, m, sort),
                forall|b: int| j < b <= i ==> #[trigger] before(table@, p, j as int, b, m, sort),
            ensures
                j == 0 || order_rows(table@[j - 1], table@[j as int], m, sort) <= 0,
            decreases j,
        {
            if j == 0 {
                break;
            }
            let x = table[j - 1];
            let y = table[j];
            let c = compare_rows(x, y, filaments, sort);
            if c <= 0 {
                break;
            }
            proof {
                lemma_order_antisym(x, y, m, sort);
            }
            let ghost old_t = table@;
            let ghost old_p = p;
            table.set(j - 1, y);
            table.set(j, x);
            proof {
                p = p.update(j - 1, old_p[j as int]).update(j as int, old_p[j - 1]);
                assert(table@[j - 1] == old_t[j as int] && p[j - 1] == old_p[j as int]);
                assert(table@[j as int] == old_t[j - 1] && p[j as int] == old_p[j - 1]);
                assert(forall|k: int| 0 <= k < n && k != j - 1 && k != j ==> #[trigger] table@[k] == old_t[k]);
                assert(forall|k: int| 0 <= k < n && k != j - 1 && k != j ==> #[trigger] p[k] == old_p[k]);
                assert forall|a: int, b: int|
                    0 <= a < b <= i && a != j - 1 && b != j - 1 implies #[trigger] before(
                    table@,
                    p,
                    a,
                    b,
                    m,
                    sort,
                ) by {
                    if a == j {
                        assert(table@[b] == old_t[b] && p[b] == old_p[b]);
                        assert(before(old_t, old_p, j - 1, b, m, sort));
                    } else if b == j {
                        assert(table@[a] == old_t[a] && p[a] == old_p[a]);
                        assert(before(old_t, old_p, a, j - 1, m, sort));
                    } else {
                        assert(table@[a] == old_t[a] && p[a] == old_p[a]);
                        assert(table@[b] == old_t[b] && p[b] == old_p[b]);
                        assert(before(old_t, old_p, a, b, m, sort));
                    }
                }
                assert forall|b: int| j - 1 < b <= i implies #[trigger] before(
                    table@,
                    p,
                    j - 1,
                    b,
                    m,
                    sort,
                ) by {
                    if b == j {
                    } else {
                        assert(table@[b] == old_t[b] && p[b] == old_p[b]);
                        assert(before(old_t, old_p, j as int, b, m, sort));
                    }
                }
            }
            j = j - 1;
        }
        proof {
            if j > 0 {
                let y = table@[j as int];
                let x = table@[j - 1];
                lemma_order_antisym(x, y, m, sort);
                assert(before(table@, p, j - 1, j as int, m, sort));
            }
            assert forall|a: int, b: int| 0 <= a < b <= i implies #[trigger] before(
                table@,
                p,
                a,
                b,
                m,
                sort,
            ) by {
                if b == j {
                    if a < j - 1 {
                        lemma_before_trans(table@, p, a, j - 1, j as int, m, sort);
                    }
                } else if a == j {
                } else if a < j && j < b {
                    if a < j - 1 {
                        lemma_before_trans(table@, p, a, j - 1, j as int, m, sort);
                    }
                    lemma_before_trans(table@, p, a, j as int, b, m, sort);
                }
            }
        }
        i = i + 1;
    }
    assert(stably_sorted(inp, table@, p, m, sort));
}

/// The rows that the filter shows: those whose filament matches the filter and is in the
/// map, in table order.
pub open spec fn spec_visible(
    rows: Seq<CalibrationRow>,
    matched: Set<u32>,
    m: Map<u32, FilamentView>,
) -> Seq<CalibrationRow>
    decreases rows.len(),
{
    if rows.len() == 0 {
        Seq::empty()
    } else {
        let rest = spec_visible(rows.drop_last(), matched, m);
        if matched.contains(rows.last().0) && m.contains_key(rows.last().0) {
            rest.push(rows.last())
        } else {
            rest
        }
    }
}

fn contains_id(ids: &Vec<u32>, id: u32) -> (res: bool)
    ensures
        res == ids@.contains(id),
{
    for i in 0..ids.len()
        invariant
            forall|k: int| 0 <= k < i ==> ids@[k] != id,
    {
        if ids[i] == id {
            return true;
        }
    }
    false
}

/// The rows of the table that are shown: their filament matches the filter (`matched`
/// holds the matching ids) and is known.
pub fn visible_rows(table: &Vec<CalibrationRow>, matched: &Vec<u32>, filaments: &FilamentMap) -> (res: Vec<CalibrationRow>)
    ensures
        res@ == spec_visible(table@, matched@.to_set(), filaments@),
{
    let mut res: Vec<CalibrationRow> = Vec::new();
    for i in 0..table.len()
        invariant
            res@ == spec_visible(table@.subrange(0, i as int), matched@.to_set(), filaments@),
    {
        let row = table[i];
        proof {
            let sub = table@.subrange(0, i + 1);
            assert(sub.drop_last() =~= table@.subrange(0, i as int));
        }
        if contains_id(matched, row.0) && filaments.get(&row.0).is_some() {
            res.push(row);
        }
    }
    assert(table@.subrange(0, table@.len() as int) =~= table@);
    res
}

/// The calibration list: the purge values between one chosen filament and the others.
#[derive(Debug)]
pub struct ListCalibrations {
    pub picker: FilamentPicker,
    pub sort: Option<(usize, SortOrder)>,
    pub last_selected_filament: Option<u32>,
    pub filament_table: Option<(u32, Vec<CalibrationRow>)>,
}

impl Default for ListCalibrations {
    fn default() -> (l: Self)
        ensures
            l.picker.choice() is None,
            l.sort is None,
            l.last_selected_filament is None,
            l.filament_table is None,
    {
        ListCalibrations {
            picker: FilamentPicker::default(),
            sort: None,
            last_selected_filament: None,
            filament_table: None,
        }
    }
}

impl ListCalibrations {
    /// Notes the filament the picker shows; true when it differs from the one noted
    /// before, so that the table must be fetched again.
    pub fn selection_changed(&mut self) -> (changed: bool)
        ensures
            changed == (choice_id(old(self).picker.choice()) != old(self).last_selected_filament),
            final(self).last_selected_filament == choice_id(old(self).picker.choice()),
            final(self).picker == old(self).picker,
            final(self).sort == old(self).sort,
            final(self).filament_table == old(self).filament_table,
    {
        let current = self.picker.filament_id();
        if current != self.last_selected_filament {
            self.last_selected_filament = current;
            true
        } else {
            false
        }
    }
}

} // verus!
