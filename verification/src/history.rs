use vstd::prelude::*;

verus! {

/// The direction a table column is sorted in.
#[derive(Debug, Clone, Copy, PartialEq, Eq, Structural)]
pub enum SortOrder {
    Ascending,
    Descending,
}

/// One sent grid, as the history table keeps it.
#[derive(Debug)]
pub struct HistoryRow {
    pub id: u32,
    /// Seconds since the Unix epoch.
    pub timestamp: i64,
    pub num_filaments: usize,
    /// The ids of the filaments of the grid, in slot order.
    pub filaments: Vec<u32>,
    /// The bit pattern of the `f32` multiplier, where one was stored.
    pub multiplier: Option<u32>,
    /// The offset, where one was stored.
    pub offset: Option<u32>,
}

/// The sort that a click on a column header gives: the clicked column, descending when
/// it was that column ascending, else ascending.
pub open spec fn spec_toggle_sort(current: Option<(usize, SortOrder)>, column: usize) -> Option<
    (usize, SortOrder),
> {
    if current == Some((column, SortOrder::Ascending)) {
        Some((column, SortOrder::Descending))
    } else {
        Some((column, SortOrder::Ascending))
    }
}

/// The sort after a click on the header of `column`.
pub fn toggle_sort(current: Option<(usize, SortOrder)>, column: usize) -> (res: Option<
    (usize, SortOrder),
>)
    ensures
        res == spec_toggle_sort(current, column),
{
    match current {
        Some((c, SortOrder::Ascending)) => {
            if c == column {
                Some((column, SortOrder::Descending))
            } else {
                Some((column, SortOrder::Ascending))
            }
        },
        _ => Some((column, SortOrder::Ascending)),
    }
}

/// Two clicks on one header bring the table back to that column ascending; one click
/// always sorts by the clicked column.
pub proof fn lemma_toggle_twice(current: Option<(usize, SortOrder)>, column: usize)
    ensures
        spec_toggle_sort(current, column) matches Some((c, _)) && c == column,
        spec_toggle_sort(spec_toggle_sort(Some((column, SortOrder::Ascending)), column), column)
            == Some((column, SortOrder::Ascending)),
        current != Some((column, SortOrder::Ascending)) ==> spec_toggle_sort(
            spec_toggle_sort(current, column),
            column,
        ) == Some((column, SortOrder::Descending)),
{
}

/// The order of the history query: by timestamp in the given direction when the sort is
/// on the first column, else the table's own order.
pub fn history_order(sort: Option<(usize, SortOrder)>) -> (res: Option<SortOrder>)
    ensures
        res == (match sort {
            Some((0, o)) => Some(o),
            _ => None,
        }),
{
    match sort {
        Some((c, o)) => {
            if c == 0 {
                Some(o)
            } else {
                None
            }
        },
        None => None,
    }
}

/// Whether `chrono::DateTime::from_timestamp` accepts a number of seconds.
pub uninterp spec fn chrono_accepts_timestamp(secs: i64) -> bool;

/// Calls `chrono::DateTime::<Utc>::from_timestamp(secs, 0)` and gives back the seconds of
/// the result. Claimed, as its documentation states: the result is `None` exactly when
/// the seconds are out of range (named by `chrono_accepts_timestamp`), and a result
/// round-trips to the same seconds.
#[verifier::external_body]
fn chrono_timestamp(secs: i64) -> (res: Option<i64>)
    ensures
        res is Some <==> chrono_accepts_timestamp(secs),
        res matches Some(t) ==> t == secs,
{
    match chrono::DateTime::<chrono::Utc>::from_timestamp(secs, 0) {
        Some(d) => Some(d.timestamp()),
        None => None,
    }
}

/// The timestamp a history row is shown with: the stored seconds, or the epoch where the
/// date library rejects them.
pub fn history_timestamp(secs: i64) -> (res: i64)
    ensures
        chrono_accepts_timestamp(secs) ==> res == secs,
        !chrono_accepts_timestamp(secs) ==> res == 0,
{
    match chrono_timestamp(secs) {
        Some(t) => t,
        None => 0,
    }
}

/// The number of slot columns of the history table.
pub const SLOT_COUNT: usize = 16;

/// Whether a slot value read as `u32` succeeds: present and in range.
pub open spec fn slot_ok(v: Option<i64>) -> bool {
    v matches Some(x) && 0 <= x <= u32::MAX
}

/// Whether the columns of a history row decode: a slot count that names only slot
/// columns, each of the first `num` slots holding a filament id.
pub open spec fn row_decodes(num: i64, slots: Seq<Option<i64>>) -> bool {
    &&& 0 <= num <= SLOT_COUNT
    &&& forall|i: int| 0 <= i < num ==> slot_ok(#[trigger] slots[i])
}

/// The filament ids that the first `num` slots hold.
pub open spec fn row_ids(num: int, slots: Seq<Option<i64>>) -> Seq<u32> {
    Seq::new(num as nat, |i: int| slots[i]->Some_0 as u32)
}

/// Decodes a row of the history table: `None` for a row that does not decode, which the
/// history leaves out.
pub fn decode_history_row(
    id: u32,
    timestamp: i64,
    num: i64,
    slots: &Vec<Option<i64>>,
    multiplier: Option<u32>,
    offset: Option<u32>,
) -> (res: Option<HistoryRow>)
    requires
        slots@.len() == SLOT_COUNT,
    ensures
        res is Some <==> row_decodes(num, slots@),
        res matches Some(r) ==> {
            &&& r.id == id
            &&& chrono_accepts_timestamp(timestamp) ==> r.timestamp == timestamp
            &&& !chrono_accepts_timestamp(timestamp) ==> r.timestamp == 0
            &&& r.num_filaments == num
            &&& r.filaments@ == row_ids(num as int, slots@)
            &&& r.multiplier == multiplier
            &&& r.offset == offset
        },
{
    if num < 0 || num > 16 {
        return None;
    }
    let n = num as usize;
    let mut filaments: Vec<u32> = Vec::new();
    for i in 0..n
        invariant
            n == num,
            n <= 16,
            slots@.len() == SLOT_COUNT,
            filaments@ == row_ids(i as int, slots@),
            forall|j: int| 0 <= j < i ==> slot_ok(#[trigger] slots@[j]),
    {
        match slots[i] {
            Some(v) => {
                if v < 0 || v > u32::MAX as i64 {
                    return None;
                }
                filaments.push(v as u32);
                assert(filaments@ =~= row_ids(i + 1, slots@));
            },
            None => {
                return None;
            },
        }
    }
    Some(
        HistoryRow {
            id,
            timestamp: history_timestamp(timestamp),
            num_filaments: n,
            filaments,
            multiplier,
            offset,
        },
    )
}

} // verus!
