//! Scrolling items: the wrap-around position arithmetic, the per-tick
//! movement step, and the stop handler that records and snaps a lane.

use vstd::prelude::*;
use vstd::pervasive::VecAdditionalExecFns;

use crate::kind::ItemKind;
use crate::state::Audio;
use crate::state::ItemEq;
use crate::state::ItemMoveFlag;
use crate::state::valid_lane;

verus! {

/// How far a moving item falls each tick.
pub const ITEM_SPEED: i64 = 20;

/// The height of one icon cell: the icon itself plus its padding.
pub const CELL_HEIGHT: i64 = 200 + 17;

/// Where a wrapped item reappears: two cells above the center line.
pub const ITEM_SPAWN_POINT: i64 = CELL_HEIGHT * 2;

/// Below this an item has left the visible column and wraps back up:
/// one full column of five cells below the spawn point.
pub const ITEM_DESPAWN_POINT: i64 = -(CELL_HEIGHT * 5) + ITEM_SPAWN_POINT;

/// Half-width of the centered window a fruit must sit in, at the moment a
/// lane stops, to be recorded: two thirds of a cell, rounded down to a
/// whole number. Positions are whole numbers, so the window
/// `[-CENTER_TOLERANCE, CENTER_TOLERANCE]` is exact.
pub const CENTER_TOLERANCE: i64 = 144;

/// A generous bound on an item's vertical position, far beyond anything
/// on screen; it only keeps the snap arithmetic inside `i64`.
pub const POSITION_LIMIT: i64 = 0x1000_0000;

/// One scrolling fruit: the lane it belongs to, its vertical position and
/// its kind, fixed at creation.
#[derive(Clone, Copy, PartialEq, Eq, Structural, Debug)]
#[verifier::ext_equal]
pub struct Item {
    pub lane: usize,
    pub y: i64,
    pub kind: ItemKind,
}

/// True of an item that belongs to one of the three lanes and sits within
/// the position bound.
pub open spec fn valid_item(item: Item) -> bool {
    &&& valid_lane(item.lane as int)
    &&& -POSITION_LIMIT <= item.y <= POSITION_LIMIT
}

/// Whether a position lies in the centered recording window.
pub open spec fn in_window(y: int) -> bool {
    -CENTER_TOLERANCE <= y <= CENTER_TOLERANCE
}

/// Whether every item belongs to a lane and sits within the position
/// bound; callers outside verified code can test the movement and stop
/// handlers' preconditions with this.
pub fn check_items(items: &Vec<Item>) -> (r: bool)
    ensures
        r == forall|i: int| 0 <= i < items@.len() ==> valid_item(#[trigger] items@[i]),
{
    let n = items.len();
    let mut i: usize = 0;
    while i < n
        invariant
            n == items@.len(),
            i <= n,
            forall|j: int| 0 <= j < i ==> valid_item(#[trigger] items@[j]),
        decreases n - i,
    {
        let item = items[i];
        if !(1 <= item.lane && item.lane <= crate::state::LANE_COUNT && -POSITION_LIMIT <= item.y
            && item.y <= POSITION_LIMIT) {
            return false;
        }
        i += 1;
    }
    true
}

/// One tick of an item's fall: wrap from at or below the despawn threshold
/// back to the spawn point, then fall by the speed.
pub open spec fn spec_step(y: int) -> int {
    if y <= ITEM_DESPAWN_POINT {
        ITEM_SPAWN_POINT - ITEM_SPEED
    } else {
        y - ITEM_SPEED
    }
}

/// The position after `n` ticks from `y`.
pub open spec fn spec_step_n(y: int, n: nat) -> int
    decreases n,
{
    if n == 0 {
        y
    } else {
        spec_step(spec_step_n(y, (n - 1) as nat))
    }
}

/// One tick of an item's fall.
pub fn step_position(y: i64) -> (r: i64)
    ensures
        r == spec_step(y as int),
{
    let wrapped: i64 = if y <= ITEM_DESPAWN_POINT {
        ITEM_SPAWN_POINT
    } else {
        y
    };
    wrapped - ITEM_SPEED
}

/// A single tick never takes a position below one speed under the despawn
/// threshold: at the threshold it wraps to the spawn point instead.
pub proof fn lemma_step_stays_above_floor(y: int)
    ensures
        spec_step(y) > ITEM_DESPAWN_POINT - ITEM_SPEED,
        y <= ITEM_DESPAWN_POINT ==> spec_step(y) == ITEM_SPAWN_POINT - ITEM_SPEED,
{
}

/// However many ticks an item falls, its position wraps instead of going
/// unboundedly negative: after the first tick it stays above a fixed
/// floor, and never rises above its start or the spawn point.
pub proof fn lemma_scroll_never_unbounded(y: int, n: nat)
    requires
        n >= 1,
    ensures
        spec_step_n(y, n) > ITEM_DESPAWN_POINT - ITEM_SPEED,
        y <= ITEM_SPAWN_POINT ==> spec_step_n(y, n) <= ITEM_SPAWN_POINT,
        y > ITEM_SPAWN_POINT ==> spec_step_n(y, n) <= y,
    decreases n,
{
    if n == 1 {
        assert(spec_step_n(y, 0) == y);
    } else {
        lemma_scroll_never_unbounded(y, (n - 1) as nat);
    }
}

/// One tick for every item: each item whose lane is still moving falls one
/// step; items of halted lanes, and every lane and kind, stay as they are.
pub fn move_items(items: &mut Vec<Item>, flags: &ItemMoveFlag)
    requires
        forall|i: int| 0 <= i < old(items)@.len() ==> valid_item(#[trigger] old(items)@[i]),
    ensures
        final(items)@.len() == old(items)@.len(),
        forall|i: int|
            0 <= i < old(items)@.len() ==> {
                let before = old(items)@[i];
                let after = #[trigger] final(items)@[i];
                &&& after.lane == before.lane
                &&& after.kind == before.kind
                &&& after.y == if flags.spec_get(before.lane as int) {
                    spec_step(before.y as int)
                } else {
                    before.y as int
                }
            },
        forall|i: int| 0 <= i < final(items)@.len() ==> valid_item(#[trigger] final(items)@[i]),
{
    let n = items.len();
    let mut i: usize = 0;
    while i < n
        invariant
            n == old(items)@.len(),
            items@.len() == n,
            i <= n,
            forall|j: int| 0 <= j < n ==> valid_item(#[trigger] old(items)@[j]),
            forall|j: int| i <= j < n ==> #[trigger] items@[j] == old(items)@[j],
            forall|j: int|
                0 <= j < i ==> {
                    let before = old(items)@[j];
                    let after = #[trigger] items@[j];
                    &&& after.lane == before.lane
                    &&& after.kind == before.kind
                    &&& after.y == if flags.spec_get(before.lane as int) {
                        spec_step(before.y as int)
                    } else {
                        before.y as int
                    }
                },
        decreases n - i,
    {
        let item = items[i];
        if flags.get_location(item.lane) {
            let moved = Item { lane: item.lane, y: step_position(item.y), kind: item.kind };
            items.set(i, moved);
        }
        i += 1;
    }
}

/// The first index at or after `from` of an item of `lane` inside the
/// recording window, or the sequence's length when there is none.
pub open spec fn first_centered_from(items: Seq<Item>, lane: int, from: int) -> int
    decreases items.len() - from when 0 <= from <= items.len()
{
    if from >= items.len() {
        items.len() as int
    } else if items[from].lane == lane && in_window(items[from].y as int) {
        from
    } else {
        first_centered_from(items, lane, from + 1)
    }
}

/// The first item of `lane` inside the recording window, or the length
/// when no item of that lane is centered.
pub open spec fn first_centered(items: Seq<Item>, lane: int) -> int {
    first_centered_from(items, lane, 0)
}

/// What `first_centered_from` returns: an in-range index of the first
/// centered item of the lane at or after `from`, or the length.
pub proof fn lemma_first_centered_from(items: Seq<Item>, lane: int, from: int)
    requires
        0 <= from <= items.len(),
    ensures
        from <= first_centered_from(items, lane, from) <= items.len(),
        first_centered_from(items, lane, from) < items.len() ==> {
            let k = first_centered_from(items, lane, from);
            &&& items[k].lane == lane
            &&& in_window(items[k].y as int)
        },
        forall|j: int|
            from <= j < first_centered_from(items, lane, from) ==> !(#[trigger] items[j].lane
                == lane && in_window(items[j].y as int)),
    decreases items.len() - from,
{
    if from < items.len() && !(items[from].lane == lane && in_window(items[from].y as int)) {
        lemma_first_centered_from(items, lane, from + 1);
    }
}

/// Handle a fired stop on `lane`: find the first item of that lane inside
/// the centered window. If one exists, record its kind for the lane, judge
/// the match, and shift every item of the lane so the found item lands
/// exactly centered; the result is the sound cue, `Arrange` on a win and
/// `Stop` on a miss. If no item of the lane is centered, nothing is
/// recorded or moved and no cue fires.
pub fn stop_lane(items: &mut Vec<Item>, records: &mut ItemEq, lane: usize) -> (cue: Option<Audio>)
    requires
        valid_lane(lane as int),
        forall|i: int| 0 <= i < old(items)@.len() ==> valid_item(#[trigger] old(items)@[i]),
    ensures
        final(items)@.len() == old(items)@.len(),
        ({
            let k = first_centered(old(items)@, lane as int);
            if k == old(items)@.len() {
                &&& final(items)@ == old(items)@
                &&& *final(records) == *old(records)
                &&& cue is None
            } else {
                let found = old(items)@[k];
                &&& final(items)@[k].y == 0
                &&& *final(records) == old(records).spec_change(lane as int, found.kind)
                &&& cue == Some(
                    if final(records).is_win() {
                        Audio::Arrange
                    } else {
                        Audio::Stop
                    },
                )
                &&& forall|j: int|
                    0 <= j < old(items)@.len() ==> {
                        let before = old(items)@[j];
                        let after = #[trigger] final(items)@[j];
                        &&& after.lane == before.lane
                        &&& after.kind == before.kind
                        &&& after.y == if before.lane == lane {
                            before.y - found.y
                        } else {
                            before.y as int
                        }
                    }
            }
        }),
{
    let ghost items0 = items@;
    let ghost k = first_centered(items0, lane as int);
    proof {
        lemma_first_centered_from(items0, lane as int, 0);
    }
    let n = items.len();

    // Scan for the first centered item of the lane, as the ghost index does.
    let mut i: usize = 0;
    let mut found_at: usize = n;
    let mut difference: i64 = 0;
    while i < n
        invariant
            items@ == items0,
            n == items0.len(),
            i <= n,
            found_at <= n,
            k == first_centered(items0, lane as int),
            found_at == n ==> k >= i && k == first_centered_from(
                items0,
                lane as int,
                i as int,
            ) && difference == 0,
            found_at < n ==> found_at == k && difference == items0[k].y,
            -CENTER_TOLERANCE <= difference <= CENTER_TOLERANCE,
        decreases n - i,
    {
        if found_at == n {
            let item = items[i];
            if item.lane == lane && -CENTER_TOLERANCE <= item.y && item.y <= CENTER_TOLERANCE {
                found_at = i;
                difference = item.y;
                proof {
                    assert(k == i as int);
                }
            } else {
                proof {
                    assert(first_centered_from(items0, lane as int, i as int)
                        == first_centered_from(items0, lane as int, i as int + 1));
                    lemma_first_centered_from(items0, lane as int, i as int + 1);
                }
            }
        }
        i += 1;
    }

    let cue: Option<Audio> = if found_at < n {
        let found = items[found_at];
        records.change(lane, found.kind);
        if ItemEq::eq(records) {
            Some(Audio::Arrange)
        } else {
            Some(Audio::Stop)
        }
    } else {
        None
    };

    // Shift every item of the lane so the found item lands centered; when
    // nothing was found the shift is zero and every position is kept.
    let mut j: usize = 0;
    while j < n
        invariant
            n == items0.len(),
            items@.len() == n,
            j <= n,
            -CENTER_TOLERANCE <= difference <= CENTER_TOLERANCE,
            forall|m: int| 0 <= m < n ==> valid_item(#[trigger] items0[m]),
            forall|m: int| j <= m < n ==> #[trigger] items@[m] == items0[m],
            forall|m: int|
                0 <= m < j ==> {
                    let before = items0[m];
                    let after = #[trigger] items@[m];
                    &&& after.lane == before.lane
                    &&& after.kind == before.kind
                    &&& after.y == if before.lane == lane {
                        before.y - difference
                    } else {
                        before.y as int
                    }
                },
        decreases n - j,
    {
        let item = items[j];
        if item.lane == lane {
            let shifted = Item { lane: item.lane, y: item.y - difference, kind: item.kind };
            items.set(j, shifted);
        }
        j += 1;
    }

    proof {
        if k == items0.len() {
            assert forall|m: int| 0 <= m < items0.len() implies items@[m] == items0[m] by {
                assert(items@[m] =~= items0[m]);
            }
            assert(items@ =~= items0);
        }
    }
    cue
}

} // verus!
