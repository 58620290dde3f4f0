//! The starting column of each lane: one copy of every fruit kind, in a
//! random order, stacked one cell apart.

use vstd::prelude::*;

use rand::seq::SliceRandom;

use crate::kind::ItemKind;
use crate::kind::item_list;
use crate::kind::spec_item_list;
use crate::scroll::CELL_HEIGHT;
use crate::scroll::ITEM_DESPAWN_POINT;
use crate::scroll::ITEM_SPAWN_POINT;
use crate::scroll::Item;
use crate::scroll::valid_item;
use crate::state::LANE_COUNT;

verus! {

/// How many items fill one lane: one per fruit kind.
pub const LANE_ITEM_COUNT: usize = 5;

/// The starting position of the `n`-th item of a lane: stacked upward
/// from the despawn threshold, one cell apart, offset by the spawn point.
pub open spec fn spec_initial_y(n: int) -> int {
    ITEM_DESPAWN_POINT + CELL_HEIGHT * n + ITEM_SPAWN_POINT
}

/// The kinds of one lane's five slots in `items`, which holds the lanes'
/// items in order, five to a lane.
pub open spec fn lane_kinds(items: Seq<Item>, lane: int) -> Seq<ItemKind> {
    Seq::new(LANE_ITEM_COUNT as nat, |n: int| items[(lane - 1) * LANE_ITEM_COUNT + n].kind)
}

/// Relies on rand's `SliceRandom::shuffle` with `thread_rng`: an in-place
/// Fisher-Yates pass of swaps, so every outcome is a permutation of the
/// input; the order itself depends on the generator.
#[verifier::external_body]
fn shuffle_kinds(kinds: &mut Vec<ItemKind>)
    ensures
        final(kinds)@.to_multiset() == old(kinds)@.to_multiset(),
        final(kinds)@.len() == old(kinds)@.len(),
{
    kinds.shuffle(&mut rand::thread_rng());
}

/// The starting position of the `n`-th item of a lane.
pub fn initial_y(n: usize) -> (y: i64)
    requires
        n <= LANE_ITEM_COUNT,
    ensures
        y == spec_initial_y(n as int),
{
    ITEM_DESPAWN_POINT + CELL_HEIGHT * (n as i64) + ITEM_SPAWN_POINT
}

/// Build the starting items of all three lanes: five items per lane, one
/// lane after the other. Within a lane the `n`-th item sits at the `n`-th
/// starting position, and the lane's five kinds are exactly the five
/// fruit kinds, in an order drawn at random per lane.
pub fn initial_items() -> (items: Vec<Item>)
    ensures
        items@.len() == LANE_COUNT * LANE_ITEM_COUNT,
        forall|i: int| 0 <= i < items@.len() ==> valid_item(#[trigger] items@[i]),
        forall|lane: int, n: int|
            1 <= lane <= LANE_COUNT && 0 <= n < LANE_ITEM_COUNT ==> {
                let item = #[trigger] items@[(lane - 1) * LANE_ITEM_COUNT + n];
                &&& item.lane == lane
                &&& item.y == spec_initial_y(n)
            },
        forall|lane: int|
            1 <= lane <= LANE_COUNT ==> #[trigger] lane_kinds(items@, lane).to_multiset()
                == spec_item_list().to_multiset(),
{
    let mut items: Vec<Item> = Vec::new();
    let mut lane: usize = 1;
    while lane <= LANE_COUNT
        invariant
            1 <= lane <= LANE_COUNT + 1,
            items@.len() == (lane - 1) * LANE_ITEM_COUNT,
            forall|i: int| 0 <= i < items@.len() ==> valid_item(#[trigger] items@[i]),
            forall|l: int, n: int|
                1 <= l < lane && 0 <= n < LANE_ITEM_COUNT ==> {
                    let item = #[trigger] items@[(l - 1) * LANE_ITEM_COUNT + n];
                    &&& item.lane == l
                    &&& item.y == spec_initial_y(n)
                },
            forall|l: int|
                1 <= l < lane ==> #[trigger] lane_kinds(items@, l).to_multiset()
                    == spec_item_list().to_multiset(),
        decreases LANE_COUNT + 1 - lane,
    {
        let ghost items_before = items@;
        let mut kinds = item_list();
        shuffle_kinds(&mut kinds);
        proof {
            spec_item_list().to_multiset_ensures();
            kinds@.to_multiset_ensures();
        }

        let mut n: usize = 0;
        while n < LANE_ITEM_COUNT
            invariant
                n <= LANE_ITEM_COUNT,
                1 <= lane <= LANE_COUNT,
                kinds@.len() == LANE_ITEM_COUNT,
                items@.len() == items_before.len() + n,
                items_before.len() == (lane - 1) * LANE_ITEM_COUNT,
                forall|i: int| 0 <= i < items_before.len() ==> items@[i] == items_before[i],
                forall|m: int|
                    0 <= m < n ==> {
                        let item = #[trigger] items@[items_before.len() + m];
                        &&& item.lane == lane
                        &&& item.y == spec_initial_y(m)
                        &&& item.kind == kinds@[m]
                    },
            decreases LANE_ITEM_COUNT - n,
        {
            items.push(Item { lane, y: initial_y(n), kind: kinds[n] });
            n += 1;
        }

        proof {
            assert forall|i: int| 0 <= i < items@.len() implies valid_item(
                #[trigger] items@[i],
            ) by {
                if i < items_before.len() {
                    assert(items@[i] == items_before[i]);
                    assert(valid_item(items_before[i]));
                } else {
                    let m = i - items_before.len();
                    assert(items@[items_before.len() + m] == items@[i]);
                }
            }
            assert forall|l: int, n: int|
                1 <= l < lane + 1 && 0 <= n < LANE_ITEM_COUNT implies {
                    let item = #[trigger] items@[(l - 1) * LANE_ITEM_COUNT + n];
                    &&& item.lane == l
                    &&& item.y == spec_initial_y(n)
                } by {
                if l == lane {
                    assert(items@[items_before.len() + n].lane == lane);
                    assert(items@[items_before.len() + n].y == spec_initial_y(n));
                    assert((l - 1) * LANE_ITEM_COUNT + n == items_before.len() + n);
                } else {
                    assert(items@[(l - 1) * LANE_ITEM_COUNT + n] == items_before[(l - 1)
                        * LANE_ITEM_COUNT + n]);
                    assert(items_before[(l - 1) * LANE_ITEM_COUNT + n].lane == l);
                }
            }
            assert(lane_kinds(items@, lane as int) =~= kinds@);
            assert forall|l: int| 1 <= l < lane + 1 implies #[trigger] lane_kinds(
                items@,
                l,
            ).to_multiset() == spec_item_list().to_multiset() by {
                if l < lane {
                    assert(lane_kinds(items@, l) =~= lane_kinds(items_before, l));
                }
            }
        }
        lane += 1;
    }
    items
}

} // verus!
