//! Per-lane game state: movement flags, recorded fruits, the match rule,
//! stop requests and restart.

use vstd::prelude::*;

use crate::kind::ItemKind;

verus! {

/// How many lanes the machine has; lanes are numbered 1 through this count.
pub const LANE_COUNT: usize = 3;

/// True of a usable lane number.
pub open spec fn valid_lane(lane: int) -> bool {
    1 <= lane <= LANE_COUNT
}

/// The sound cue a stop can trigger: `Arrange` when the three recorded
/// fruits match, `Stop` otherwise.
#[derive(Clone, Copy, PartialEq, Eq, Structural, Debug)]
pub enum Audio {
    Arrange,
    Stop,
}

/// The fruit recorded for each lane, if any; empty until the lane is
/// stopped with a fruit near the center line.
#[derive(Clone, Copy, PartialEq, Eq, Debug)]
pub struct ItemEq {
    pub item1: Option<ItemKind>,
    pub item2: Option<ItemKind>,
    pub item3: Option<ItemKind>,
}

impl ItemEq {
    /// The value recorded for `lane`.
    pub open spec fn spec_get(self, lane: int) -> Option<ItemKind>
        recommends
            valid_lane(lane),
    {
        if lane == 1 {
            self.item1
        } else if lane == 2 {
            self.item2
        } else {
            self.item3
        }
    }

    /// The match rule: a win holds exactly when all three lanes have a
    /// recorded fruit and the three fruits are equal.
    pub open spec fn is_win(self) -> bool {
        self.item1 is Some && self.item1 == self.item2 && self.item2 == self.item3
    }

    /// `self` with `lane`'s record set to `kind` and the others kept.
    pub open spec fn spec_change(self, lane: int, kind: ItemKind) -> ItemEq
        recommends
            valid_lane(lane),
    {
        if lane == 1 {
            ItemEq { item1: Some(kind), ..self }
        } else if lane == 2 {
            ItemEq { item2: Some(kind), ..self }
        } else {
            ItemEq { item3: Some(kind), ..self }
        }
    }

    /// A state with no lane recorded.
    pub open spec fn spec_empty() -> ItemEq {
        ItemEq { item1: None, item2: None, item3: None }
    }

    /// A state with no lane recorded.
    pub fn new() -> (r: ItemEq)
        ensures
            r == ItemEq::spec_empty(),
    {
        ItemEq { item1: None, item2: None, item3: None }
    }

    /// Whether the three recorded fruits form a win.
    pub fn eq(&self) -> (r: bool)
        ensures
            r == self.is_win(),
    {
        match (self.item1, self.item2, self.item3) {
            (Some(a), Some(b), Some(c)) => a == b && b == c,
            _ => false,
        }
    }

    /// Record `kind` for `location`, keeping the other lanes.
    pub fn change(&mut self, location: usize, kind: ItemKind)
        requires
            valid_lane(location as int),
        ensures
            *final(self) == old(self).spec_change(location as int, kind),
            final(self).spec_get(location as int) == Some(kind),
            forall|l: int|
                valid_lane(l) && l != location ==> final(self).spec_get(l) == old(self).spec_get(
                    l,
                ),
    {
        let item = match location {
            1 => &mut self.item1,
            2 => &mut self.item2,
            _ => &mut self.item3,
        };
        *item = Some(kind);
    }

    /// Clear every lane's record, whatever was held before.
    pub fn reset(&mut self)
        ensures
            *final(self) == ItemEq::spec_empty(),
            forall|l: int| valid_lane(l) ==> final(self).spec_get(l) is None,
    {
        self.item1 = None;
        self.item2 = None;
        self.item3 = None;
    }
}

/// Whether each lane is scrolling (`true`) or halted (`false`).
#[derive(Clone, Copy, PartialEq, Eq, Structural, Debug)]
pub struct ItemMoveFlag {
    pub item1: bool,
    pub item2: bool,
    pub item3: bool,
}

impl ItemMoveFlag {
    /// `lane`'s movement flag.
    pub open spec fn spec_get(self, lane: int) -> bool
        recommends
            valid_lane(lane),
    {
        if lane == 1 {
            self.item1
        } else if lane == 2 {
            self.item2
        } else {
            self.item3
        }
    }

    /// `self` with `lane` halted and the other lanes kept.
    pub open spec fn spec_stop(self, lane: int) -> ItemMoveFlag
        recommends
            valid_lane(lane),
    {
        if lane == 1 {
            ItemMoveFlag { item1: false, ..self }
        } else if lane == 2 {
            ItemMoveFlag { item2: false, ..self }
        } else {
            ItemMoveFlag { item3: false, ..self }
        }
    }

    /// The state with every lane scrolling.
    pub open spec fn spec_all_moving() -> ItemMoveFlag {
        ItemMoveFlag { item1: true, item2: true, item3: true }
    }

    /// A state with every lane scrolling, as the machine starts.
    pub fn new() -> (r: ItemMoveFlag)
        ensures
            r == ItemMoveFlag::spec_all_moving(),
    {
        ItemMoveFlag { item1: true, item2: true, item3: true }
    }

    /// Halt `item`'s lane, keeping the other lanes.
    pub fn change(&mut self, item: usize)
        requires
            valid_lane(item as int),
        ensures
            *final(self) == old(self).spec_stop(item as int),
            !final(self).spec_get(item as int),
            forall|l: int|
                valid_lane(l) && l != item ==> final(self).spec_get(l) == old(self).spec_get(l),
    {
        let flag = match item {
            1 => &mut self.item1,
            2 => &mut self.item2,
            _ => &mut self.item3,
        };
        *flag = false;
    }

    /// `location`'s movement flag.
    pub fn get_location(&self, location: usize) -> (r: bool)
        requires
            valid_lane(location as int),
        ensures
            r == self.spec_get(location as int),
    {
        match location {
            1 => self.item1,
            2 => self.item2,
            _ => self.item3,
        }
    }

    /// Set every lane scrolling, whatever was held before.
    pub fn all_true(&mut self)
        ensures
            *final(self) == ItemMoveFlag::spec_all_moving(),
            forall|l: int| valid_lane(l) ==> final(self).spec_get(l),
    {
        self.item1 = true;
        self.item2 = true;
        self.item3 = true;
    }

    /// Take a stop request for `lane`: the lane is halted, and the request
    /// fires (an alignment attempt and a sound follow) exactly when the lane
    /// was still moving. On an already-halted lane nothing fires and the
    /// state is unchanged.
    pub fn request_stop(&mut self, lane: usize) -> (fired: bool)
        requires
            valid_lane(lane as int),
        ensures
            fired == old(self).spec_get(lane as int),
            *final(self) == old(self).spec_stop(lane as int),
            !final(self).spec_get(lane as int),
            forall|l: int|
                valid_lane(l) && l != lane ==> final(self).spec_get(l) == old(self).spec_get(l),
    {
        let was_moving = self.get_location(lane);
        self.change(lane);
        was_moving
    }
}

/// Restart the machine: every lane scrolls again and every record is
/// cleared, whatever state came before.
pub fn restart(flags: &mut ItemMoveFlag, records: &mut ItemEq)
    ensures
        *final(flags) == ItemMoveFlag::spec_all_moving(),
        *final(records) == ItemEq::spec_empty(),
        forall|l: int| valid_lane(l) ==> final(flags).spec_get(l),
        forall|l: int| valid_lane(l) ==> final(records).spec_get(l) is None,
{
    flags.all_true();
    records.reset();
}

/// Once halted, a lane stays halted under any further stop request, on it
/// or on any other lane: only a restart sets a movement flag back to true.
pub proof fn lemma_stop_is_sticky(flags: ItemMoveFlag, halted: int, requested: int)
    requires
        valid_lane(halted),
        valid_lane(requested),
        !flags.spec_get(halted),
    ensures
        !flags.spec_stop(requested).spec_get(halted),
{
}

/// A stop request on an already-halted lane leaves the flags exactly as
/// they were: no lane changes, so nothing fires twice.
pub proof fn lemma_stop_request_is_idempotent(flags: ItemMoveFlag, lane: int)
    requires
        valid_lane(lane),
        !flags.spec_get(lane),
    ensures
        flags.spec_stop(lane) == flags,
{
}

/// Three equal recorded fruits are a win.
pub proof fn lemma_all_same_is_win(kind: ItemKind)
    ensures
        (ItemEq { item1: Some(kind), item2: Some(kind), item3: Some(kind) }).is_win(),
{
}

/// Any pairwise inequality among the recorded values is a miss.
pub proof fn lemma_any_mismatch_is_miss(records: ItemEq)
    requires
        records.item1 != records.item2 || records.item2 != records.item3 || records.item1
            != records.item3,
    ensures
        !records.is_win(),
{
}

/// A win needs all three lanes recorded: any empty lane is a miss.
pub proof fn lemma_missing_record_is_miss(records: ItemEq)
    requires
        records.item1 is None || records.item2 is None || records.item3 is None,
    ensures
        !records.is_win(),
{
}

} // verus!
