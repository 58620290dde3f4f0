//! The closed set of fruit kinds and their per-kind lookups.

use vstd::prelude::*;

verus! {

/// One of the five fruit icons a reel can show.
#[derive(Clone, Copy, PartialEq, Eq, Structural, Debug)]
pub enum ItemKind {
    Apple,
    Mikan,
    Grape,
    Banana,
    Pine,
}

/// The fixed list of kinds that fills one lane, in its canonical order.
pub open spec fn spec_item_list() -> Seq<ItemKind> {
    seq![
        ItemKind::Apple,
        ItemKind::Mikan,
        ItemKind::Grape,
        ItemKind::Banana,
        ItemKind::Pine,
    ]
}

/// One fresh copy of the canonical kind list.
pub fn item_list() -> (v: Vec<ItemKind>)
    ensures
        v@ == spec_item_list(),
{
    let mut v: Vec<ItemKind> = Vec::new();
    v.push(ItemKind::Apple);
    v.push(ItemKind::Mikan);
    v.push(ItemKind::Grape);
    v.push(ItemKind::Banana);
    v.push(ItemKind::Pine);
    proof {
        assert(v@ =~= spec_item_list());
    }
    v
}

/// The asset path of a kind's icon.
pub open spec fn spec_texture(kind: ItemKind) -> Seq<char> {
    match kind {
        ItemKind::Apple => "images/apple.png"@,
        ItemKind::Mikan => "images/mikankun.png"@,
        ItemKind::Grape => "images/budou.png"@,
        ItemKind::Banana => "images/banana.png"@,
        ItemKind::Pine => "images/pine.png"@,
    }
}

/// The draw scale of a kind's icon, in tenths of a unit per axis
/// (the apple icon is drawn half again as large as the others).
pub open spec fn spec_scale_tenths(kind: ItemKind) -> (u64, u64) {
    match kind {
        ItemKind::Apple => (15u64, 15u64),
        ItemKind::Mikan => (10u64, 10u64),
        ItemKind::Grape => (10u64, 10u64),
        ItemKind::Banana => (10u64, 10u64),
        ItemKind::Pine => (10u64, 10u64),
    }
}

impl ItemKind {
    /// The asset path of this kind's icon.
    pub fn texture(&self) -> (r: String)
        ensures
            r@ == spec_texture(*self),
    {
        match self {
            ItemKind::Apple => "images/apple.png".to_string(),
            ItemKind::Mikan => "images/mikankun.png".to_string(),
            ItemKind::Grape => "images/budou.png".to_string(),
            ItemKind::Banana => "images/banana.png".to_string(),
            ItemKind::Pine => "images/pine.png".to_string(),
        }
    }

    /// The draw scale of this kind's icon, in tenths of a unit per axis.
    pub fn scale_tenths(&self) -> (r: (u64, u64))
        ensures
            r == spec_scale_tenths(*self),
    {
        match self {
            ItemKind::Apple => (15u64, 15u64),
            ItemKind::Mikan => (10u64, 10u64),
            ItemKind::Grape => (10u64, 10u64),
            ItemKind::Banana => (10u64, 10u64),
            ItemKind::Pine => (10u64, 10u64),
        }
    }
}

} // verus!
