use fruit_reels::kind::ItemKind;
use fruit_reels::state::restart;
use fruit_reels::state::ItemEq;
use fruit_reels::state::ItemMoveFlag;

#[test]
fn three_equal_kinds_win() {
    let mut records = ItemEq::new();
    records.change(1, ItemKind::Apple);
    records.change(2, ItemKind::Apple);
    records.change(3, ItemKind::Apple);
    assert!(records.eq());
}

#[test]
fn pairwise_mismatch_misses() {
    let mut records = ItemEq::new();
    records.change(1, ItemKind::Apple);
    records.change(2, ItemKind::Mikan);
    records.change(3, ItemKind::Apple);
    assert!(!records.eq());
}

#[test]
fn every_kind_wins_when_tripled() {
    let kinds = [
        ItemKind::Apple,
        ItemKind::Mikan,
        ItemKind::Grape,
        ItemKind::Banana,
        ItemKind::Pine,
    ];
    for kind in kinds {
        let mut records = ItemEq::new();
        records.change(1, kind);
        records.change(2, kind);
        records.change(3, kind);
        assert!(records.eq());
    }
}

#[test]
fn empty_lane_misses() {
    let mut records = ItemEq::new();
    assert!(!records.eq());
    records.change(1, ItemKind::Grape);
    records.change(3, ItemKind::Grape);
    assert!(!records.eq());
}

#[test]
fn change_keeps_other_lanes() {
    let mut records = ItemEq::new();
    records.change(2, ItemKind::Banana);
    assert_eq!(records.item1, None);
    assert_eq!(records.item2, Some(ItemKind::Banana));
    assert_eq!(records.item3, None);
    records.change(2, ItemKind::Pine);
    assert_eq!(records.item2, Some(ItemKind::Pine));
}

#[test]
fn reset_clears_all_records() {
    let mut records = ItemEq::new();
    records.change(1, ItemKind::Apple);
    records.change(2, ItemKind::Mikan);
    records.change(3, ItemKind::Grape);
    records.reset();
    assert_eq!(records.item1, None);
    assert_eq!(records.item2, None);
    assert_eq!(records.item3, None);
}

#[test]
fn stop_request_halts_only_its_lane() {
    let mut flags = ItemMoveFlag::new();
    assert!(flags.get_location(1) && flags.get_location(2) && flags.get_location(3));
    let fired = flags.request_stop(2);
    assert!(fired);
    assert!(flags.get_location(1));
    assert!(!flags.get_location(2));
    assert!(flags.get_location(3));
}

#[test]
fn stop_request_on_halted_lane_is_a_no_op() {
    let mut flags = ItemMoveFlag::new();
    assert!(flags.request_stop(3));
    let before = flags;
    let fired = flags.request_stop(3);
    assert!(!fired);
    assert_eq!(flags, before);
}

#[test]
fn halted_lane_stays_halted_under_other_stops() {
    let mut flags = ItemMoveFlag::new();
    flags.request_stop(1);
    flags.request_stop(2);
    assert!(!flags.get_location(1));
    flags.request_stop(3);
    assert!(!flags.get_location(1));
    assert!(!flags.get_location(2));
    assert!(!flags.get_location(3));
}

#[test]
fn restart_resumes_and_clears_regardless_of_prior_state() {
    let mut flags = ItemMoveFlag::new();
    let mut records = ItemEq::new();
    flags.request_stop(1);
    flags.request_stop(3);
    records.change(1, ItemKind::Apple);
    records.change(3, ItemKind::Pine);
    restart(&mut flags, &mut records);
    assert!(flags.get_location(1) && flags.get_location(2) && flags.get_location(3));
    assert_eq!(records.item1, None);
    assert_eq!(records.item2, None);
    assert_eq!(records.item3, None);
}
