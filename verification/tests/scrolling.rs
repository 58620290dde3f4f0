use fruit_reels::kind::ItemKind;
use fruit_reels::scroll::check_items;
use fruit_reels::scroll::move_items;
use fruit_reels::scroll::step_position;
use fruit_reels::scroll::stop_lane;
use fruit_reels::scroll::Item;
use fruit_reels::scroll::CENTER_TOLERANCE;
use fruit_reels::scroll::ITEM_DESPAWN_POINT;
use fruit_reels::scroll::ITEM_SPAWN_POINT;
use fruit_reels::scroll::ITEM_SPEED;
use fruit_reels::state::Audio;
use fruit_reels::state::ItemEq;
use fruit_reels::state::ItemMoveFlag;

fn item(lane: usize, y: i64, kind: ItemKind) -> Item {
    Item { lane, y, kind }
}

#[test]
fn constants_have_expected_values() {
    assert_eq!(ITEM_SPEED, 20);
    assert_eq!(ITEM_SPAWN_POINT, 434);
    assert_eq!(ITEM_DESPAWN_POINT, -651);
    assert_eq!(CENTER_TOLERANCE, 144);
}

#[test]
fn step_falls_by_the_speed() {
    assert_eq!(step_position(0), -20);
    assert_eq!(step_position(217), 197);
    assert_eq!(step_position(-650), -670);
}

#[test]
fn step_wraps_at_the_despawn_threshold() {
    assert_eq!(step_position(ITEM_DESPAWN_POINT), ITEM_SPAWN_POINT - ITEM_SPEED);
    assert_eq!(step_position(ITEM_DESPAWN_POINT - 1), ITEM_SPAWN_POINT - ITEM_SPEED);
    assert_eq!(step_position(ITEM_DESPAWN_POINT + 1), ITEM_DESPAWN_POINT + 1 - ITEM_SPEED);
}

#[test]
fn repeated_steps_stay_above_the_floor() {
    let start: i64 = 651;
    let mut y = start;
    for _ in 0..500 {
        y = step_position(y);
        assert!(y > ITEM_DESPAWN_POINT - ITEM_SPEED);
        assert!(y <= start.max(ITEM_SPAWN_POINT));
    }
}

#[test]
fn move_items_steps_only_moving_lanes() {
    let mut items = vec![
        item(1, 100, ItemKind::Apple),
        item(2, 100, ItemKind::Mikan),
        item(3, -651, ItemKind::Grape),
    ];
    let mut flags = ItemMoveFlag::new();
    flags.request_stop(2);
    move_items(&mut items, &flags);
    assert_eq!(items[0].y, 80);
    assert_eq!(items[1].y, 100);
    assert_eq!(items[2].y, 414);
    assert_eq!(items[0].kind, ItemKind::Apple);
    assert_eq!(items[2].lane, 3);
}

#[test]
fn stop_records_first_centered_item_and_snaps_the_lane() {
    let mut items = vec![
        item(1, 300, ItemKind::Apple),
        item(1, 83, ItemKind::Grape),
        item(1, -134, ItemKind::Banana),
        item(2, 83, ItemKind::Pine),
    ];
    let mut records = ItemEq::new();
    let cue = stop_lane(&mut items, &mut records, 1);
    assert_eq!(cue, Some(Audio::Stop));
    assert_eq!(records.item1, Some(ItemKind::Grape));
    assert_eq!(items[0].y, 217);
    assert_eq!(items[1].y, 0);
    assert_eq!(items[2].y, -217);
    assert_eq!(items[3].y, 83);
}

#[test]
fn stop_that_completes_a_match_cues_the_win_sound() {
    let mut items = vec![item(3, -60, ItemKind::Apple)];
    let mut records = ItemEq::new();
    records.change(1, ItemKind::Apple);
    records.change(2, ItemKind::Apple);
    let cue = stop_lane(&mut items, &mut records, 3);
    assert_eq!(cue, Some(Audio::Arrange));
    assert!(records.eq());
    assert_eq!(items[0].y, 0);
}

#[test]
fn stop_with_no_centered_item_changes_nothing() {
    let mut items = vec![
        item(1, 300, ItemKind::Apple),
        item(1, -200, ItemKind::Grape),
        item(2, 0, ItemKind::Pine),
    ];
    let before = items.clone();
    let mut records = ItemEq::new();
    let cue = stop_lane(&mut items, &mut records, 1);
    assert_eq!(cue, None);
    assert_eq!(items, before);
    assert_eq!(records.item1, None);
}

#[test]
fn stop_window_edges_are_inclusive() {
    let mut items = vec![item(1, CENTER_TOLERANCE, ItemKind::Apple)];
    let mut records = ItemEq::new();
    assert!(stop_lane(&mut items, &mut records, 1).is_some());

    let mut items = vec![item(1, -CENTER_TOLERANCE, ItemKind::Apple)];
    let mut records = ItemEq::new();
    assert!(stop_lane(&mut items, &mut records, 1).is_some());

    let mut items = vec![item(1, CENTER_TOLERANCE + 1, ItemKind::Apple)];
    let mut records = ItemEq::new();
    assert!(stop_lane(&mut items, &mut records, 1).is_none());
}

#[test]
fn check_items_accepts_lanes_and_rejects_strays() {
    let good = vec![item(1, 0, ItemKind::Apple), item(3, 651, ItemKind::Pine)];
    assert!(check_items(&good));
    let bad_lane = vec![item(4, 0, ItemKind::Apple)];
    assert!(!check_items(&bad_lane));
    let far_out = vec![item(2, i64::MAX, ItemKind::Apple)];
    assert!(!check_items(&far_out));
}
