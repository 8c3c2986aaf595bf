use cs2_dumper::analysis::game_events::{
    event_count_address, event_count_ok, event_list_address, event_slot_address, field_count_ok,
    field_slot_address, locate_event_manager, record_event, GameEventField, GameEventMap, GameEventWalk,
};
use cs2_dumper::pe::ScanError;
use cs2_dumper::strmap::StrMap;

#[test]
fn list_bounds() {
    assert!(!event_count_ok(0));
    assert!(event_count_ok(1));
    assert!(event_count_ok(2047));
    assert!(!event_count_ok(2048));
    assert!(!event_count_ok(-5));
    assert!(!field_count_ok(0));
    assert!(field_count_ok(63));
    assert!(!field_count_ok(64));
}

#[test]
fn addresses() {
    assert_eq!(event_list_address(0x1000), 0x1028);
    assert_eq!(event_count_address(0x1000), 0x1030);
    assert_eq!(event_slot_address(0x2000, 3), 0x2018);
    assert_eq!(field_slot_address(0x3000, 2), 0x3020);
}

#[test]
fn events_by_name_later_wins() {
    let mut m: GameEventMap = StrMap::new();
    record_event(&mut m, "player_death".into(), vec![GameEventField { name: "userid".into(), type_id: 1 }]);
    record_event(&mut m, "bomb_planted".into(), vec![]);
    record_event(&mut m, "player_death".into(), vec![]);
    assert_eq!(m.len(), 2);
    assert_eq!(m.key_at(0), "bomb_planted");
    assert_eq!(m.get("player_death").unwrap().fields.len(), 0);
}

#[test]
fn locating_event_manager_in_junk_fails() {
    assert_eq!(locate_event_manager(&[0u8; 8]), Err(ScanError::BadImage));
}

#[test]
fn event_walk_reads_only_what_the_list_allows() {
    assert_eq!(GameEventWalk::new(0x1000, 12).slots(), 12);
    assert_eq!(GameEventWalk::new(0, 12).slots(), 0);
    assert_eq!(GameEventWalk::new(0x1000, 2048).slots(), 0);
    assert_eq!(GameEventWalk::new(0x1000, -1).slots(), 0);
    assert!(!GameEventWalk::new(0x1000, 0).can_visit());
    assert_eq!(GameEventWalk::fields_to_read(0x2000, 63), 63);
    assert_eq!(GameEventWalk::fields_to_read(0x2000, 64), 0);
    assert_eq!(GameEventWalk::fields_to_read(0, 3), 0);
    assert!(GameEventWalk::descriptor_present(Some(0x10)));
    assert!(!GameEventWalk::descriptor_present(Some(0)));
    assert!(!GameEventWalk::descriptor_present(None));
}

#[test]
fn event_walk_drops_unreadable_fields_and_keeps_the_last_descriptor() {
    let field = |n: &str, t: i32| GameEventField { name: n.to_string(), type_id: t };
    let mut walk = GameEventWalk::new(0x1000, 3);
    walk.visit("round_start".to_string(), vec![Some(field("timelimit", 3)), None, Some(field("objective", 1))]);
    walk.visit("player_death".to_string(), vec![]);
    walk.visit("round_start".to_string(), vec![None, Some(field("reason", 2))]);
    assert!(!walk.can_visit());
    let events = walk.finish();
    assert_eq!(events.len(), 2);
    assert_eq!(events.key_at(0), "player_death");
    let round = events.get("round_start").unwrap();
    assert_eq!(round.fields.len(), 1);
    assert_eq!(round.fields[0].name, "reason");
    assert_eq!(round.fields[0].type_id, 2);
}
