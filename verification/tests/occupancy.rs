use hookbot::models::UpdateDeskOccupancyConfig;
use hookbot::routes::desk_occupancy::{
    check_event_type, default_occupancy_config, occupancy_config_updated, occupancy_suggestion, occupancy_tally,
    OccupancyTally,
};

fn ev(kind: &str, ts: &str) -> (String, String) {
    (kind.to_string(), ts.to_string())
}

#[test]
fn occupancy_event_kinds() {
    for kind in ["occupied", "vacant", "break_start", "break_end"] {
        assert!(check_event_type(kind).is_ok());
    }
    assert_eq!(
        check_event_type("sleeping"),
        Err("event_type must be one of: occupied, vacant, break_start, break_end".to_string())
    );
    assert!(check_event_type("Occupied").is_err());
}

#[test]
fn occupancy_long_session_without_breaks() {
    let events = vec![ev("occupied", "2024-03-04T09:00:00Z"), ev("vacant", "2024-03-04T11:30:59Z")];
    let t = occupancy_tally(&events);
    assert_eq!(t.desk_minutes, 150);
    assert_eq!(t.break_minutes, 0);
    assert_eq!(t.breaks_taken, 0);
    assert_eq!(t.session_count, 1);
    assert_eq!(occupancy_suggestion(&t), "You should take more breaks! Try a 5-minute break every hour.");
}

#[test]
fn occupancy_breaks_and_offsets() {
    let events = vec![
        ev("occupied", "2024-03-04T09:00:00+01:00"),
        ev("break_start", "2024-03-04T08:45:00Z"),
        ev("break_end", "2024-03-04T09:00:00Z"),
        ev("vacant", "2024-03-04T09:40:00Z"),
        ev("occupied", "not a time"),
        ev("unknown", "2024-03-04T10:00:00Z"),
        ev("occupied", "2024-03-04T10:00:00Z"),
        ev("vacant", "2024-03-04T10:20:00Z"),
    ];
    let t = occupancy_tally(&events);
    // 08:00Z to 09:40Z, then 10:00Z to 10:20Z.
    assert_eq!(t.desk_minutes, 120);
    assert_eq!(t.break_minutes, 15);
    assert_eq!(t.breaks_taken, 1);
    assert_eq!(t.session_count, 2);
    assert_eq!(occupancy_suggestion(&t), "Good balance! Keep taking regular breaks.");
}

#[test]
fn occupancy_vacant_without_session_and_negative_interval() {
    let events = vec![
        ev("vacant", "2024-03-04T09:00:00Z"),
        ev("occupied", "2024-03-04T09:00:30Z"),
        ev("vacant", "2024-03-04T08:58:00Z"),
    ];
    let t = occupancy_tally(&events);
    // -2.5 minutes truncates toward zero.
    assert_eq!(t.desk_minutes, -2);
    assert_eq!(t.session_count, 1);
}

#[test]
fn occupancy_suggestions() {
    let long = OccupancyTally { desk_minutes: 200, break_minutes: 10, breaks_taken: 1, session_count: 2 };
    assert_eq!(
        occupancy_suggestion(&long),
        "Your sessions are quite long. Consider shorter, focused sessions with breaks."
    );
    let even = OccupancyTally { desk_minutes: 180, break_minutes: 10, breaks_taken: 1, session_count: 2 };
    assert_eq!(occupancy_suggestion(&even), "Good balance! Keep taking regular breaks.");
    let none = OccupancyTally { desk_minutes: 0, break_minutes: 0, breaks_taken: 0, session_count: 0 };
    assert_eq!(occupancy_suggestion(&none), "Good balance! Keep taking regular breaks.");
    let edge = OccupancyTally { desk_minutes: 120, break_minutes: 0, breaks_taken: 0, session_count: 2 };
    assert_eq!(occupancy_suggestion(&edge), "Good balance! Keep taking regular breaks.");
}

#[test]
fn occupancy_config_defaults_and_updates() {
    let c = default_occupancy_config("c1".to_string(), "d1".to_string(), "2024-01-01T00:00:00Z".to_string());
    assert_eq!(c.break_remind_minutes, 60);
    assert!(c.enabled);
    let u = UpdateDeskOccupancyConfig { break_remind_minutes: Some(45), enabled: None };
    let c = occupancy_config_updated(c, &u);
    assert_eq!(c.break_remind_minutes, 45);
    assert!(c.enabled);
    assert_eq!(c.device_id, "d1");
    let u = UpdateDeskOccupancyConfig { break_remind_minutes: None, enabled: Some(false) };
    let c = occupancy_config_updated(c, &u);
    assert_eq!(c.break_remind_minutes, 45);
    assert!(!c.enabled);
}
