use hookbot::routes::firmware::{
    build_filename, build_message, check_environment, check_firmware_id, check_upload, env_to_device_type,
    firmware_checksum, upload_filename,
};
use hookbot::json::JsonValue;
use hookbot::models::{Device, DeviceConfig, HookEvent, SensorConfig, StatusSnapshot, UpdateConfig};
use hookbot::routes::automation::{apply_rule_update, new_rule, CreateRule, UpdateRule};
use hookbot::routes::community_store::{listing_matches, plugin_draft, plugin_order, rating_change, PublishRequest};
use hookbot::routes::context::detect_context;
use hookbot::routes::desk_lights::{bridge_host, hue_state_body, light_state_url};
use hookbot::routes::developer_insights::{
    burnout_warnings, decline_warning, digest_tips, longest_consecutive_days, retro_points,
};
use hookbot::routes::device_api::{
    device_token_hash, hash_token, heartbeat_reply, heartbeat_status, long_poll_secs, register_plan, RegisterPlan,
};
use hookbot::routes::device_links::{in_cooldown, link_action};
use hookbot::routes::devices::{
    apply_config_update, export_config, import_config, is_online, sound_pack_payload, ConfigExport, DeviceSetup,
    ExportDeviceInfo, ExportMetadata, ExportRule,
};
use hookbot::routes::diagnostics::{
    database_check, dns_check, firmware_dir_check, http_check, no_devices_check, overall_status, probes_continue, tcp_check,
    HttpOutcome, TcpOutcome,
};
use hookbot::routes::github::{map_github_event, repo_name};
use hookbot::routes::groups::{group_command_url, group_state_url, tally};
use hookbot::routes::homeassistant::entity_id;
use hookbot::routes::hooks::{hook_state, routed_device};
use hookbot::routes::mini_games::{leaderboard_query, score_outcome};
use hookbot::routes::monitors::{default_monitor_config, looking_message, monitor_target};
use hookbot::routes::mood::mood_energy;
use hookbot::routes::mood_learning::feedback_counts;
use hookbot::routes::notifications::{notification_body, webhook_defaults, WebhookInput};
use hookbot::routes::ota::{check_device_types, firmware_url, ota_poll_step, ota_route, ota_start, OtaPoll, OtaRoute};
use hookbot::routes::sandbox::{check_permission, new_sandbox, SandboxRules};
use hookbot::routes::settings::{check_settings_update, retention_hours, retention_window, UpdateSettings};
use hookbot::routes::shared_assets::{asset_order, check_asset_type};
use hookbot::models::CreatePluginSandbox;

fn obj(fields: Vec<(&str, JsonValue)>) -> JsonValue {
    JsonValue::Object(fields.into_iter().map(|(k, v)| (k.to_string(), v)).collect())
}

fn s(t: &str) -> JsonValue {
    JsonValue::Str(t.to_string())
}

fn n(t: &str) -> JsonValue {
    JsonValue::Number(t.to_string())
}

fn strings(v: &[&str]) -> Vec<String> {
    v.iter().map(|x| x.to_string()).collect()
}

fn hook(event: &str, tool: Option<&str>, output: Option<&str>) -> HookEvent {
    HookEvent {
        event: event.to_string(),
        tool_name: tool.map(|t| t.to_string()),
        tool_output: output.map(|t| t.to_string()),
        project: None,
        device_id: None,
        tasks: None,
        active_task: None,
        input_tokens: None,
        output_tokens: None,
        model: None,
    }
}

#[test]
fn diagnostics_report_each_probe() {
    let db = database_check(&Ok(3), 2);
    assert_eq!((db.status.as_str(), db.message.as_str()), ("pass", "SQLite OK - 3 device(s)"));
    let db = database_check(&Err("locked".to_string()), 2);
    assert_eq!((db.status.as_str(), db.message.as_str()), ("fail", "SQLite error: locked"));
    let t = tcp_check("desk", "10.0.0.2", &TcpOutcome::TimedOut, 3000);
    assert_eq!(t.name, "desk - tcp:80");
    assert_eq!(t.message, "Connection timeout (10.0.0.2:80)");
    let body = obj(vec![("state", s("idle")), ("firmware_version", s("1.2.0"))]);
    let h = http_check("desk", &HttpOutcome::Answered { status: 200, shown: "200 OK".to_string(), body: Some(body) }, 12);
    assert_eq!(h.message, "HTTP OK - state: idle, fw: 1.2.0");
    let h = http_check("desk", &HttpOutcome::Answered { status: 200, shown: "200 OK".to_string(), body: None }, 12);
    assert_eq!((h.status.as_str(), h.message.as_str()), ("warn", "HTTP 200 OK but invalid JSON body"));
    let d = dns_check("desk", &Ok(Some("10.0.0.2".to_string())), 1);
    assert_eq!(d[0].message, "Resolves to 10.0.0.2");
    let f = firmware_dir_check("/data/fw", Some(4));
    assert_eq!(f.message, "/data/fw exists (4 files)");
    assert_eq!(firmware_dir_check("/data/fw", None).message, "/data/fw does not exist");
    let checks = vec![db, no_devices_check(), f];
    assert_eq!(overall_status(&checks), "fail");
    assert_eq!(overall_status(&checks[1..]), "warn");
    assert_eq!(overall_status(&checks[2..]), "pass");
}

#[test]
fn devices_register_beat_and_poll() {
    assert_eq!(hash_token("abc"), "ba7816bf8f01cfea414140de5dae2223b00361a396177a9cb410ff61f20015ad");
    assert!(device_token_hash(None).is_err());
    assert_eq!(device_token_hash(Some("abc")).ok().as_deref(), Some("ba7816bf8f01cfea414140de5dae2223b00361a396177a9cb410ff61f20015ad"));
    assert!(matches!(register_plan(None), RegisterPlan::Create));
    assert!(matches!(register_plan(Some(("d1".to_string(), None))), RegisterPlan::Reconnect { device_id } if device_id == "d1"));
    assert!(matches!(register_plan(Some(("d1".to_string(), Some("K7Q2ZP".to_string())))), RegisterPlan::Refresh { claim_code, .. } if claim_code == "K7Q2ZP"));
    assert_eq!(heartbeat_status(&None, Some(5), None), ("unknown".to_string(), 5, 0));
    assert_eq!(heartbeat_reply(None), (true, String::new()));
    assert_eq!(heartbeat_reply(Some("K7Q2ZP".to_string())), (false, "K7Q2ZP".to_string()));
    assert_eq!(long_poll_secs(Some(90)), 30);
    assert_eq!(long_poll_secs(Some(10)), 10);
    assert_eq!(long_poll_secs(None), 0);
}

#[test]
fn device_links_cool_down_and_act() {
    // 2024-01-01 00:00:00 UTC is 1704067200
    assert!(in_cooldown(Some("2024-01-01 00:00:00"), 60, 1704067230));
    assert!(!in_cooldown(Some("2024-01-01 00:00:00"), 60, 1704067260));
    assert!(!in_cooldown(Some("not a date"), 60, 1704067230));
    assert!(!in_cooldown(None, 60, 0));
    let (path, body) = link_action("set_state", obj(vec![]), "coding").unwrap();
    assert_eq!(path, "/state");
    assert_eq!(body, obj(vec![("state", s("coding"))]));
    let (path, body) = link_action("send_notification", obj(vec![("message", s("hi"))]), "idle").unwrap();
    assert_eq!(path, "/notification");
    assert_eq!(body, obj(vec![("source", s("device_link")), ("unread", n("1")), ("message", s("hi"))]));
    assert!(link_action("explode", obj(vec![]), "idle").is_none());
}

#[test]
fn device_status_and_sound_packs() {
    let snap = StatusSnapshot { state: "idle".to_string(), uptime_ms: 1, free_heap: 1, recorded_at: "2024-01-01 00:00:00".to_string() };
    assert!(is_online(&Some(snap), 1704067210));
    assert!(!is_online(&None, 1704067210));
    assert_eq!(sound_pack_payload(Some("default")), obj(vec![("pack", s("default"))]));
    match sound_pack_payload(Some("retro")) {
        JsonValue::Object(f) => {
            assert_eq!(f[0], ("pack".to_string(), s("retro")));
            assert_eq!(f[1].0, "melodies");
        }
        _ => panic!("not an object"),
    }
}

fn device(id: &str) -> Device {
    Device {
        id: id.to_string(),
        name: "desk".to_string(),
        hostname: "desk.local".to_string(),
        ip_address: "10.0.0.2".to_string(),
        purpose: Some("focus".to_string()),
        personality: None,
        device_type: Some("esp32".to_string()),
        created_at: "t0".to_string(),
        updated_at: "t0".to_string(),
        user_id: None,
    }
}

fn config(id: &str, pack: Option<&str>) -> DeviceConfig {
    DeviceConfig {
        device_id: id.to_string(),
        led_brightness: 40,
        led_colors: Some(obj(vec![("idle", s("#00ff00"))])),
        sound_enabled: true,
        sound_volume: 30,
        avatar_preset: None,
        custom_data: None,
        sound_pack: pack.map(|p| p.to_string()),
    }
}

fn sensor(id: i64, device: &str, channel: i32) -> SensorConfig {
    SensorConfig {
        id,
        device_id: device.to_string(),
        channel,
        pin: 4,
        sensor_type: "temp".to_string(),
        label: Some("desk".to_string()),
        poll_interval_ms: 1000,
        threshold: 0,
    }
}

fn rule(name: &str) -> ExportRule {
    ExportRule {
        name: name.to_string(),
        enabled: true,
        trigger_type: "state".to_string(),
        trigger_config: obj(vec![]),
        action_type: "notify".to_string(),
        action_config: obj(vec![]),
        cooldown_secs: 60,
    }
}

fn setup(id: &str) -> DeviceSetup {
    DeviceSetup {
        device: device(id),
        config: config(id, Some("retro")),
        sensors: vec![sensor(7, id, 0), sensor(8, id, 1)],
        rule_ids: strings(&["r1"]),
        rules: vec![rule("focus lights")],
    }
}

#[test]
fn a_backup_restores_the_same_device() {
    let x = export_config(setup("d1"), "2026-01-01T00:00:00Z".to_string(), Some("1.2.0".to_string()), None);
    assert_eq!(x.device_info.name, "desk");
    assert_eq!(x.sensor_configs.len(), 2);
    let a = import_config(setup("d1"), x, vec![7, 8], strings(&["r1"]));
    let b = setup("d1");
    assert_eq!(a.device.purpose, b.device.purpose);
    assert_eq!(a.config.sound_pack, b.config.sound_pack);
    assert_eq!(a.config.led_colors, b.config.led_colors);
    assert_eq!(a.sensors.len(), 2);
    assert_eq!((a.sensors[1].id, a.sensors[1].device_id.as_str(), a.sensors[1].channel), (8, "d1", 1));
    assert_eq!(a.rules[0].name, "focus lights");
}

#[test]
fn a_backup_moves_to_another_device() {
    let x = ConfigExport {
        metadata: ExportMetadata { export_date: "d".to_string(), firmware_version: None },
        device_info: ExportDeviceInfo { name: "old".to_string(), hostname: "old.local".to_string(), purpose: None, personality: Some("calm".to_string()), device_type: None },
        device_config: config("d1", None),
        servo_config: None,
        sensor_configs: vec![sensor(7, "d1", 3)],
        automation_rules: vec![rule("a"), rule("b")],
    };
    let a = import_config(setup("d2"), x, vec![20], strings(&["n1", "n2"]));
    assert_eq!(a.device.name, "desk");
    assert_eq!(a.device.purpose.as_deref(), Some("focus"));
    assert_eq!(a.device.personality.as_deref(), Some("calm"));
    assert_eq!(a.config.device_id, "d2");
    assert_eq!(a.config.sound_pack.as_deref(), Some("default"));
    assert_eq!((a.sensors[0].id, a.sensors[0].device_id.as_str(), a.sensors[0].channel), (20, "d2", 3));
    assert_eq!(a.rule_ids, strings(&["n1", "n2"]));
}

#[test]
fn settings_updates_replace_given_fields() {
    let u = UpdateConfig { led_brightness: Some(90), led_colors: None, sound_enabled: Some(false), sound_volume: None, avatar_preset: Some(s("cat")), custom_data: None, sound_pack: None };
    let a = apply_config_update(config("d1", Some("retro")), u);
    assert_eq!(a.led_brightness, 90);
    assert!(!a.sound_enabled);
    assert_eq!(a.sound_volume, 30);
    assert_eq!(a.avatar_preset, Some(s("cat")));
    assert_eq!(a.led_colors, Some(obj(vec![("idle", s("#00ff00"))])));
    assert_eq!(a.sound_pack.as_deref(), Some("retro"));
}

#[test]
fn insights_count_runs_and_warn() {
    let dates = strings(&["2026-01-01", "2026-01-02", "2026-01-03", "2026-01-05", "2026-01-06"]);
    assert_eq!(longest_consecutive_days(&dates), 3);
    assert_eq!(longest_consecutive_days(&[]), 1);
    let w = burnout_warnings(6, 14, 3, None, 12);
    assert_eq!(
        w,
        strings(&[
            "Late night coding on 6 of 14 days. Try to wrap up by 10 PM.",
            "Worked 3 weekend days in the period. Consider taking weekends off.",
            "12 consecutive work days without a break. Rest is important!",
        ])
    );
    assert_eq!(burnout_warnings(1, 14, 0, None, 2), strings(&["Your work pattern looks healthy. Keep it up!"]));
}

#[test]
fn weekly_tips() {
    assert_eq!(
        digest_tips(50, 150, 4),
        strings(&["Your activity is up 50% from last week. Great momentum!", "Long intense sessions detected. Remember to take breaks every 90 minutes."])
    );
    assert_eq!(
        digest_tips(-90, 10, 5),
        strings(&["Activity dropped 90% from last week. Consider setting daily coding goals.", "Your sessions are short. Try blocking longer focus periods."])
    );
    assert_eq!(digest_tips(20, 100, 10), strings(&["Keep up the consistent work! Steady progress is key."]));
    assert_eq!(digest_tips(-20, 100, 10), strings(&["Keep up the consistent work! Steady progress is key."]));
}

#[test]
fn retrospective_points() {
    let (well, improve) = retro_points(12, 14, &strings(&["first_hook", "streak_3"]), 320, 20);
    assert_eq!(
        well,
        strings(&[
            "Consistent activity: coded on 12 of 14 days",
            "Earned 2 new achievement(s): first_hook, streak_3",
            "Deep focus sessions averaging 16 tool uses each",
        ])
    );
    assert!(improve.is_empty());
    let (well, improve) = retro_points(3, 14, &[], 10, 2);
    assert_eq!(well, strings(&["Keep building momentum. Every session counts."]));
    assert_eq!(improve, strings(&["Only active 3 of 14 days. Try to code more consistently."]));
    // the average prints as `{:.0}` does: 16.5 rounds to even
    let (well, _) = retro_points(0, 14, &[], 33, 2);
    assert_eq!(well, strings(&["Deep focus sessions averaging 16 tool uses each"]));
    assert_eq!(format!("{:.0}", 33f64 / 2f64), "16");
}

#[test]
fn decline_warnings() {
    assert_eq!(decline_warning(-50).as_deref(), Some("Activity declining 50% \u{2014} this could indicate fatigue."));
    assert_eq!(decline_warning(-30), None);
}

#[test]
fn desk_lights_requests() {
    assert_eq!(bridge_host(" 192.168.1.20/ ").as_deref(), Some("192.168.1.20"));
    assert_eq!(bridge_host("evil.com/path?x"), None);
    assert_eq!(bridge_host(""), None);
    assert_eq!(hue_state_body(Some(300), Some((1000, 200))), obj(vec![("on", JsonValue::Bool(true)), ("bri", n("254")), ("hue", n("1000")), ("sat", n("200"))]));
    assert_eq!(hue_state_body(None, None), obj(vec![("on", JsonValue::Bool(true))]));
    assert_eq!(light_state_url(false, "10.0.0.9", "tok", "3"), "http://10.0.0.9/api/tok/lights/3/state");
}

#[test]
fn notifications_and_hooks() {
    assert_eq!(notification_body("slack", 3, None), obj(vec![("source", s("slack")), ("unread", n("3")), ("active", JsonValue::Bool(true))]));
    assert_eq!(notification_body("slack", 0, None), obj(vec![("source", s("slack")), ("unread", n("0")), ("active", JsonValue::Bool(false))]));
    let w = WebhookInput { source: None, unread: None, active: None, device_id: None };
    assert_eq!(webhook_defaults(&w), ("teams".to_string(), 1));
    assert_eq!(hook_state(&hook("PreToolUse", Some("Bash"), None)), "thinking");
    assert_eq!(hook_state(&hook("PostToolUse", Some("Bash"), Some("12 tests PASSED"))), "success");
    assert_eq!(hook_state(&hook("PostToolUse", Some("Edit"), Some("passed"))), "idle");
    assert_eq!(hook_state(&hook("TaskCompleted", None, None)), "success");
    assert_eq!(hook_state(&hook("Notification", None, None)), "idle");
    assert_eq!(routed_device(Some("a".to_string()), Some("b".to_string())).as_deref(), Some("a"));
    assert_eq!(routed_device(None, Some("b".to_string())).as_deref(), Some("b"));
}

#[test]
fn github_events_map_to_states() {
    let push = obj(vec![("ref", s("refs/heads/main")), ("repository", obj(vec![("full_name", s("me/bot"))]))]);
    assert_eq!(map_github_event("push", &push), ("success", "github:push:main".to_string()));
    assert_eq!(repo_name(&push), "me/bot");
    assert_eq!(repo_name(&obj(vec![])), "unknown");
    let pr = obj(vec![("action", s("closed")), ("pull_request", obj(vec![("merged", JsonValue::Bool(true)), ("number", n("7"))]))]);
    assert_eq!(map_github_event("pull_request", &pr), ("success", "github:pr:closed#7".to_string()));
    let ci = obj(vec![("action", s("completed")), ("workflow_run", obj(vec![("conclusion", s("failure")), ("name", s("CI"))]))]);
    assert_eq!(map_github_event("workflow_run", &ci), ("error", "github:ci:CI".to_string()));
    assert_eq!(map_github_event("fork", &obj(vec![])), ("idle", "github:fork".to_string()));
}

#[test]
fn sandbox_permissions_in_order() {
    let rules = SandboxRules {
        allowed_apis: strings(&["state.set", "network.fetch"]),
        blocked_apis: strings(&["network.fetch"]),
        can_access_network: true,
        can_modify_state: false,
        can_send_notifications: true,
        can_access_sensors: false,
        enabled: true,
    };
    let r = check_permission(Some(&rules), "network.fetch");
    assert_eq!((r.allowed, r.reason.as_str()), (false, "API 'network.fetch' is blocked"));
    let r = check_permission(Some(&rules), "state.set");
    assert_eq!((r.allowed, r.reason.as_str()), (false, "Capability for 'state.set' not granted"));
    let r = check_permission(Some(&rules), "notification.send");
    assert_eq!((r.allowed, r.reason.as_str()), (false, "API 'notification.send' not in allowed list"));
    let r = check_permission(None, "anything");
    assert_eq!((r.allowed, r.reason.as_str()), (true, "No sandbox configured (unrestricted)"));
    let open = SandboxRules { allowed_apis: vec![], blocked_apis: vec![], can_access_network: false, can_modify_state: false, can_send_notifications: false, can_access_sensors: false, enabled: true };
    let r = check_permission(Some(&open), "display.text");
    assert_eq!((r.allowed, r.reason.as_str()), (true, "Permitted"));
    let off = SandboxRules { enabled: false, ..open };
    assert_eq!(check_permission(Some(&off), "display.text").reason, "Plugin sandbox is disabled");
    let sb = new_sandbox(5, "d1".to_string(), CreatePluginSandbox {
        plugin_id: "p".to_string(),
        device_id: None,
        allowed_apis: None,
        blocked_apis: None,
        max_calls_per_minute: None,
        can_access_network: Some(true),
        can_modify_state: None,
        can_send_notifications: None,
        can_access_sensors: None,
    });
    assert_eq!((sb.max_calls_per_minute, sb.can_access_network, sb.can_modify_state, sb.enabled), (60, true, false, true));
    assert_eq!(sb.created_at, "just now");
}

#[test]
fn store_listings_and_ratings() {
    assert!(listing_matches(Some("all"), "utility", Some("LIGHT"), "Desk Lights", "", "me"));
    assert!(!listing_matches(Some("games"), "utility", None, "x", "", "me"));
    assert!(listing_matches(None, "utility", Some("bob"), "x", "y", "Bob Smith"));
    assert!(!listing_matches(None, "utility", Some("zzz"), "x", "y", "z"));
    assert_eq!(plugin_order(Some("popular")), "p.downloads DESC");
    assert_eq!(plugin_order(Some("newest")), "p.created_at DESC");
    assert_eq!(plugin_order(None), "p.created_at DESC");
    assert_eq!(asset_order(Some("verified")), "verified DESC, a.created_at DESC");
    assert!(check_asset_type("avatar").is_ok());
    assert_eq!(check_asset_type("sticker").unwrap_err(), "asset_type must be one of: avatar, animation, screensaver");
    let d = plugin_draft(PublishRequest { name: "n".to_string(), description: "d".to_string(), author: None, version: None, category: None, tags: None, payload: None });
    assert_eq!((d.author.as_str(), d.version.as_str(), d.category.as_str()), ("anonymous", "1.0.0", "utility"));
    assert!(d.tags.is_empty());
    assert_eq!(d.payload, obj(vec![]));
    assert_eq!(rating_change(None, 4).unwrap(), (4, 1));
    assert_eq!(rating_change(Some(5), 2).unwrap(), (-3, 0));
    assert_eq!(rating_change(None, 6).unwrap_err(), "Stars must be 1-5");
    assert_eq!(rating_change(Some(3), 0).unwrap_err(), "Stars must be 1-5");
}

#[test]
fn rating_totals_follow_rerating() {
    // one device rates 4, another 2, then the first changes its mind to 1
    let (mut sum, mut count) = (0i64, 0i64);
    for (prev, stars) in [(None, 4), (None, 2), (Some(4), 1)] {
        let (ds, dc) = rating_change(prev, stars).unwrap();
        sum += ds;
        count += dc;
    }
    assert_eq!((sum, count), (3, 2));
}

#[test]
fn games_moods_and_monitors() {
    assert_eq!(score_outcome("snake", 120, Some(100)).unwrap(), (true, 15));
    assert_eq!(score_outcome("pong", 50, Some(100)).unwrap(), (false, 5));
    assert_eq!(score_outcome("tetris", 0, None).unwrap(), (true, 15));
    assert_eq!(score_outcome("chess", 1, None).unwrap_err(), "Invalid game: chess. Valid: [\"snake\", \"pong\", \"tetris\"]");
    assert_eq!(format!("{:?}", ["snake", "pong", "tetris"]), "[\"snake\", \"pong\", \"tetris\"]");
    assert_eq!(leaderboard_query(None, None), ("snake", 20));
    assert_eq!(leaderboard_query(Some("pong"), Some(500)), ("pong", 100));
    assert_eq!(mood_energy(None), 3);
    assert_eq!(mood_energy(Some(9)), 5);
    assert_eq!(mood_energy(Some(-2)), 1);
    assert_eq!(feedback_counts("positive"), (1, 0));
    assert_eq!(feedback_counts("meh"), (0, 1));
    let c = default_monitor_config("m".to_string(), "d1".to_string(), "t".to_string());
    assert_eq!(c.monitor_count, 2);
    assert_eq!(monitor_target(1, 2, &c.angle_map).unwrap(), 90);
    assert_eq!(monitor_target(0, 2, &c.angle_map).unwrap(), 45);
    assert_eq!(monitor_target(1, 3, &obj(vec![])).unwrap(), 90);
    assert_eq!(monitor_target(2, 2, &c.angle_map).unwrap_err(), "Monitor index 2 out of range (0-1)");
    assert_eq!(looking_message(1), "Hookbot now looking at monitor 1");
}

#[test]
fn context_guess_from_recent_tools() {
    assert_eq!(detect_context(&[]), ("idle".to_string(), 0));
    assert_eq!(detect_context(&strings(&["Edit", "Write", "Grep"])), ("coding".to_string(), 2));
    // a tie goes to the later activity
    assert_eq!(detect_context(&strings(&["Grep", "Read"])), ("reviewing".to_string(), 1));
    assert_eq!(detect_context(&strings(&["Mystery"])), ("idle".to_string(), 0));
}

#[test]
fn groups_home_assistant_and_settings() {
    assert_eq!(group_state_url("10.0.0.5"), "http://10.0.0.5/state");
    assert_eq!(group_command_url("10.0.0.5", "//servo"), "http://10.0.0.5/servo");
    assert_eq!(tally(&[true, false, true]), (2, 1));
    assert_eq!(entity_id("a1-b2-c3"), "sensor.hookbot_a1_b2_c3");
    assert_eq!(retention_hours(Some("48"), 24), 48);
    assert_eq!(retention_hours(Some("two days"), 24), 24);
    assert_eq!(retention_hours(None, 24), 24);
    assert_eq!(check_settings_update(&UpdateSettings { log_retention_hours: Some(0) }).unwrap_err(), "Retention must be at least 1 hour");
    assert!(check_settings_update(&UpdateSettings { log_retention_hours: Some(5) }).is_ok());
    assert_eq!(retention_window(72), "-72 hours");
}

#[test]
fn ota_checks_routes_and_polls() {
    let targets = vec![("abcdefgh-1234".to_string(), Some("esp32".to_string())), ("0123456789ab".to_string(), Some("esp8266".to_string()))];
    assert_eq!(
        check_device_types(Some("esp32"), &targets).unwrap_err(),
        "Device type mismatch: firmware is for 'esp32' but device 01234567 is 'esp8266'"
    );
    assert!(check_device_types(None, &targets).is_ok());
    assert!(check_device_types(Some("esp32"), &[("x".to_string(), None)]).is_ok());
    assert_eq!(ota_route("cloud", Some("https://h")), OtaRoute::Queue);
    assert_eq!(ota_route("cloud", None), OtaRoute::NoPublicUrl);
    assert_eq!(ota_route("lan", None), OtaRoute::Push);
    assert_eq!(ota_start("", Some("https://h")).unwrap_err(), "Device not found");
    assert!(ota_start("10.0.0.2", None).unwrap_err().starts_with("PUBLIC_URL"));
    assert_eq!(firmware_url("https://h", "fw1", 1700000900, "sig"), "https://h/api/firmware/fw1/binary?exp=1700000900&sig=sig");
    assert!(matches!(ota_poll_step(Some("1.2"), None, Some(Some("1.2".to_string())), false, "u"), OtaPoll::Succeeded));
    match ota_poll_step(Some("1.2"), None, Some(Some("1.1".to_string())), false, "u") {
        OtaPoll::Waiting { last_seen } => assert_eq!(last_seen.as_deref(), Some("1.1")),
        _ => panic!("expected to keep waiting"),
    }
    match ota_poll_step(Some("1.2"), Some("1.1".to_string()), None, true, "https://h/fw") {
        OtaPoll::Failed { detail } => assert_eq!(detail, "Device is still reporting 1.1 after the update; expected 1.2. It usually means the device could not download https://h/fw"),
        _ => panic!("expected a failure"),
    }
    match ota_poll_step(None, None, None, true, "u") {
        OtaPoll::Failed { detail } => assert_eq!(detail, "Device did not come back after the update"),
        _ => panic!("expected a failure"),
    }
}

#[test]
fn automation_rules_create_and_update() {
    let r = new_rule("r1".to_string(), "d1".to_string(), "now".to_string(), CreateRule {
        name: "n".to_string(),
        trigger_type: "state".to_string(),
        trigger_config: obj(vec![]),
        action_type: "notify".to_string(),
        action_config: obj(vec![]),
        cooldown_secs: None,
    });
    assert!(r.enabled);
    assert_eq!(r.cooldown_secs, 60);
    let u = UpdateRule { name: Some("m".to_string()), enabled: Some(false), trigger_type: None, trigger_config: None, action_type: None, action_config: None, cooldown_secs: Some(5) };
    let a = apply_rule_update(r, u);
    assert_eq!((a.name.as_str(), a.enabled, a.cooldown_secs, a.trigger_type.as_str()), ("m", false, 5, "state"));
    assert_eq!(a.id, "r1");
}

#[test]
fn firmware_uploads_builds_and_downloads() {
    assert_eq!(
        firmware_checksum(b"abc"),
        "ba7816bf8f01cfea414140de5dae2223b00361a396177a9cb410ff61f20015ad"
    );
    assert_eq!(check_upload(false, ""), Err("No file uploaded".to_string()));
    assert_eq!(check_upload(false, "1.0"), Err("No file uploaded".to_string()));
    assert_eq!(check_upload(true, ""), Err("Version is required".to_string()));
    assert_eq!(check_upload(true, "1.0"), Ok(()));
    assert_eq!(upload_filename(None), "firmware.bin");
    assert_eq!(upload_filename(Some("fw.bin".to_string())), "fw.bin");
    assert_eq!(check_firmware_id("5f2b1c9e-aaaa"), Ok(()));
    for bad in ["../etc/passwd", "a/b", "a\\b", "x..y"] {
        assert_eq!(check_firmware_id(bad), Err("Invalid firmware id".to_string()));
    }
    assert_eq!(check_environment("esp32"), Ok(()));
    assert_eq!(check_environment("esp32-4848s040c"), Ok(()));
    assert_eq!(
        check_environment("esp8266"),
        Err("Invalid environment 'esp8266'. Must be 'esp32' or 'esp32-4848s040c'".to_string())
    );
    assert_eq!(env_to_device_type("esp32-4848s040c"), "esp32_4848s040c_lcd");
    assert_eq!(env_to_device_type("esp32"), "esp32_oled");
    assert_eq!(env_to_device_type("other"), "unknown");
    assert_eq!(build_filename("esp32", "1.2.3"), "firmware-esp32-1.2.3.bin");
    assert_eq!(build_message("esp32", 1048576), "Built esp32 firmware (1048576 bytes)");
}

#[test]
fn device_probes_stop_after_a_failed_tcp_probe() {
    assert!(probes_continue(&TcpOutcome::Open));
    assert!(!probes_continue(&TcpOutcome::TimedOut));
    assert!(!probes_continue(&TcpOutcome::Refused("no".to_string())));
}
