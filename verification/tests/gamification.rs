use hookbot::routes::easter_eggs::{
    event_order, evolution, idle_stage, konami_matches, konami_response, seasons_active, typing_result,
};
use hookbot::routes::gamification::{
    activity_limit, badges_for_event, earned_badges, event_xp, gamification_stats, level_from_xp, next_streak,
    title_for_level, xp_for_level, xp_reason, BadgeInputs,
};
use hookbot::routes::boss_battle::{already_defeated_message, answer_is_attempt, attempt_outcome, boss_for_week, boss_hint};
use hookbot::routes::pet::{feed, mood_from, pet, pet_view, token_food};

#[test]
fn xp_thresholds_follow_the_triangle_formula() {
    assert_eq!(xp_for_level(0), 0);
    assert_eq!(xp_for_level(1), 100);
    assert_eq!(xp_for_level(2), 300);
    assert_eq!(xp_for_level(3), 600);
    assert_eq!(xp_for_level(4), 1000);
}

#[test]
fn level_is_the_last_threshold_reached() {
    assert_eq!(level_from_xp(0), 0);
    assert_eq!(level_from_xp(99), 0);
    assert_eq!(level_from_xp(100), 1);
    assert_eq!(level_from_xp(299), 1);
    assert_eq!(level_from_xp(300), 2);
    assert_eq!(level_from_xp(-50), 0);
    // Every total lies between its level's threshold and the next one.
    for total in [0i64, 1, 150, 999, 1000, 54_321, 1_000_000] {
        let l = level_from_xp(total);
        assert!(xp_for_level(l) <= total || l == 0);
        assert!(total < xp_for_level(l + 1));
    }
}

#[test]
fn titles_by_level() {
    assert_eq!(title_for_level(0), "Newbie");
    assert_eq!(title_for_level(2), "Apprentice");
    assert_eq!(title_for_level(5), "Coder");
    assert_eq!(title_for_level(9), "Developer");
    assert_eq!(title_for_level(14), "Engineer");
    assert_eq!(title_for_level(19), "Architect");
    assert_eq!(title_for_level(29), "Wizard");
    assert_eq!(title_for_level(49), "Legend");
    assert_eq!(title_for_level(50), "Mythic");
    assert_eq!(title_for_level(-1), "Mythic");
}

#[test]
fn events_award_xp() {
    assert_eq!(event_xp("PreToolUse"), 5);
    assert_eq!(event_xp("PostToolUse"), 10);
    assert_eq!(event_xp("UserPromptSubmit"), 3);
    assert_eq!(event_xp("TaskCompleted"), 25);
    assert_eq!(event_xp("Stop"), 2);
    assert_eq!(event_xp("Other"), 1);
    assert_eq!(xp_reason("PostToolUse", "Bash"), "PostToolUse:Bash");
}

#[test]
fn streaks_extend_restart_or_stay() {
    assert_eq!(next_streak(3, 5, Some("2026-01-02"), "2026-01-02", "2026-01-01"), None);
    assert_eq!(next_streak(3, 5, Some("2026-01-01"), "2026-01-02", "2026-01-01"), Some((4, 5)));
    assert_eq!(next_streak(5, 5, Some("2026-01-01"), "2026-01-02", "2026-01-01"), Some((6, 6)));
    assert_eq!(next_streak(9, 12, Some("2025-12-01"), "2026-01-02", "2026-01-01"), Some((1, 12)));
    assert_eq!(next_streak(0, 0, None, "2026-01-02", "2026-01-01"), Some((1, 1)));
}

#[test]
fn badges_in_order() {
    let b = BadgeInputs { total_tools: 150, hour: 2, recent_5min: 12, current_streak: 7, total_xp: 1500 };
    assert_eq!(
        earned_badges(&b),
        vec!["first_hook", "tool_100", "night_owl", "speed_demon", "streak_3", "streak_7", "xp_1000", "level_5"]
    );
    let none = BadgeInputs { total_tools: 0, hour: 12, recent_5min: 0, current_streak: 0, total_xp: 0 };
    assert!(earned_badges(&none).is_empty());
    let lvl = BadgeInputs { total_tools: 0, hour: 12, recent_5min: 0, current_streak: 0, total_xp: 21_000 };
    assert_eq!(earned_badges(&lvl), vec!["xp_1000", "xp_10000", "level_5", "level_10", "level_20"]);
}

#[test]
fn stats_report_level_thresholds_and_title() {
    let s = gamification_stats(650, 40, 2, 9, 3);
    assert_eq!((s.level, s.xp_for_current_level, s.xp_for_next_level), (3, 600, 1000));
    assert_eq!(s.title, "Coder");
    assert_eq!((s.total_xp, s.total_tool_uses, s.current_streak, s.longest_streak, s.achievements_earned), (650, 40, 2, 9, 3));
    assert_eq!(activity_limit(None), 50);
    assert_eq!(activity_limit(Some(500)), 200);
    assert_eq!(activity_limit(Some(7)), 7);
}

#[test]
fn konami_code_and_its_answer() {
    let code: Vec<String> = ["up", "up", "down", "down", "left", "right", "left", "right", "b", "a"]
        .iter()
        .map(|s| s.to_string())
        .collect();
    assert!(konami_matches(&code));
    assert!(!konami_matches(&code[..9]));
    let mut wrong = code.clone();
    wrong[9] = "b".to_string();
    assert!(!konami_matches(&wrong));

    let no = konami_response(false, true);
    assert!(!no.valid && !no.achievement_unlocked && no.secret_animation.is_none());
    assert_eq!(no.message, "Not the right sequence...");
    let yes = konami_response(true, true);
    assert!(yes.achievement_unlocked);
    assert!(yes.secret_animation.unwrap().contains("\"name\":\"konami_secret\""));
    assert_eq!(konami_response(true, false).message, "KONAMI CODE ACTIVATED! (Achievement already unlocked)");
}

#[test]
fn evolution_forms_by_level() {
    assert_eq!(evolution(0), (0, "egg", Some(10), 5500));
    assert_eq!(evolution(6000), (10, "blob", Some(20), 15000));
    assert_eq!(evolution(82_000), (40, "cosmic", None, 0));
}

#[test]
fn typing_tiers_and_records() {
    assert_eq!(typing_result(25, 30), (5, "Hunt & Peck", false, 30));
    assert_eq!(typing_result(95, 30), (35, "Fast", true, 95));
    assert_eq!(typing_result(150, 200), (50, "Legendary", false, 200));
    assert_eq!(typing_result(-3, 0), (50, "Legendary", false, 0));
}

#[test]
fn idle_stages_by_minutes() {
    assert_eq!(idle_stage(4), None);
    assert_eq!(idle_stage(5), Some(0));
    assert_eq!(idle_stage(59), Some(3));
    assert_eq!(idle_stage(999), Some(9));
}

#[test]
fn seasonal_events_active_first() {
    assert_eq!(seasons_active(12, 31), vec![false, true, false, true]);
    assert_eq!(seasons_active(4, 1), vec![false, false, true, false]);
    assert_eq!(event_order(&[false, true, false, true]), vec![1, 3, 0, 2]);
    assert_eq!(event_order(&[false, false, false, false]), vec![0, 1, 2, 3]);
}

#[test]
fn bosses_rotate_weekly() {
    assert_eq!(boss_for_week(0).0, "regex_wraith");
    assert_eq!(boss_for_week(9).1, "Null Pointer Phantom");
    assert_eq!(boss_for_week(7).3, 50);
    assert_eq!(boss_hint(3, false, "Deadlock Demon").unwrap(), "Hint: Focus on the edge cases in the Deadlock Demon challenge!");
    assert_eq!(boss_hint(3, true, "Deadlock Demon"), None);
    assert_eq!(boss_hint(2, false, "Deadlock Demon"), None);
    assert!(answer_is_attempt("  use a lock order  "));
    assert!(!answer_is_attempt("   short   "));
    assert_eq!(attempt_outcome("Regex Wraith", 50, 1, true), (75, "You defeated Regex Wraith! +75 XP (includes 25 bonus for quick solve!)".to_string()));
    assert_eq!(attempt_outcome("Regex Wraith", 50, 3, true), (50, "You defeated Regex Wraith! +50 XP".to_string()));
    assert_eq!(attempt_outcome("Regex Wraith", 50, 2, false), (0, "Not quite! Regex Wraith still stands. Try again! (Attempt #2)".to_string()));
    assert_eq!(already_defeated_message("Regex Wraith"), "You already defeated Regex Wraith this week!");
}

#[test]
fn pet_moods_and_care() {
    assert_eq!(mood_from(100, 90), "ecstatic");
    assert_eq!(mood_from(80, 60), "happy");
    assert_eq!(mood_from(5, 10), "miserable");
    assert_eq!(mood_from(200, 200), "miserable");
    let f = feed(90, 95, Some("feast"));
    assert_eq!((f.hunger, f.happiness), (100, 100));
    assert_eq!(f.message, "Om nom nom! That was amazing!");
    let f = feed(10, 10, None);
    assert_eq!((f.hunger, f.happiness, f.mood.as_str()), (25, 15, "sad"));
    assert_eq!(f.message, "Tasty snack!");
    let p = pet(50, 70);
    assert_eq!((p.hunger, p.happiness, p.message.as_str()), (50, 90, "Purrs happily!"));
    assert_eq!(pet_view(80, 60, Some(125), Some(61)), (68, 58, "content"));
    assert_eq!(pet_view(80, 60, None, None), (0, 50, "sad"));
    assert_eq!(token_food(2400, 100), 5);
    assert_eq!(token_food(100_000, 0), 10);
}

#[test]
fn badges_are_awarded_once_and_only_with_a_device() {
    let b = BadgeInputs { total_tools: 120, hour: 2, recent_5min: 0, current_streak: 0, total_xp: 50 };
    assert!(badges_for_event(None, &vec![]).is_empty());
    assert_eq!(badges_for_event(Some(&b), &vec![]), vec!["first_hook", "tool_100", "night_owl"]);
    assert_eq!(badges_for_event(Some(&b), &vec!["first_hook".to_string()]), vec!["tool_100", "night_owl"]);
    let held = vec!["first_hook".to_string(), "tool_100".to_string(), "night_owl".to_string()];
    assert!(badges_for_event(Some(&b), &held).is_empty());
}
