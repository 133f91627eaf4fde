//! Data exchanged by the server and stored in its database.
use vstd::prelude::*;
use crate::json::JsonValue;

verus! {

pub struct User {
    pub id: String,
    pub workos_id: String,
    pub email: String,
    pub name: String,
    pub api_key: String,
    pub created_at: String,
}

pub struct Device {
    pub id: String,
    pub name: String,
    pub hostname: String,
    pub ip_address: String,
    pub purpose: Option<String>,
    pub personality: Option<String>,
    pub device_type: Option<String>,
    pub created_at: String,
    pub updated_at: String,
    pub user_id: Option<String>,
}

/// A device's settings.
pub struct DeviceConfig {
    pub device_id: String,
    pub led_brightness: i32,
    pub led_colors: Option<JsonValue>,
    pub sound_enabled: bool,
    pub sound_volume: i32,
    pub avatar_preset: Option<JsonValue>,
    pub custom_data: Option<JsonValue>,
    pub sound_pack: Option<String>,
}

/// A change to a device's settings: the fields that are present replace the stored ones.
pub struct UpdateConfig {
    pub led_brightness: Option<i32>,
    pub led_colors: Option<JsonValue>,
    pub sound_enabled: Option<bool>,
    pub sound_volume: Option<i32>,
    pub avatar_preset: Option<JsonValue>,
    pub custom_data: Option<JsonValue>,
    pub sound_pack: Option<String>,
}

pub struct Firmware {
    pub id: String,
    pub version: String,
    pub filename: String,
    pub size_bytes: i64,
    pub checksum: String,
    pub uploaded_at: String,
    pub notes: Option<String>,
    pub device_type: Option<String>,
}

pub struct OtaJob {
    pub id: String,
    pub firmware_id: String,
    pub device_id: String,
    pub status: String,
    pub created_at: String,
    pub updated_at: String,
    pub error_msg: Option<String>,
}

pub struct StatusLog {
    pub device_id: String,
    pub state: String,
    pub uptime_ms: i64,
    pub free_heap: i64,
    pub recorded_at: String,
}

pub struct CreateDevice {
    pub name: String,
    pub hostname: String,
    pub ip_address: String,
    pub purpose: Option<String>,
    pub personality: Option<String>,
    pub device_type: Option<String>,
}

pub struct UpdateDevice {
    pub name: Option<String>,
    pub hostname: Option<String>,
    pub ip_address: Option<String>,
    pub purpose: Option<String>,
    pub personality: Option<String>,
}

pub struct StateChange {
    pub state: String,
    pub tool: Option<String>,
    pub detail: Option<String>,
}

pub struct OtaDeploy {
    pub firmware_id: String,
    pub device_ids: Vec<String>,
}

pub struct TaskItem {
    pub label: String,
    pub status: u8,
}

pub struct HookEvent {
    pub event: String,
    pub tool_name: Option<String>,
    pub tool_output: Option<String>,
    pub project: Option<String>,
    pub device_id: Option<String>,
    pub tasks: Option<Vec<TaskItem>>,
    pub active_task: Option<u8>,
    pub input_tokens: Option<i64>,
    pub output_tokens: Option<i64>,
    pub model: Option<String>,
}

pub struct GitHubHookQuery {
    pub device_id: Option<String>,
}

pub struct DeviceWithStatus {
    pub device: Device,
    pub latest_status: Option<StatusSnapshot>,
    pub online: bool,
}

pub struct StatusSnapshot {
    pub state: String,
    pub uptime_ms: i64,
    pub free_heap: i64,
    pub recorded_at: String,
}

pub struct DiscoveredDevice {
    pub hostname: String,
    pub ip_address: String,
    pub port: u16,
    pub already_registered: bool,
}

pub struct ToolUse {
    pub id: i64,
    pub device_id: Option<String>,
    pub tool_name: String,
    pub event: String,
    pub project: Option<String>,
    pub duration_ms: Option<i64>,
    pub xp_earned: i64,
    pub created_at: String,
}

pub struct Session {
    pub id: i64,
    pub device_id: Option<String>,
    pub started_at: String,
    pub ended_at: Option<String>,
    pub tool_count: i64,
    pub xp_earned: i64,
}

pub struct XpEntry {
    pub id: i64,
    pub device_id: Option<String>,
    pub amount: i64,
    pub reason: String,
    pub created_at: String,
}

pub struct Achievement {
    pub id: i64,
    pub device_id: Option<String>,
    pub badge_id: String,
    pub earned_at: String,
}

pub struct Streak {
    pub device_id: String,
    pub current_streak: i64,
    pub longest_streak: i64,
    pub last_active_date: Option<String>,
    pub updated_at: String,
}

pub struct GamificationStats {
    pub total_xp: i64,
    pub level: i64,
    pub xp_for_current_level: i64,
    pub xp_for_next_level: i64,
    pub total_tool_uses: i64,
    pub current_streak: i64,
    pub longest_streak: i64,
    pub achievements_earned: i64,
    pub title: String,
}

pub struct ActivityEntry {
    pub id: i64,
    pub tool_name: String,
    pub event: String,
    pub xp_earned: i64,
    pub created_at: String,
    pub device_id: Option<String>,
}

pub struct DayCount {
    pub date: String,
    pub count: i64,
}

pub struct HourCount {
    pub hour: i64,
    pub count: i64,
}

pub struct ToolCount {
    pub tool_name: String,
    pub count: i64,
}

pub struct StateCount {
    pub state: String,
    pub count: i64,
}

pub struct DayXp {
    pub date: String,
    pub xp: i64,
}

pub struct BadgeDefinition {
    pub id: String,
    pub name: String,
    pub description: String,
    pub icon: String,
    pub earned: bool,
    pub earned_at: Option<String>,
}

pub struct LeaderboardEntry {
    pub device_id: String,
    pub device_name: String,
    pub total_xp: i64,
    pub level: i64,
    pub current_streak: i64,
    pub achievements: i64,
}

pub struct Notification {
    pub id: i64,
    pub device_id: String,
    pub source: String,
    pub unread: i64,
    pub message: Option<String>,
    pub delivered: bool,
    pub created_at: String,
    pub delivered_at: Option<String>,
}

pub struct CreateNotification {
    pub source: String,
    pub unread: Option<i64>,
    pub active: Option<bool>,
    pub message: Option<String>,
}

pub struct SensorConfig {
    pub id: i64,
    pub device_id: String,
    pub channel: i32,
    pub pin: i32,
    pub sensor_type: String,
    pub label: Option<String>,
    pub poll_interval_ms: i32,
    pub threshold: i32,
}

pub struct UpdateSensorConfig {
    pub channels: Vec<SensorChannelUpdate>,
}

pub struct SensorChannelUpdate {
    pub channel: i32,
    pub pin: i32,
    pub sensor_type: String,
    pub label: Option<String>,
    pub poll_interval_ms: Option<i32>,
    pub threshold: Option<i32>,
}

pub struct SensorReadingsQuery {
    pub channel: Option<i32>,
    pub hours: Option<u64>,
}

pub struct ProjectRoute {
    pub id: String,
    pub project_path: String,
    pub device_id: String,
    pub label: Option<String>,
    pub created_at: String,
}

pub struct ProjectRouteWithDevice {
    pub id: String,
    pub project_path: String,
    pub device_id: String,
    pub label: Option<String>,
    pub created_at: String,
    pub device_name: Option<String>,
}

pub struct CreateProjectRoute {
    pub project_path: String,
    pub device_id: String,
    pub label: Option<String>,
}

pub struct UpdateProjectRoute {
    pub project_path: Option<String>,
    pub device_id: Option<String>,
    pub label: Option<String>,
}

pub struct DeviceGroup {
    pub id: String,
    pub name: String,
    pub color: String,
    pub created_at: String,
    pub device_ids: Vec<String>,
}

pub struct CreateGroup {
    pub name: String,
    pub color: Option<String>,
}

pub struct UpdateGroup {
    pub name: Option<String>,
    pub color: Option<String>,
}

pub struct AddGroupMember {
    pub device_id: String,
}

pub struct GroupStateRequest {
    pub state: String,
}

pub struct VerifiedPublisher {
    pub id: String,
    pub name: String,
    pub display_name: String,
    pub badge_type: String,
    pub verified_at: String,
    pub verified_by: Option<String>,
}

pub struct CreateVerifiedPublisher {
    pub name: String,
    pub display_name: String,
    pub badge_type: Option<String>,
}

pub struct PluginSandbox {
    pub id: i64,
    pub plugin_id: String,
    pub device_id: String,
    pub allowed_apis: Vec<String>,
    pub blocked_apis: Vec<String>,
    pub max_calls_per_minute: i64,
    pub can_access_network: bool,
    pub can_modify_state: bool,
    pub can_send_notifications: bool,
    pub can_access_sensors: bool,
    pub enabled: bool,
    pub created_at: String,
}

pub struct CreatePluginSandbox {
    pub plugin_id: String,
    pub device_id: Option<String>,
    pub allowed_apis: Option<Vec<String>>,
    pub blocked_apis: Option<Vec<String>>,
    pub max_calls_per_minute: Option<i64>,
    pub can_access_network: Option<bool>,
    pub can_modify_state: Option<bool>,
    pub can_send_notifications: Option<bool>,
    pub can_access_sensors: Option<bool>,
}

pub struct UpdatePluginSandbox {
    pub allowed_apis: Option<Vec<String>>,
    pub blocked_apis: Option<Vec<String>>,
    pub max_calls_per_minute: Option<i64>,
    pub can_access_network: Option<bool>,
    pub can_modify_state: Option<bool>,
    pub can_send_notifications: Option<bool>,
    pub can_access_sensors: Option<bool>,
    pub enabled: Option<bool>,
}

pub struct LocalUser {
    pub id: String,
    pub username: String,
    pub display_name: String,
    pub role: String,
    pub last_login_at: Option<String>,
    pub created_at: String,
}

pub struct CreateUser {
    pub username: String,
    pub display_name: String,
    pub password: String,
    pub role: Option<String>,
}

pub struct UpdateUser {
    pub display_name: Option<String>,
    pub password: Option<String>,
    pub role: Option<String>,
}

pub struct UserWithDevices {
    pub user: LocalUser,
    pub device_ids: Vec<String>,
}

pub struct AssignDevice {
    pub device_id: String,
    pub permissions: Option<String>,
}

pub struct RecordMoodFeedback {
    pub device_id: Option<String>,
    pub state: String,
    pub animation_id: Option<String>,
    pub feedback: String,
    pub duration_secs: Option<i64>,
}

pub struct VoiceResponse {
    pub ok: bool,
    pub transcript: String,
    pub response: String,
    pub state: Option<String>,
    pub tts_url: Option<String>,
}

pub struct TtsRequest {
    pub device_id: Option<String>,
    pub text: String,
    pub voice: Option<String>,
}

pub struct VoiceCommandRequest {
    pub device_id: Option<String>,
    pub text: String,
}

pub struct VoiceHistoryQuery {
    pub device_id: Option<String>,
    pub limit: Option<i64>,
}

pub struct VoiceConfig {
    pub device_id: String,
    pub wake_word_enabled: bool,
    pub tts_enabled: bool,
    pub tts_voice: String,
    pub volume: i32,
    pub language: String,
}

pub struct UpdateVoiceConfig {
    pub device_id: Option<String>,
    pub wake_word_enabled: Option<bool>,
    pub tts_enabled: Option<bool>,
    pub tts_voice: Option<String>,
    pub volume: Option<i32>,
    pub language: Option<String>,
}

pub struct DeskLightAction {
    pub color: Option<String>,
    pub brightness: Option<i32>,
    pub effect: Option<String>,
}

/// A device's music integration. The OAuth tokens stay on the server: what is shown of a
/// configuration is `connected`, never the tokens.
pub struct MusicConfig {
    pub id: String,
    pub device_id: String,
    pub provider: String,
    pub connected: bool,
    pub access_token: Option<String>,
    pub refresh_token: Option<String>,
    pub auto_pause_meetings: bool,
    pub focus_playlist_id: Option<String>,
    pub enabled: bool,
    pub created_at: String,
}

pub struct CreateMusicConfig {
    pub device_id: Option<String>,
    pub provider: String,
    pub access_token: Option<String>,
    pub refresh_token: Option<String>,
    pub focus_playlist_id: Option<String>,
}

pub struct UpdateMusicConfig {
    pub access_token: Option<String>,
    pub refresh_token: Option<String>,
    pub auto_pause_meetings: Option<bool>,
    pub focus_playlist_id: Option<String>,
    pub enabled: Option<bool>,
}

pub struct NowPlaying {
    pub is_playing: bool,
    pub track_name: Option<String>,
    pub artist_name: Option<String>,
    pub album_name: Option<String>,
    pub album_art_url: Option<String>,
    pub progress_ms: Option<i64>,
    pub duration_ms: Option<i64>,
}

pub struct MusicAction {
    pub action: String,
    pub playlist_id: Option<String>,
}

pub struct StandingDeskConfig {
    pub id: String,
    pub device_id: String,
    pub sit_remind_minutes: i64,
    pub stand_remind_minutes: i64,
    pub enabled: bool,
    pub current_position: String,
    pub total_stand_minutes: i64,
    pub total_sit_minutes: i64,
    pub transitions_today: i64,
    pub last_transition_at: Option<String>,
    pub created_at: String,
}

pub struct CreateStandingDeskConfig {
    pub device_id: Option<String>,
    pub sit_remind_minutes: Option<i64>,
    pub stand_remind_minutes: Option<i64>,
}

pub struct UpdateStandingDeskConfig {
    pub sit_remind_minutes: Option<i64>,
    pub stand_remind_minutes: Option<i64>,
    pub enabled: Option<bool>,
}

pub struct DeskPositionChange {
    pub position: String,
}

pub struct DeskDayStats {
    pub date: String,
    pub stand_minutes: i64,
    pub sit_minutes: i64,
    pub transitions: i64,
}

pub struct TriggerStreamDeckButton {
    pub button_id: String,
}

pub struct HomeAssistantConfig {
    pub id: String,
    pub device_id: String,
    pub ha_url: String,
    pub access_token: Option<String>,
    pub entity_id: Option<String>,
    pub expose_states: bool,
    pub expose_sensors: bool,
    pub enabled: bool,
    pub created_at: String,
}

pub struct CreateHomeAssistantConfig {
    pub device_id: Option<String>,
    pub ha_url: String,
    pub access_token: Option<String>,
    pub entity_id: Option<String>,
}

pub struct UpdateHomeAssistantConfig {
    pub ha_url: Option<String>,
    pub access_token: Option<String>,
    pub entity_id: Option<String>,
    pub expose_states: Option<bool>,
    pub expose_sensors: Option<bool>,
    pub enabled: Option<bool>,
}

pub struct DeskOccupancyConfig {
    pub id: String,
    pub device_id: String,
    pub break_remind_minutes: i64,
    pub enabled: bool,
    pub created_at: String,
}

pub struct CreateDeskOccupancyConfig {
    pub device_id: Option<String>,
    pub break_remind_minutes: Option<i64>,
}

pub struct UpdateDeskOccupancyConfig {
    pub break_remind_minutes: Option<i64>,
    pub enabled: Option<bool>,
}

pub struct OccupancyEvent {
    pub id: i64,
    pub device_id: String,
    pub event_type: String,
    pub created_at: String,
}

pub struct RecordOccupancyEvent {
    pub device_id: Option<String>,
    pub event_type: String,
}

pub struct SetActiveMonitor {
    pub monitor: i32,
}

} // verus!
