//! Logic behind the server's HTTP routes.
pub mod gamification;
pub mod music;
pub mod pairing;
pub mod account;
pub mod boss_battle;
pub mod community_store;
pub mod desk_lights;
pub mod desk_occupancy;
pub mod developer_insights;
pub mod device_api;
pub mod device_links;
pub mod devices;
pub mod diagnostics;
pub mod easter_eggs;
pub mod homeassistant;
pub mod mini_games;
pub mod monitors;
pub mod mood;
pub mod mood_learning;
pub mod notifications;
pub mod pet;
pub mod sandbox;
pub mod settings;
pub mod shared_assets;
pub mod github;
pub mod hooks;
pub mod ota;
pub mod context;
pub mod groups;
pub mod automation;
pub mod firmware;
