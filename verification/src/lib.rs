//! Message-gateway core: platform-independent rules for routing, rate control,
//! circuit breaking, alerting and the text handling of the messaging adapters.

pub mod alerting;
pub mod circuit_breaker;
pub mod delivery;
pub mod diagnostics;
pub mod clock;
pub mod discord;
pub mod entropy;
pub mod fallback;
pub mod gateway;
pub mod goal_loop;
pub mod goal_manager;
pub mod goal_state;
pub mod goal_store;
pub mod health_check;
pub mod judge;
pub mod logging;
pub mod memory_monitor;
pub mod messaging;
pub mod metrics;
pub mod plan;
pub mod plan_parser;
pub mod plan_state;
pub mod pairing;
pub mod platform;
pub mod qq_bot;
pub mod qq_onboard;
pub mod qq_protocol;
pub mod skill_curation;
pub mod slack;
pub mod slash_commands;
pub mod rate_limiter;
pub mod router;
pub mod search;
pub mod state_persistence;
pub mod sticker_cache;
pub mod strmap;
pub mod telegram;
pub mod telegram_poll;
pub mod text;
pub mod verdict;
pub mod webhooks;
pub mod whatsapp;
pub mod whatsapp_webhook;
