pub mod ids;
pub mod permission;
pub mod push;
pub mod rate_limit;
pub mod channel;
pub mod command;
pub mod compat_gateway;
pub mod data_export;
pub mod space;
pub mod usage;
pub mod webhook;
pub mod organization;
pub mod attachment;
pub mod audit;
pub mod auth;
pub mod billing;
pub mod bot;
pub mod calendar;
pub mod calendar_sync;
pub mod json;
pub mod message;
pub mod metrics;
pub mod media;
pub mod meeting;
pub mod realtime;
pub mod reminder;
pub mod retention;
pub mod scim;
