//! Job service core: scheduling decisions, query validation, access control,
//! request policies and code generation, each with a verified contract.

pub mod errors;
pub mod numbers;
pub mod text;
pub mod params;
pub mod query_parser;
pub mod crud;
pub mod job_status;
pub mod job_info;
pub mod job_signal;
pub mod job;
pub mod cron;
pub mod scheduler;
pub mod health;
pub mod pdf;
pub mod storage;
pub mod session;
pub mod rbac;
pub mod http;
pub mod json_scrub;
pub mod config;
pub mod auth;
pub mod email;
pub mod generator;
pub mod text_edit;
pub mod scaffold;
pub mod storage_scaffold;
pub mod connections;
