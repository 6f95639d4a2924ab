//! FlowMason: a workflow engine that chains "bricks" over JSON payloads.
//! The verified core: the JSON value model, field mapping, the rules engine,
//! quota bookkeeping, the flow runner's step logic and the bricks' own logic.

pub mod types;
pub mod json;
pub mod text;
pub mod mapper;
pub mod rules_engine;
pub mod quota;
pub mod brick_traits;
pub mod flow_runner;
pub mod http_client;
pub mod service;
pub mod n8n_brick;
pub mod hubspot_brick;
pub mod notion_brick;
pub mod nvidia_brick;
pub mod openai_brick;
pub mod odoo_brick;
pub mod storage;
pub mod mapper_bricks;
pub mod rules_brick;
pub mod auth;
