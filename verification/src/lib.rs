//! Verified decision logic of the Vertex AI engine: developer-agent safety
//! rules, the ARD relay state machine, privacy-aware context budgeting,
//! memory scoping, and model/runtime bookkeeping.

pub mod platform;
pub mod order;
pub mod paths;
pub mod seqs;
pub mod text;
pub mod types;
pub mod developer;
pub mod ids;
pub mod terminal;
pub mod ard;
pub mod bridge;
pub mod relay;
pub mod numtext;
pub mod agent;
pub mod agent_run;
pub mod memory;
pub mod context;
pub mod secrets;
pub mod audit;
pub mod postgres_runtime;
pub mod runtime;
pub mod models;
pub mod model_names;
pub mod provider;
pub mod environment;
pub mod core_service;
pub mod desktop;
pub mod net;
pub mod ollama;
pub mod openai;
pub mod sandbox;
pub mod devstore;
