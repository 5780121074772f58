//! Maze SSH: SSH identity orchestration — agent wire protocol, vault model,
//! WSL bridge configuration, profile management and security state.
pub mod protocol;
pub mod text;
pub mod crypto;
pub mod provider;
pub mod bridge;
pub mod markers;
pub mod error;
pub mod wsl;
pub mod profile;
pub mod security;
pub mod policy;
pub mod repo;
pub mod history;
pub mod state;
pub mod vault;
pub mod migration;
pub mod requests;
pub mod keys;
pub mod activation;
pub mod relay;
pub mod pin;
pub mod git;
pub mod pipes;
pub mod scanner;
pub mod agent;
pub mod bundler;
pub mod health;
pub mod bridge_config;
pub mod profile_store;
