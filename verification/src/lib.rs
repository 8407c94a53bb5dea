//! Verified core of a desktop manager for Python, Conda, venv and uv environments.
pub mod commands;
pub mod conda;
pub mod conda_list;
pub mod domain;
pub mod install_flow;
pub mod json;
pub mod path;
pub mod package;
pub mod process;
pub mod resolve;
pub mod setup;
pub mod sort;
pub mod storage;
pub mod system;
pub mod system_flow;
pub mod task;
pub mod text;
pub mod upgrade;
pub mod uv;
pub mod venv;
pub mod yaml;
