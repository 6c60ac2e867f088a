//! The logic of a launcher that keeps a compute node installed, current and
//! running: its settings file, its releases, its updates and the supervision
//! of its processes.

pub mod commands;
pub mod crypto;
pub mod env;
pub mod error;
pub mod install;
pub mod measure;
pub mod merge;
pub mod models;
pub mod ollama;
pub mod process;
pub mod process_laws;
pub mod referrals;
pub mod releases;
pub mod rlimit;
pub mod selectable;
pub mod settings;
pub mod start;
pub mod text;
pub mod updates;
