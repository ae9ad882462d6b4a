//! Verified core of a dev container command line: argument scanning,
//! configuration text handling, runtime argument planning and readiness checks.

pub mod args;
pub mod catalog;
pub mod checks;
pub mod collection_commands;
pub mod collections;
pub mod devcontainer_id;
pub mod discovery;
pub mod dotfiles;
pub mod engine;
pub mod entry_payloads;
pub mod env;
pub mod exec;
pub mod features;
pub mod feature_options;
pub mod feature_metadata;
pub mod feature_resolution;
pub mod host_requirements;
pub mod image_build;
pub mod cli;
pub mod cli_host;
pub mod compose;
pub mod compose_mounts;
pub mod compose_override;
pub mod compose_project;
pub mod compose_service;
pub mod compose_yaml;
pub mod config;
pub mod container;
pub mod configuration;
pub mod control;
pub mod json;
pub mod json_object;
pub mod json_value;
pub mod jsonc;
pub mod lifecycle;
pub mod lockfile;
pub mod merge;
pub mod metadata;
pub mod mounts;
pub mod native;
pub mod text;
pub mod uid_update;
pub mod versions;
pub mod phase4;
pub mod publish;
pub mod read;
pub mod read_configuration;
pub mod runtime;
pub mod shell;
pub mod cutover;
pub mod outdated;
pub mod output;
