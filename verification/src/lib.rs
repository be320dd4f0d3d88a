//! Verified core of a remote desktop tool: a terminal emulator, SSH host key
//! and RDP certificate decisions, an encrypted vault, session and configuration
//! management, redaction and platform rules.
pub mod agent;
pub mod audit;
pub mod buffer;
pub mod cli;
pub mod clipboard;
pub mod crypto;
pub mod deps;
pub mod error;
pub mod framebuffer;
pub mod grid;
pub mod handler;
pub mod ids;
pub mod info;
pub mod input;
pub mod json;
pub mod keystore;
pub mod known_hosts;
pub mod logging;
pub mod migrate;
pub mod parser;
pub mod parser_laws;
pub mod paths;
pub mod profile;
pub mod proto;
pub mod rdp_session;
pub mod redact;
pub mod redact_writer;
pub mod rng;
pub mod screen_laws;
pub mod secret;
pub mod secrets;
pub mod service;
pub mod session;
pub mod settings;
pub mod sftp;
pub mod sort;
pub mod ssh_agent;
pub mod ssh_session;
pub mod store;
pub mod term;
pub mod term_laws;
pub mod text;
pub mod textmap;
pub mod timeutil;
pub mod tls;
pub mod ui;
pub mod vault;
