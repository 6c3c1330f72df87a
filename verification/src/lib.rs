//! Verified core of a LAN scanner and SSH connection helper.
pub mod text;
pub mod sorted;
pub mod ipv4;
pub mod scanner;
pub mod strsort;
pub mod store;
pub mod credential;
pub mod json;
pub mod config_file;
pub mod ssh_config;
pub mod ssh_auth;
pub mod ssh_keys;
pub mod platform;
pub mod launch_mode;
pub mod network;
pub mod docker;
pub mod round_trip;
pub mod notices;
pub mod launcher;
pub mod tool_finder;
pub mod external_check;
pub mod session_inputs;
pub mod powershell_text;
pub mod window_shape;
