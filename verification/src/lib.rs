//! NearDesk: find the computers on the local network, remember how to sign in
//! to each of them, and work out what it takes to open or share a desktop.

pub mod address;
pub mod assoc;
pub mod config;
pub mod connect;
pub mod discovery;
pub mod logo;
pub mod network;
pub mod number;
pub mod platform;
pub mod protocol;
pub mod search;
pub mod text;
pub mod text_map;
pub mod this_pc;

pub use address::{IpAddr, Ipv4Addr, NameTable};
pub use config::{load_config, save_config};
pub use connect::Connect;
pub use discovery::{discover, pick_target, Discovery, Host};
pub use network::{current_username, primary_ipv4};
pub use platform::SystemInfo;
pub use protocol::Protocol;
pub use text_map::TextMap;
pub use this_pc::ThisPc;
