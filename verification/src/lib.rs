//! A sandbox runner's decisions, kept apart from its input and output.

pub mod allowed;
pub mod config;
pub mod device;
pub mod encoding;
pub mod flags;
pub mod guest;
pub mod handles;
pub mod kulfi;
pub mod machine;
pub mod network;
pub mod paths;
pub mod placeholder;
pub mod rpc;
pub mod run;
pub mod sandbox;
pub mod sockets;
pub mod stack;
pub mod string_map;
pub mod vm;
pub mod wire;
pub mod text;
